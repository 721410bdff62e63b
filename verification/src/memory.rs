//! Memory access types and the RAM model: what writing and then
//! reading a range of target RAM must yield.

use vstd::prelude::*;

verus! {

/// A read request: where and how many bytes.
#[derive(Debug, Clone, Copy, PartialEq, Eq, Structural)]
pub struct ReadMemoryOptions {
    pub address: u64,
    pub size: u32,
}

/// A write request.
#[derive(Debug, Clone)]
pub struct WriteMemoryOptions {
    pub address: u64,
    pub data: Vec<u8>,
}

/// One core register and its value.
#[derive(Debug, Clone)]
pub struct RegisterValue {
    pub name: String,
    pub value: u64,
}

/// A model of a RAM window: its base address and its bytes. What the
/// memory commands promise of the target is stated against this model.
pub struct RamImage {
    pub base: u64,
    pub bytes: Vec<u8>,
}

impl RamImage {
    /// The addressed range stays within the address space.
    pub open spec fn wf(&self) -> bool {
        self.base + self.bytes@.len() <= u64::MAX
    }

    pub open spec fn contains_range(&self, addr: u64, len: int) -> bool {
        &&& self.base <= addr
        &&& addr - self.base + len <= self.bytes@.len()
    }

    /// A window of `size` zeroed bytes at `base`.
    pub fn new(base: u64, size: usize) -> (r: Self)
        requires
            base + size <= u64::MAX,
        ensures
            r.wf(),
            r.base == base,
            r.bytes@ == Seq::new(size as nat, |i: int| 0u8),
    {
        let mut bytes: Vec<u8> = Vec::new();
        let mut i: usize = 0;
        while i < size
            invariant
                i <= size,
                bytes@ == Seq::new(i as nat, |j: int| 0u8),
            decreases size - i,
        {
            bytes.push(0);
            proof {
                assert(bytes@ =~= Seq::new((i + 1) as nat, |j: int| 0u8));
            }
            i = i + 1;
        }
        RamImage { base, bytes }
    }

    /// Writes `data` at `addr`: those bytes take the new values, every
    /// other byte keeps its old one.
    pub fn write_bytes(&mut self, addr: u64, data: &[u8])
        requires
            old(self).wf(),
            old(self).contains_range(addr, data@.len() as int),
        ensures
            final(self).wf(),
            final(self).base == old(self).base,
            final(self).bytes@.len() == old(self).bytes@.len(),
            forall|k: int|
                0 <= k < data@.len() ==> final(self).bytes@[addr - old(self).base + k] == data@[k],
            forall|k: int|
                0 <= k < old(self).bytes@.len() && !(addr - old(self).base <= k < addr - old(
                    self,
                ).base + data@.len()) ==> final(self).bytes@[k] == old(self).bytes@[k],
    {
        let n = self.bytes.len();
        proof {
            assert(addr - self.base <= n);
        }
        let off = (addr - self.base) as usize;
        let mut i: usize = 0;
        while i < data.len()
            invariant
                i <= data@.len(),
                off + data@.len() <= self.bytes@.len(),
                self.bytes@.len() <= usize::MAX,
                self.base == old(self).base,
                off == addr - self.base,
                self.bytes@.len() == old(self).bytes@.len(),
                forall|k: int| 0 <= k < i ==> self.bytes@[off + k] == data@[k],
                forall|k: int|
                    0 <= k < self.bytes@.len() && !(off <= k < off + data@.len())
                        ==> self.bytes@[k] == old(self).bytes@[k],
            decreases data@.len() - i,
        {
            self.bytes.set(off + i, data[i]);
            i = i + 1;
        }
    }

    /// Reads `len` bytes at `addr`, exactly the model's bytes there.
    pub fn read_bytes(&self, addr: u64, len: usize) -> (r: Vec<u8>)
        requires
            self.wf(),
            self.contains_range(addr, len as int),
        ensures
            r@ == self.bytes@.subrange(addr - self.base, addr - self.base + len),
    {
        let n = self.bytes.len();
        proof {
            assert(addr - self.base <= n);
        }
        let off = (addr - self.base) as usize;
        vstd::slice::slice_to_vec(
            vstd::slice::slice_subrange(self.bytes.as_slice(), off, off + len),
        )
    }
}

/// Writing RAM and reading the same range back yields the very bytes
/// written, whatever the window held before.
pub proof fn lemma_write_then_read(pre: RamImage, post: RamImage, addr: u64, data: Seq<u8>)
    requires
        pre.wf(),
        pre.contains_range(addr, data.len() as int),
        post.base == pre.base,
        post.bytes@.len() == pre.bytes@.len(),
        forall|k: int| 0 <= k < data.len() ==> post.bytes@[addr - pre.base + k] == data[k],
    ensures
        post.bytes@.subrange(addr - pre.base, addr - pre.base + data.len()) =~= data,
{
}

} // verus!
