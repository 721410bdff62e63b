//! Flash algorithm extraction from Keil-style FLM files. An FLM is an
//! ARM ELF whose `PrgCode`/`PrgData` sections hold the programming code
//! and whose `FlashDevice` symbol describes page size, timeouts and
//! sector geometry. The object crate reads the container; everything
//! built from what it hands back is verified here.

use vstd::prelude::*;
use crate::bytestr::{
    bytes_eq_str, bytes_to_string, clone_bytes, lit_bytes, lossy_of, push_bytes,
};
use crate::error::AppError;
use base64::Engine;
use object::{Object, ObjectSection, ObjectSymbol};

verus! {

use vstd::string::StringSliceAdditionalSpecFns;

/// An extracted flash algorithm, ready for the target registry: entry
/// point offsets carry the Thumb bit, the instruction blob is base64.
#[derive(Debug, Clone)]
pub struct FlashAlgorithm {
    pub name: String,
    pub description: String,
    pub default: bool,
    pub instructions: String,
    pub pc_init: Option<u64>,
    pub pc_uninit: Option<u64>,
    pub pc_program_page: u64,
    pub pc_erase_sector: u64,
    pub pc_erase_all: Option<u64>,
    pub data_section_offset: u64,
    pub flash_properties: FlashProperties,
}

#[derive(Debug, Clone)]
pub struct FlashProperties {
    pub address_range: AddressRange,
    pub page_size: u64,
    pub erased_byte_value: u8,
    pub program_page_timeout: u64,
    pub erase_sector_timeout: u64,
    pub sectors: Vec<SectorInfo>,
}

#[derive(Debug, Clone, Copy, PartialEq, Eq, Structural)]
pub struct AddressRange {
    pub start: u64,
    pub end: u64,
}

/// One sector: its size and its address relative to the flash start.
#[derive(Debug, Clone, Copy, PartialEq, Eq, Structural)]
pub struct SectorInfo {
    pub size: u64,
    pub address: u64,
}

pub ghost struct FlashPropertiesS {
    pub address_range: AddressRange,
    pub page_size: u64,
    pub erased_byte_value: u8,
    pub program_page_timeout: u64,
    pub erase_sector_timeout: u64,
    pub sectors: Seq<SectorInfo>,
}

impl View for FlashProperties {
    type V = FlashPropertiesS;

    open spec fn view(&self) -> FlashPropertiesS {
        FlashPropertiesS {
            address_range: self.address_range,
            page_size: self.page_size,
            erased_byte_value: self.erased_byte_value,
            program_page_timeout: self.program_page_timeout,
            erase_sector_timeout: self.erase_sector_timeout,
            sectors: self.sectors@,
        }
    }
}

#[verifier::ext_equal]
pub ghost struct FlashAlgorithmS {
    pub name: Seq<char>,
    pub description: Seq<char>,
    pub default: bool,
    pub instructions: Seq<char>,
    pub pc_init: Option<u64>,
    pub pc_uninit: Option<u64>,
    pub pc_program_page: u64,
    pub pc_erase_sector: u64,
    pub pc_erase_all: Option<u64>,
    pub data_section_offset: u64,
    pub flash_properties: FlashPropertiesS,
}

impl View for FlashAlgorithm {
    type V = FlashAlgorithmS;

    open spec fn view(&self) -> FlashAlgorithmS {
        FlashAlgorithmS {
            name: self.name@,
            description: self.description@,
            default: self.default,
            instructions: self.instructions@,
            pc_init: self.pc_init,
            pc_uninit: self.pc_uninit,
            pc_program_page: self.pc_program_page,
            pc_erase_sector: self.pc_erase_sector,
            pc_erase_all: self.pc_erase_all,
            data_section_offset: self.data_section_offset,
            flash_properties: self.flash_properties@,
        }
    }
}

// ---------------------------------------------------------------------
// The trusted view of the ELF container.
// ---------------------------------------------------------------------

/// One section as the object crate reports it. `kind` is 0 for code,
/// 1 for initialised data, 2 for uninitialised data, 3 otherwise;
/// `data` is `None` when the section's bytes cannot be read.
pub struct ElfSection {
    pub name: Vec<u8>,
    pub addr: u64,
    pub size: u64,
    pub kind: u8,
    pub data: Option<Vec<u8>>,
}

impl View for ElfSection {
    type V = (Seq<u8>, u64, u64, u8, Option<Seq<u8>>);

    open spec fn view(&self) -> (Seq<u8>, u64, u64, u8, Option<Seq<u8>>) {
        (
            self.name@,
            self.addr,
            self.size,
            self.kind,
            match self.data {
                Option::Some(ref d) => Some(d@),
                Option::None => None,
            },
        )
    }
}

/// One symbol: name, address, size.
pub struct ElfSymbol {
    pub name: Vec<u8>,
    pub addr: u64,
    pub size: u64,
}

impl View for ElfSymbol {
    type V = (Seq<u8>, u64, u64);

    open spec fn view(&self) -> (Seq<u8>, u64, u64) {
        (self.name@, self.addr, self.size)
    }
}

/// The section table the object crate reads from an ELF image: name,
/// address, size, kind and bytes per section; a function of the image
/// alone. `None` when the image is not a readable object file.
pub uninterp spec fn elf_sections_of(data: Seq<u8>) -> Option<
    Seq<(Seq<u8>, u64, u64, u8, Option<Seq<u8>>)>,
>;

/// The symbol table the object crate reads from an ELF image; a
/// function of the image alone.
pub uninterp spec fn elf_symbols_of(data: Seq<u8>) -> Option<Seq<(Seq<u8>, u64, u64)>>;

/// Relies on object::File::parse and ObjectSection: the sections of the
/// image, in table order, with their names, addresses, sizes, kinds and
/// bytes. Fails exactly when the image does not parse.
#[verifier::external_body]
fn elf_sections(data: &[u8]) -> (r: Option<Vec<ElfSection>>)
    ensures
        match r {
            Some(v) => elf_sections_of(data@) == Some(v@.map_values(|s: ElfSection| s@)),
            None => elf_sections_of(data@) is None,
        },
{
    let file = object::File::parse(data).ok()?;
    Some(file.sections().map(|s| ElfSection {
        name: s.name().unwrap_or("").as_bytes().to_vec(),
        addr: s.address(),
        size: s.size(),
        kind: match s.kind() {
            object::SectionKind::Text => 0,
            object::SectionKind::Data => 1,
            object::SectionKind::UninitializedData => 2,
            _ => 3,
        },
        data: s.data().ok().map(|d| d.to_vec()),
    }).collect())
}

/// Relies on object::File::parse and ObjectSymbol: the symbols of the
/// image, in table order, with their names, addresses and sizes. Fails
/// exactly when the image does not parse.
#[verifier::external_body]
fn elf_symbols(data: &[u8]) -> (r: Option<Vec<ElfSymbol>>)
    ensures
        match r {
            Some(v) => elf_symbols_of(data@) == Some(v@.map_values(|s: ElfSymbol| s@)),
            None => elf_symbols_of(data@) is None,
        },
{
    let file = object::File::parse(data).ok()?;
    Some(file.symbols().map(|s| ElfSymbol {
        name: s.name().unwrap_or("").as_bytes().to_vec(),
        addr: s.address(),
        size: s.size(),
    }).collect())
}

/// What base64's standard engine encodes the bytes to; a function of
/// the bytes alone.
pub uninterp spec fn base64_of(b: Seq<u8>) -> Seq<char>;

/// Relies on base64's STANDARD engine: four output characters for every
/// three input bytes, padded; the result depends on the bytes alone.
#[verifier::external_body]
fn base64_encode(b: &[u8]) -> (r: String)
    ensures
        r@ == base64_of(b@),
        r@.len() == 4 * ((b@.len() + 2) / 3),
{
    base64::engine::general_purpose::STANDARD.encode(b)
}

// ---------------------------------------------------------------------
// FlashDevice: the CMSIS descriptor embedded in the FLM.
// ---------------------------------------------------------------------

/// The CMSIS FlashDevice descriptor, already decoded: geometry and
/// timing of the device the algorithm programs. Sector descriptors are
/// `(size, first offset)` runs.
pub struct FlashDevice {
    pub name: Vec<u8>,
    pub start_address: u32,
    pub device_size: u32,
    pub page_size: u32,
    pub erased_default_value: u8,
    pub program_page_timeout: u32,
    pub erase_sector_timeout: u32,
    pub sectors: Vec<FlashSector>,
}

#[derive(Debug, Clone, Copy, PartialEq, Eq, Structural)]
pub struct FlashSector {
    pub size: u32,
    pub address: u32,
}

pub ghost struct FlashDeviceS {
    pub name: Seq<u8>,
    pub start_address: u32,
    pub device_size: u32,
    pub page_size: u32,
    pub erased_default_value: u8,
    pub program_page_timeout: u32,
    pub erase_sector_timeout: u32,
    pub sectors: Seq<FlashSector>,
}

impl View for FlashDevice {
    type V = FlashDeviceS;

    open spec fn view(&self) -> FlashDeviceS {
        FlashDeviceS {
            name: self.name@,
            start_address: self.start_address,
            device_size: self.device_size,
            page_size: self.page_size,
            erased_default_value: self.erased_default_value,
            program_page_timeout: self.program_page_timeout,
            erase_sector_timeout: self.erase_sector_timeout,
            sectors: self.sectors@,
        }
    }
}

/// The little-endian 32-bit value at `off`.
pub open spec fn u32le(d: Seq<u8>, off: int) -> u32 {
    (d[off] + d[off + 1] * 0x100 + d[off + 2] * 0x10000 + d[off + 3] * 0x1000000) as u32
}

fn read_u32le(d: &[u8], off: usize) -> (r: u32)
    requires
        off + 4 <= d@.len(),
    ensures
        r == u32le(d@, off as int),
{
    (d[off] as u32) + (d[off + 1] as u32) * 0x100 + (d[off + 2] as u32) * 0x10000 + (d[off
        + 3] as u32) * 0x1000000
}

/// Where the descriptor's name ends: the first NUL in its 128-byte
/// field, or the whole field.
pub open spec fn name_end_at(d: Seq<u8>, i: int) -> int
    decreases 0x82 - i,
{
    if i < 2 || i >= 0x82 {
        0x82
    } else if d[i] == 0 {
        i
    } else {
        name_end_at(d, i + 1)
    }
}

/// The sector runs read from offset `off` on: 8 bytes each, ended by the
/// `0xFFFFFFFF` sentinel or the data; zero-sized entries are dropped.
pub open spec fn sectors_from(d: Seq<u8>, off: int) -> Seq<FlashSector>
    decreases d.len() - off,
{
    if off < 0xa0 || off + 8 > d.len() {
        Seq::empty()
    } else {
        let size = u32le(d, off);
        let addr = u32le(d, off + 4);
        if size == 0xffffffffu32 {
            Seq::empty()
        } else if size > 0 {
            seq![FlashSector { size, address: addr }] + sectors_from(d, off + 8)
        } else {
            sectors_from(d, off + 8)
        }
    }
}

/// The decoded descriptor, when the data is large enough to hold one.
pub open spec fn spec_flash_device(d: Seq<u8>) -> Option<FlashDeviceS> {
    if d.len() < 0xa0 {
        None
    } else {
        Some(
            FlashDeviceS {
                name: d.subrange(2, name_end_at(d, 2)),
                start_address: u32le(d, 0x84),
                device_size: u32le(d, 0x88),
                page_size: u32le(d, 0x8c),
                erased_default_value: d[0x94],
                program_page_timeout: u32le(d, 0x98),
                erase_sector_timeout: u32le(d, 0x9c),
                sectors: sectors_from(d, 0xa0),
            },
        )
    }
}

impl FlashDevice {
    /// Decodes the descriptor from the bytes at the `FlashDevice`
    /// symbol: a 2-byte version, a 128-byte name, addresses, sizes,
    /// timeouts, then `(size, offset)` sector runs up to a sentinel.
    pub fn from_elf_data(data: &[u8]) -> (r: Option<FlashDevice>)
        ensures
            match r {
                Some(fd) => spec_flash_device(data@) == Some(fd@),
                None => spec_flash_device(data@) is None,
            },
    {
        if data.len() < 0xa0 {
            return None;
        }
        let mut name_end: usize = 2;
        while name_end < 0x82 && data[name_end] != 0
            invariant
                2 <= name_end <= 0x82,
                data@.len() >= 0xa0,
                name_end_at(data@, 2) == name_end_at(data@, name_end as int),
            decreases 0x82 - name_end,
        {
            name_end = name_end + 1;
        }
        let name = crate::bytestr::clone_bytes(
            &vstd::slice::slice_to_vec(vstd::slice::slice_subrange(data, 2, name_end)),
        );
        let mut sectors: Vec<FlashSector> = Vec::new();
        let mut off: usize = 0xa0;
        let mut done = false;
        while !done && off <= data.len() - 8
            invariant
                0xa0 <= off <= data@.len(),
                data@.len() >= 0xa0,
                done ==> sectors@ == sectors_from(data@, 0xa0),
                !done ==> sectors_from(data@, 0xa0) == sectors@ + sectors_from(
                    data@,
                    off as int,
                ),
            decreases data@.len() - off + (if done {
                0int
            } else {
                1int
            }),
        {
            let size = read_u32le(data, off);
            let addr = read_u32le(data, off + 4);
            if size == 0xffffffffu32 {
                done = true;
            } else {
                if size > 0 {
                    sectors.push(FlashSector { size, address: addr });
                    proof {
                        assert(sectors@ + sectors_from(data@, off + 8 as int)
                            =~= sectors@.drop_last() + (seq![
                            FlashSector { size, address: addr },
                        ] + sectors_from(data@, off + 8 as int)));
                    }
                }
                off = off + 8;
            }
        }
        proof {
            if !done {
                assert(sectors@ + sectors_from(data@, off as int) =~= sectors@);
            }
        }
        Some(
            FlashDevice {
                name,
                start_address: read_u32le(data, 0x84),
                device_size: read_u32le(data, 0x88),
                page_size: read_u32le(data, 0x8c),
                erased_default_value: data[0x94],
                program_page_timeout: read_u32le(data, 0x98),
                erase_sector_timeout: read_u32le(data, 0x9c),
                sectors,
            },
        )
    }
}

// ---------------------------------------------------------------------
// Sector lists.
// ---------------------------------------------------------------------

/// The fallback sector layout: 4 KiB sectors from offset zero covering
/// `flash_size` (the last one may overhang a size that is not a
/// multiple).
pub open spec fn spec_default_sectors(flash_size: u64, addr: u64) -> Seq<SectorInfo>
    decreases (if addr < flash_size {
        flash_size - addr
    } else {
        0int
    }),
{
    if addr >= flash_size {
        Seq::empty()
    } else {
        seq![SectorInfo { size: 4096, address: addr }] + spec_default_sectors(
            flash_size,
            if addr + 4096 > u64::MAX {
                u64::MAX
            } else {
                (addr + 4096) as u64
            },
        )
    }
}

/// 4 KiB sectors from offset zero up to `flash_size`.
pub fn generate_default_sectors(flash_size: u64) -> (r: Vec<SectorInfo>)
    ensures
        r@ == spec_default_sectors(flash_size, 0),
{
    let mut out: Vec<SectorInfo> = Vec::new();
    let mut addr: u64 = 0;
    while addr < flash_size
        invariant
            spec_default_sectors(flash_size, 0) == out@ + spec_default_sectors(flash_size, addr),
        decreases (if addr < flash_size {
            flash_size - addr
        } else {
            0int
        }),
    {
        out.push(SectorInfo { size: 4096, address: addr });
        let next = if addr > u64::MAX - 4096 {
            u64::MAX
        } else {
            addr + 4096
        };
        proof {
            assert(out@ + spec_default_sectors(flash_size, next) =~= out@.drop_last() + (seq![
                SectorInfo { size: 4096, address: addr },
            ] + spec_default_sectors(flash_size, next)));
        }
        addr = next;
    }
    proof {
        assert(out@ + spec_default_sectors(flash_size, addr) =~= out@);
    }
    out
}

/// One descriptor run expanded: sectors of `size` from `from` up to
/// `until`.
pub open spec fn spec_run_sectors(size: u64, from: u64, until: u64) -> Seq<SectorInfo>
    decreases (if from < until {
        until - from
    } else {
        0int
    }),
{
    if size == 0 || from >= until {
        Seq::empty()
    } else {
        seq![SectorInfo { size, address: from }] + spec_run_sectors(
            size,
            if from + size > u64::MAX {
                u64::MAX
            } else {
                (from + size) as u64
            },
            until,
        )
    }
}

/// The runs of the descriptor list expanded, each up to the next run's
/// offset, the last up to the device size.
pub open spec fn spec_expand_runs(descs: Seq<FlashSector>, i: int, device_size: u64) -> Seq<
    SectorInfo,
>
    decreases descs.len() - i,
{
    if i < 0 || i >= descs.len() {
        Seq::empty()
    } else {
        let until = if i + 1 < descs.len() {
            descs[i + 1].address as u64
        } else {
            device_size as u64
        };
        spec_run_sectors(descs[i].size as u64, descs[i].address as u64, until)
            + spec_expand_runs(descs, i + 1, device_size)
    }
}

/// What the descriptor list yields: its expansion, or the 4 KiB default
/// when it is empty or expands to nothing.
pub open spec fn spec_sectors_of_device(fd: FlashDeviceS) -> Seq<SectorInfo> {
    if fd.sectors.len() == 0 {
        spec_default_sectors(fd.device_size as u64, 0)
    } else {
        let expanded = spec_expand_runs(fd.sectors, 0, fd.device_size as u64);
        if expanded.len() == 0 {
            spec_default_sectors(fd.device_size as u64, 0)
        } else {
            expanded
        }
    }
}

/// Expands the descriptor's sector runs into the explicit per-sector
/// list, addresses relative to the flash start.
pub fn build_sectors_from_flash_device(fd: &FlashDevice) -> (r: Vec<SectorInfo>)
    ensures
        r@ == spec_sectors_of_device(fd@),
{
    if fd.sectors.len() == 0 {
        return generate_default_sectors(fd.device_size as u64);
    }
    let mut out: Vec<SectorInfo> = Vec::new();
    let mut i: usize = 0;
    while i < fd.sectors.len()
        invariant
            i <= fd.sectors@.len(),
            spec_expand_runs(fd.sectors@, 0, fd.device_size as u64) == out@ + spec_expand_runs(
                fd.sectors@,
                i as int,
                fd.device_size as u64,
            ),
        decreases fd.sectors@.len() - i,
    {
        let desc = fd.sectors[i];
        let until: u64 = if i + 1 < fd.sectors.len() {
            fd.sectors[i + 1].address as u64
        } else {
            fd.device_size as u64
        };
        let size = desc.size as u64;
        let mut addr = desc.address as u64;
        proof {
            assert(out@ + spec_expand_runs(fd.sectors@, i as int, fd.device_size as u64) == out@
                + (spec_run_sectors(size, addr, until) + spec_expand_runs(
                fd.sectors@,
                i + 1 as int,
                fd.device_size as u64,
            )));
        }
        let ghost rest = spec_expand_runs(fd.sectors@, i + 1 as int, fd.device_size as u64);
        if size > 0 {
            while addr < until
                invariant
                    size > 0,
                    spec_expand_runs(fd.sectors@, 0, fd.device_size as u64) == out@ + (spec_run_sectors(
                        size,
                        addr,
                        until,
                    ) + rest),
                decreases (if addr < until {
                    until - addr
                } else {
                    0int
                }),
            {
                out.push(SectorInfo { size, address: addr });
                let next = if addr > u64::MAX - size {
                    u64::MAX
                } else {
                    addr + size
                };
                proof {
                    assert(out@ + (spec_run_sectors(size, next, until) + rest) =~= out@.drop_last()
                        + (seq![SectorInfo { size, address: addr }] + spec_run_sectors(
                        size,
                        next,
                        until,
                    ) + rest));
                }
                addr = next;
            }
            proof {
                assert(out@ + (spec_run_sectors(size, addr, until) + rest) =~= out@ + rest);
            }
        } else {
            proof {
                assert(out@ + (spec_run_sectors(size, addr, until) + rest) =~= out@ + rest);
            }
        }
        i = i + 1;
    }
    proof {
        assert(out@ + spec_expand_runs(fd.sectors@, fd.sectors@.len() as int, fd.device_size as u64)
            =~= out@);
    }
    if out.len() == 0 {
        generate_default_sectors(fd.device_size as u64)
    } else {
        out
    }
}

// ---------------------------------------------------------------------
// Section and symbol scans.
// ---------------------------------------------------------------------

pub ghost struct SectionScanS {
    pub code: Option<(u64, Seq<u8>)>,
    pub data_sec: Option<(u64, Seq<u8>)>,
    pub bss: u64,
}

struct SectionScan {
    code: Option<(u64, Vec<u8>)>,
    data_sec: Option<(u64, Vec<u8>)>,
    bss: u64,
}

impl View for SectionScan {
    type V = SectionScanS;

    closed spec fn view(&self) -> SectionScanS {
        SectionScanS {
            code: match self.code {
                Option::Some((a, ref d)) => Some((a, d@)),
                Option::None => None,
            },
            data_sec: match self.data_sec {
                Option::Some((a, ref d)) => Some((a, d@)),
                Option::None => None,
            },
            bss: self.bss,
        }
    }
}

/// The named-section scan: the last readable `PrgCode` wins as code, the
/// last `PrgData` as data (or, uninitialised, as BSS size).
pub open spec fn scan_sections(secs: Seq<(Seq<u8>, u64, u64, u8, Option<Seq<u8>>)>)
    -> SectionScanS
    decreases secs.len(),
{
    if secs.len() == 0 {
        SectionScanS { code: None, data_sec: None, bss: 0 }
    } else {
        let pre = scan_sections(secs.drop_last());
        let s = secs.last();
        if s.0 == lit_bytes("PrgCode") {
            match s.4 {
                Option::Some(d) => SectionScanS { code: Some((s.1, d)), ..pre },
                Option::None => pre,
            }
        } else if s.0 == lit_bytes("PrgData") {
            if s.3 == 2 {
                SectionScanS { bss: s.2, ..pre }
            } else {
                match s.4 {
                    Option::Some(d) => SectionScanS { data_sec: Some((s.1, d)), ..pre },
                    Option::None => pre,
                }
            }
        } else {
            pre
        }
    }
}

/// The first non-empty readable section of the given kind, the fallback
/// when the CMSIS names are absent.
pub open spec fn first_of_kind(
    secs: Seq<(Seq<u8>, u64, u64, u8, Option<Seq<u8>>)>,
    i: int,
    kind: u8,
) -> Option<(u64, Seq<u8>)>
    decreases secs.len() - i,
{
    if i < 0 || i >= secs.len() {
        None
    } else {
        let s = secs[i];
        if s.3 == kind && s.4 is Some && s.4->0.len() > 0 {
            Some((s.1, s.4->0))
        } else {
            first_of_kind(secs, i + 1, kind)
        }
    }
}

fn scan_sections_exec(secs: &Vec<ElfSection>) -> (r: SectionScan)
    ensures
        r@ == scan_sections(secs@.map_values(|s: ElfSection| s@)),
{
    proof {
        reveal_strlit("PrgCode");
        reveal_strlit("PrgData");
        assert("PrgCode".is_ascii() && "PrgData".is_ascii());
        assert(lit_bytes("PrgCode").len() == 7);
        assert(lit_bytes("PrgData").len() == 7);
    }
    let ghost all = secs@.map_values(|s: ElfSection| s@);
    let mut r = SectionScan { code: None, data_sec: None, bss: 0 };
    let mut i: usize = 0;
    while i < secs.len()
        invariant
            "PrgCode".is_ascii(),
            "PrgData".is_ascii(),
            i <= secs@.len(),
            all == secs@.map_values(|s: ElfSection| s@),
            r@ == scan_sections(all.subrange(0, i as int)),
        decreases secs@.len() - i,
    {
        proof {
            assert(all.subrange(0, i + 1 as int).drop_last() =~= all.subrange(0, i as int));
            assert(all.subrange(0, i + 1 as int).last() == all[i as int]);
        }
        let s = &secs[i];
        if bytes_eq_str(s.name.as_slice(), "PrgCode") {
            match &s.data {
                Some(d) => {
                    r.code = Some((s.addr, clone_bytes(d)));
                },
                None => {},
            }
        } else if bytes_eq_str(s.name.as_slice(), "PrgData") {
            if s.kind == 2 {
                r.bss = s.size;
            } else {
                match &s.data {
                    Some(d) => {
                        r.data_sec = Some((s.addr, clone_bytes(d)));
                    },
                    None => {},
                }
            }
        }
        i = i + 1;
    }
    proof {
        assert(all.subrange(0, all.len() as int) =~= all);
    }
    r
}

fn first_of_kind_exec(secs: &Vec<ElfSection>, kind: u8) -> (r: Option<(u64, Vec<u8>)>)
    ensures
        match r {
            Some((a, d)) => first_of_kind(secs@.map_values(|s: ElfSection| s@), 0, kind) == Some(
                (a, d@),
            ),
            None => first_of_kind(secs@.map_values(|s: ElfSection| s@), 0, kind) is None,
        },
{
    let ghost all = secs@.map_values(|s: ElfSection| s@);
    let mut i: usize = 0;
    while i < secs.len()
        invariant
            i <= secs@.len(),
            all == secs@.map_values(|s: ElfSection| s@),
            first_of_kind(all, 0, kind) == first_of_kind(all, i as int, kind),
        decreases secs@.len() - i,
    {
        let s = &secs[i];
        if s.kind == kind {
            match &s.data {
                Some(d) => {
                    if d.len() > 0 {
                        return Some((s.addr, clone_bytes(d)));
                    }
                },
                None => {},
            }
        }
        i = i + 1;
    }
    None
}

/// `a - b`, floored at zero, as the address arithmetic below uses it.
pub open spec fn sat_sub(a: u64, b: u64) -> u64 {
    if a >= b {
        (a - b) as u64
    } else {
        0
    }
}

/// The Thumb-mode entry offset of a symbol: its distance from the code
/// start with the low bit set.
pub open spec fn thumb_offset(addr: u64, code_start: u64) -> u64 {
    sat_sub(addr, code_start) | 1
}

pub ghost struct SymScanS {
    pub init: Option<u64>,
    pub uninit: Option<u64>,
    pub program_page: Option<u64>,
    pub erase_sector: Option<u64>,
    pub erase_all: Option<u64>,
}

struct SymScan {
    init: Option<u64>,
    uninit: Option<u64>,
    program_page: Option<u64>,
    erase_sector: Option<u64>,
    erase_all: Option<u64>,
}

impl View for SymScan {
    type V = SymScanS;

    closed spec fn view(&self) -> SymScanS {
        SymScanS {
            init: self.init,
            uninit: self.uninit,
            program_page: self.program_page,
            erase_sector: self.erase_sector,
            erase_all: self.erase_all,
        }
    }
}

/// The entry points named by the algorithm's symbols, each as a
/// Thumb-mode offset from the code start; a later symbol of the same
/// name wins.
pub open spec fn scan_symbols(syms: Seq<(Seq<u8>, u64, u64)>, code_start: u64) -> SymScanS
    decreases syms.len(),
{
    if syms.len() == 0 {
        SymScanS { init: None, uninit: None, program_page: None, erase_sector: None, erase_all: None }
    } else {
        let pre = scan_symbols(syms.drop_last(), code_start);
        let s = syms.last();
        let off = thumb_offset(s.1, code_start);
        if s.0 == lit_bytes("Init") {
            SymScanS { init: Some(off), ..pre }
        } else if s.0 == lit_bytes("UnInit") {
            SymScanS { uninit: Some(off), ..pre }
        } else if s.0 == lit_bytes("ProgramPage") {
            SymScanS { program_page: Some(off), ..pre }
        } else if s.0 == lit_bytes("EraseSector") {
            SymScanS { erase_sector: Some(off), ..pre }
        } else if s.0 == lit_bytes("EraseChip") {
            SymScanS { erase_all: Some(off), ..pre }
        } else {
            pre
        }
    }
}

proof fn lemma_sym_lits()
    ensures
        lit_bytes("Init").len() == 4,
        lit_bytes("UnInit").len() == 6,
        lit_bytes("ProgramPage").len() == 11,
        lit_bytes("EraseSector").len() == 11,
        lit_bytes("EraseChip").len() == 9,
        lit_bytes("ProgramPage") != lit_bytes("EraseSector"),
{
    reveal_strlit("Init");
    reveal_strlit("UnInit");
    reveal_strlit("ProgramPage");
    reveal_strlit("EraseSector");
    reveal_strlit("EraseChip");
    assert(lit_bytes("ProgramPage")[0] == 0x50);
    assert(lit_bytes("EraseSector")[0] == 0x45);
}

fn scan_symbols_exec(syms: &Vec<ElfSymbol>, code_start: u64) -> (r: SymScan)
    ensures
        r@ == scan_symbols(syms@.map_values(|s: ElfSymbol| s@), code_start),
{
    proof {
        lemma_sym_lits();
        reveal_strlit("Init");
        reveal_strlit("UnInit");
        reveal_strlit("ProgramPage");
        reveal_strlit("EraseSector");
        reveal_strlit("EraseChip");
        assert("Init".is_ascii() && "UnInit".is_ascii() && "ProgramPage".is_ascii());
        assert("EraseSector".is_ascii() && "EraseChip".is_ascii());
    }
    let ghost all = syms@.map_values(|s: ElfSymbol| s@);
    let mut r = SymScan {
        init: None,
        uninit: None,
        program_page: None,
        erase_sector: None,
        erase_all: None,
    };
    let mut i: usize = 0;
    while i < syms.len()
        invariant
            "Init".is_ascii(),
            "UnInit".is_ascii(),
            "ProgramPage".is_ascii(),
            "EraseSector".is_ascii(),
            "EraseChip".is_ascii(),
            i <= syms@.len(),
            all == syms@.map_values(|s: ElfSymbol| s@),
            r@ == scan_symbols(all.subrange(0, i as int), code_start),
        decreases syms@.len() - i,
    {
        proof {
            assert(all.subrange(0, i + 1 as int).drop_last() =~= all.subrange(0, i as int));
            assert(all.subrange(0, i + 1 as int).last() == all[i as int]);
        }
        let s = &syms[i];
        let base = if s.addr >= code_start {
            s.addr - code_start
        } else {
            0
        };
        let off = base | 1;
        if bytes_eq_str(s.name.as_slice(), "Init") {
            r.init = Some(off);
        } else if bytes_eq_str(s.name.as_slice(), "UnInit") {
            r.uninit = Some(off);
        } else if bytes_eq_str(s.name.as_slice(), "ProgramPage") {
            r.program_page = Some(off);
        } else if bytes_eq_str(s.name.as_slice(), "EraseSector") {
            r.erase_sector = Some(off);
        } else if bytes_eq_str(s.name.as_slice(), "EraseChip") {
            r.erase_all = Some(off);
        }
        i = i + 1;
    }
    proof {
        assert(all.subrange(0, all.len() as int) =~= all);
    }
    r
}

// ---------------------------------------------------------------------
// The FlashDevice symbol's bytes.
// ---------------------------------------------------------------------

/// The bytes at symbol address `addr`, read out of the first section
/// that contains the address and has readable data; clipped to the
/// section's data.
pub open spec fn section_chunk(
    secs: Seq<(Seq<u8>, u64, u64, u8, Option<Seq<u8>>)>,
    j: int,
    addr: u64,
    size: u64,
) -> Option<Seq<u8>>
    decreases secs.len() - j,
{
    if j < 0 || j >= secs.len() {
        None
    } else {
        let s = secs[j];
        if addr >= s.1 && addr < s.1 + s.2 && s.4 is Some && addr - s.1 < s.4->0.len() {
            let off = addr - s.1;
            let end = if off + size <= s.4->0.len() {
                off + size
            } else {
                s.4->0.len() as int
            };
            Some(s.4->0.subrange(off, end))
        } else {
            section_chunk(secs, j + 1, addr, size)
        }
    }
}

/// The decoded FlashDevice descriptor: the first `FlashDevice` symbol
/// whose bytes are readable decides; its bytes may still be too short
/// to decode.
pub open spec fn find_flash_device(
    secs: Seq<(Seq<u8>, u64, u64, u8, Option<Seq<u8>>)>,
    syms: Seq<(Seq<u8>, u64, u64)>,
    i: int,
) -> Option<FlashDeviceS>
    decreases syms.len() - i,
{
    if i < 0 || i >= syms.len() {
        None
    } else if syms[i].0 == lit_bytes("FlashDevice") {
        match section_chunk(secs, 0, syms[i].1, syms[i].2) {
            Option::Some(chunk) => spec_flash_device(chunk),
            Option::None => find_flash_device(secs, syms, i + 1),
        }
    } else {
        find_flash_device(secs, syms, i + 1)
    }
}

fn section_chunk_exec(secs: &Vec<ElfSection>, addr: u64, size: u64) -> (r: Option<Vec<u8>>)
    ensures
        match r {
            Some(v) => section_chunk(secs@.map_values(|s: ElfSection| s@), 0, addr, size) == Some(
                v@,
            ),
            None => section_chunk(secs@.map_values(|s: ElfSection| s@), 0, addr, size) is None,
        },
{
    let ghost all = secs@.map_values(|s: ElfSection| s@);
    let mut j: usize = 0;
    while j < secs.len()
        invariant
            j <= secs@.len(),
            all == secs@.map_values(|s: ElfSection| s@),
            section_chunk(all, 0, addr, size) == section_chunk(all, j as int, addr, size),
        decreases secs@.len() - j,
    {
        let s = &secs[j];
        if addr >= s.addr && addr - s.addr < s.size {
            match &s.data {
                Some(d) => {
                    let off = addr - s.addr;
                    if off < d.len() as u64 {
                        let off_us = off as usize;
                        let end: usize = if size <= (d.len() - off_us) as u64 {
                            off_us + size as usize
                        } else {
                            d.len()
                        };
                        return Some(
                            vstd::slice::slice_to_vec(
                                vstd::slice::slice_subrange(d.as_slice(), off_us, end),
                            ),
                        );
                    }
                },
                None => {},
            }
        }
        j = j + 1;
    }
    None
}

fn find_flash_device_exec(secs: &Vec<ElfSection>, syms: &Vec<ElfSymbol>) -> (r: Option<
    FlashDevice,
>)
    ensures
        match r {
            Some(fd) => find_flash_device(
                secs@.map_values(|s: ElfSection| s@),
                syms@.map_values(|s: ElfSymbol| s@),
                0,
            ) == Some(fd@),
            None => find_flash_device(
                secs@.map_values(|s: ElfSection| s@),
                syms@.map_values(|s: ElfSymbol| s@),
                0,
            ) is None,
        },
{
    proof {
        reveal_strlit("FlashDevice");
        assert("FlashDevice".is_ascii());
    }
    let ghost alls = secs@.map_values(|s: ElfSection| s@);
    let ghost ally = syms@.map_values(|s: ElfSymbol| s@);
    let mut i: usize = 0;
    while i < syms.len()
        invariant
            "FlashDevice".is_ascii(),
            i <= syms@.len(),
            alls == secs@.map_values(|s: ElfSection| s@),
            ally == syms@.map_values(|s: ElfSymbol| s@),
            find_flash_device(alls, ally, 0) == find_flash_device(alls, ally, i as int),
        decreases syms@.len() - i,
    {
        let s = &syms[i];
        if bytes_eq_str(s.name.as_slice(), "FlashDevice") {
            match section_chunk_exec(secs, s.addr, s.size) {
                Some(chunk) => {
                    return FlashDevice::from_elf_data(chunk.as_slice());
                },
                None => {},
            }
        }
        i = i + 1;
    }
    None
}

// ---------------------------------------------------------------------
// Blob assembly and the extraction itself.
// ---------------------------------------------------------------------

/// `n` zero bytes.
pub open spec fn zeros(n: int) -> Seq<u8> {
    Seq::new(if n >= 0 { n as nat } else { 0nat }, |i: int| 0u8)
}

/// The algorithm image and its data-section offset: code, zero padding
/// up to where the data section sits, the data, and the BSS zeroed.
pub open spec fn spec_blob(
    code_start: u64,
    code: Seq<u8>,
    data_sec: Option<(u64, Seq<u8>)>,
    bss: u64,
) -> (Seq<u8>, int) {
    match data_sec {
        Option::Some((da, db)) => {
            let off = sat_sub(da, code_start) as int;
            let pad = if off > code.len() {
                off - code.len()
            } else {
                0int
            };
            (code + zeros(pad) + db + zeros(bss as int), off)
        },
        Option::None => (code + zeros(bss as int), code.len() as int),
    }
}

/// Assembles the algorithm image. The data-section offset can reach
/// `u64::MAX`, far past any allocatable image; the build aborts rather
/// than wrap if the paddings cannot be allocated.
fn build_blob(code_start: u64, code: Vec<u8>, data_sec: Option<(u64, Vec<u8>)>, bss: u64) -> (r: (
    Vec<u8>,
    u64,
))
    ensures
        ({
            let g = spec_blob(
                code_start,
                code@,
                match data_sec {
                    Option::Some((a, ref d)) => Some((a, d@)),
                    Option::None => None,
                },
                bss,
            );
            r.0@ == g.0 && r.1 as int == g.1
        }),
{
    let mut blob = code;
    let ghost code_v = blob@;
    let data_offset: u64;
    match data_sec {
        Some((da, db)) => {
            let off: u64 = if da >= code_start {
                da - code_start
            } else {
                0
            };
            data_offset = off;
            while (blob.len() as u64) < off
                invariant
                    blob@ == code_v + zeros(blob@.len() - code_v.len()),
                    blob@.len() >= code_v.len(),
                    blob@.len() <= (if off > code_v.len() {
                        off as int
                    } else {
                        code_v.len() as int
                    }),
                decreases off - blob@.len(),
            {
                blob.push(0);
                proof {
                    assert(blob@ =~= code_v + zeros(blob@.len() - code_v.len()));
                }
            }
            proof {
                let off_i = off as int;
                let pad = if off_i > code_v.len() {
                    off_i - code_v.len()
                } else {
                    0int
                };
                assert(blob@ =~= code_v + zeros(pad));
            }
            push_bytes(&mut blob, db.as_slice());
        },
        None => {
            data_offset = blob.len() as u64;
        },
    }
    let ghost pre_bss = blob@;
    let mut k: u64 = 0;
    while k < bss
        invariant
            k <= bss,
            blob@ == pre_bss + zeros(k as int),
        decreases bss - k,
    {
        blob.push(0);
        proof {
            assert(blob@ =~= pre_bss + zeros(k + 1 as int));
        }
        k = k + 1;
    }
    proof {
        assert(code_v + zeros(0) =~= code_v);
        assert((code_v + zeros(0)) + zeros(bss as int) =~= code_v + zeros(bss as int));
    }
    (blob, data_offset)
}

/// What extraction yields on an image: `None` when the image does not
/// parse, no code section is found, or `ProgramPage` or `EraseSector`
/// is unresolved.
pub open spec fn spec_extract(
    data: Seq<u8>,
    name: Seq<char>,
    flash_start: u64,
    flash_size: u64,
) -> Option<FlashAlgorithmS> {
    match elf_sections_of(data) {
        Option::None => None,
        Option::Some(secs) => match elf_symbols_of(data) {
            Option::None => None,
            Option::Some(syms) => {
                let scan = scan_sections(secs);
                let code = match scan.code {
                    Option::Some(c) => Some(c),
                    Option::None => first_of_kind(secs, 0, 0),
                };
                match code {
                    Option::None => None,
                    Option::Some((cs, cd)) => {
                        let dsec = match scan.data_sec {
                            Option::Some(d) => Some(d),
                            Option::None => first_of_kind(secs, 0, 1),
                        };
                        let built = spec_blob(cs, cd, dsec, scan.bss);
                        let syms_scan = scan_symbols(syms, cs);
                        match syms_scan.program_page {
                            Option::None => None,
                            Option::Some(pp) => match syms_scan.erase_sector {
                                Option::None => None,
                                Option::Some(es) => {
                                    let fd = find_flash_device(secs, syms, 0);
                                    let sectors = match fd {
                                        Option::Some(f) => spec_sectors_of_device(f),
                                        Option::None => spec_default_sectors(flash_size, 0),
                                    };
                                    let page_size = match fd {
                                        Option::Some(f) => f.page_size as u64,
                                        Option::None => 256,
                                    };
                                    let ppt = match fd {
                                        Option::Some(f) => f.program_page_timeout as u64,
                                        Option::None => 1000,
                                    };
                                    let est = match fd {
                                        Option::Some(f) => f.erase_sector_timeout as u64,
                                        Option::None => 2000,
                                    };
                                    let erased = match fd {
                                        Option::Some(f) => f.erased_default_value,
                                        Option::None => 0xff,
                                    };
                                    Some(
                                        FlashAlgorithmS {
                                            name,
                                            description: "Flash algorithm from CMSIS-Pack"@,
                                            default: true,
                                            instructions: base64_of(built.0),
                                            pc_init: syms_scan.init,
                                            pc_uninit: syms_scan.uninit,
                                            pc_program_page: pp,
                                            pc_erase_sector: es,
                                            pc_erase_all: syms_scan.erase_all,
                                            data_section_offset: built.1 as u64,
                                            flash_properties: FlashPropertiesS {
                                                address_range: AddressRange {
                                                    start: flash_start,
                                                    end: (flash_start + flash_size) as u64,
                                                },
                                                page_size,
                                                erased_byte_value: erased,
                                                program_page_timeout: ppt,
                                                erase_sector_timeout: est,
                                                sectors,
                                            },
                                        },
                                    )
                                },
                            },
                        }
                    },
                }
            },
        },
    }
}

/// Extracts the flash algorithm from an FLM image: locates the code and
/// data sections, assembles the instruction blob, resolves the entry
/// points with the Thumb bit folded in, and reads the sector geometry
/// from the FlashDevice descriptor, with 4 KiB defaults when it is
/// absent. `flash_start` and `flash_size` place the algorithm's address
/// range; `algo_name` names it.
pub fn extract_flash_algorithm_from_flm(
    flm_data: &[u8],
    algo_name: &str,
    flash_start: u64,
    flash_size: u64,
) -> (r: Result<FlashAlgorithm, AppError>)
    requires
        flash_start + flash_size <= u64::MAX,
    ensures
        match spec_extract(flm_data@, algo_name@, flash_start, flash_size) {
            Option::Some(a) => r is Ok && r->Ok_0@ == a,
            Option::None => r is Err && r->Err_0 is PackError,
        },
{
    let secs = match elf_sections(flm_data) {
        Some(s) => s,
        None => {
            return Err(AppError::PackError(String::from_str("FLM image does not parse")));
        },
    };
    let syms = match elf_symbols(flm_data) {
        Some(s) => s,
        None => {
            return Err(AppError::PackError(String::from_str("FLM image does not parse")));
        },
    };
    let scan = scan_sections_exec(&secs);
    let code: Option<(u64, Vec<u8>)> = match scan.code {
        Some(c) => Some(c),
        None => first_of_kind_exec(&secs, 0),
    };
    let (cs, cd) = match code {
        Some(c) => c,
        None => {
            return Err(AppError::PackError(String::from_str("no code section in FLM")));
        },
    };
    let dsec: Option<(u64, Vec<u8>)> = match scan.data_sec {
        Some(d) => Some(d),
        None => first_of_kind_exec(&secs, 1),
    };
    let ghost dsec_v: Option<(u64, Seq<u8>)> = match dsec {
        Option::Some((a, ref d)) => Some((a, d@)),
        Option::None => None,
    };
    let (blob, data_offset) = build_blob(cs, cd, dsec, scan.bss);
    let syms_scan = scan_symbols_exec(&syms, cs);
    let pp = match syms_scan.program_page {
        Some(p) => p,
        None => {
            return Err(AppError::PackError(String::from_str("ProgramPage not resolved")));
        },
    };
    let es = match syms_scan.erase_sector {
        Some(p) => p,
        None => {
            return Err(AppError::PackError(String::from_str("EraseSector not resolved")));
        },
    };
    let fd = find_flash_device_exec(&secs, &syms);
    let sectors: Vec<SectorInfo> = match &fd {
        Some(f) => build_sectors_from_flash_device(f),
        None => generate_default_sectors(flash_size),
    };
    let (page_size, ppt, est, erased): (u64, u64, u64, u8) = match &fd {
        Some(f) => (
            f.page_size as u64,
            f.program_page_timeout as u64,
            f.erase_sector_timeout as u64,
            f.erased_default_value,
        ),
        None => (256, 1000, 2000, 0xff),
    };
    let r = FlashAlgorithm {
        name: String::from_str(algo_name),
        description: String::from_str("Flash algorithm from CMSIS-Pack"),
        default: true,
        instructions: base64_encode(blob.as_slice()),
        pc_init: syms_scan.init,
        pc_uninit: syms_scan.uninit,
        pc_program_page: pp,
        pc_erase_sector: es,
        pc_erase_all: syms_scan.erase_all,
        data_section_offset: data_offset,
        flash_properties: FlashProperties {
            address_range: AddressRange { start: flash_start, end: flash_start + flash_size },
            page_size,
            erased_byte_value: erased,
            program_page_timeout: ppt,
            erase_sector_timeout: est,
            sectors,
        },
    };
    proof {
        let g = spec_extract(flm_data@, algo_name@, flash_start, flash_size)->Some_0;
        assert(r@.flash_properties =~= g.flash_properties);
        assert(r@ =~= g);
    }
    Ok(r)
}



// ---------------------------------------------------------------------
// FLM-to-device matching.
// ---------------------------------------------------------------------

/// The UTF-8 bytes of a name, upper-cased bytewise.
pub open spec fn upname(f: Seq<char>) -> Seq<u8> {
    crate::bytestr::upper_seq(vstd::utf8::encode_utf8(f))
}

/// The name with every trailing `.FLM` (after upper-casing) removed.
pub open spec fn strip_flm(s: Seq<u8>) -> Seq<u8>
    decreases s.len(),
{
    let suf = lit_bytes(".FLM");
    if s.len() >= 4 && s.subrange(s.len() - 4, s.len() as int) == suf {
        strip_flm(s.subrange(0, s.len() - 4))
    } else {
        s
    }
}

/// The first `n` bytes, or all of them.
pub open spec fn take_bytes(s: Seq<u8>, n: int) -> Seq<u8> {
    if s.len() <= n {
        s
    } else {
        s.subrange(0, n)
    }
}

/// The vendor-series prefix of an upper-cased device name: six
/// characters for the GD32 and STM32 families, else four.
pub open spec fn series_prefix(dev_up: Seq<u8>) -> Seq<u8> {
    if take_bytes(dev_up, 4) == lit_bytes("GD32") || take_bytes(dev_up, 5) == lit_bytes("STM32") {
        take_bytes(dev_up, 6)
    } else {
        take_bytes(dev_up, 4)
    }
}

/// The two size tokens a file name may carry for this flash size:
/// `_<N>MB`/`<N>MB` from one megabyte up, else `_<N>KB`/`<N>KB`.
pub open spec fn size_patterns(flash_size: u64) -> (Seq<u8>, Seq<u8>) {
    if flash_size / 0x100000 >= 1 {
        let d = crate::bytestr::dec_repr((flash_size / 0x100000) as int);
        (lit_bytes("_") + d + lit_bytes("MB"), d + lit_bytes("MB"))
    } else {
        let d = crate::bytestr::dec_repr((flash_size / 1024) as int);
        (lit_bytes("_") + d + lit_bytes("KB"), d + lit_bytes("KB"))
    }
}

/// Containment that treats the empty pattern as everywhere present.
pub open spec fn contains_or_empty(hay: Seq<u8>, pat: Seq<u8>) -> bool {
    pat.len() == 0 || crate::bytestr::contains_seq(hay, pat)
}

/// Pass one: a file whose stem equals the device name exactly.
pub open spec fn match_pass1(files: Seq<Seq<char>>, i: int, dev_up: Seq<u8>) -> Option<Seq<char>>
    decreases files.len() - i,
{
    if i < 0 || i >= files.len() {
        None
    } else if strip_flm(upname(files[i])) == dev_up {
        Some(files[i])
    } else {
        match_pass1(files, i + 1, dev_up)
    }
}

/// Pass two: a file naming the series prefix and one of the size tokens.
pub open spec fn match_pass2(
    files: Seq<Seq<char>>,
    i: int,
    prefix: Seq<u8>,
    p1: Seq<u8>,
    p2: Seq<u8>,
) -> Option<Seq<char>>
    decreases files.len() - i,
{
    if i < 0 || i >= files.len() {
        None
    } else if contains_or_empty(upname(files[i]), prefix) && (contains_or_empty(
        upname(files[i]),
        p1,
    ) || contains_or_empty(upname(files[i]), p2)) {
        Some(files[i])
    } else {
        match_pass2(files, i + 1, prefix, p1, p2)
    }
}

/// Pass three: a file whose stem equals the eight-character series name.
pub open spec fn match_pass3(files: Seq<Seq<char>>, i: int, series: Seq<u8>) -> Option<Seq<char>>
    decreases files.len() - i,
{
    if i < 0 || i >= files.len() {
        None
    } else if strip_flm(upname(files[i])) == series {
        Some(files[i])
    } else {
        match_pass3(files, i + 1, series)
    }
}

/// Pass four: a file naming the series prefix and carrying no size
/// token at all.
pub open spec fn match_pass4(files: Seq<Seq<char>>, i: int, prefix: Seq<u8>) -> Option<Seq<char>>
    decreases files.len() - i,
{
    if i < 0 || i >= files.len() {
        None
    } else if contains_or_empty(upname(files[i]), prefix) && !crate::bytestr::contains_seq(
        upname(files[i]),
        lit_bytes("KB"),
    ) && !crate::bytestr::contains_seq(upname(files[i]), lit_bytes("MB")) {
        Some(files[i])
    } else {
        match_pass4(files, i + 1, prefix)
    }
}

/// The file the matching strategy picks, if any: exact stem match,
/// series prefix with a matching size token, eight-character series
/// stem, then series prefix without a size token.
pub open spec fn spec_match_flm(files: Seq<Seq<char>>, dev: Seq<char>, flash_size: u64) -> Option<
    Seq<char>,
> {
    let dev_up = upname(dev);
    let prefix = series_prefix(dev_up);
    let pats = size_patterns(flash_size);
    let series = if dev_up.len() >= 9 {
        take_bytes(dev_up, 8)
    } else {
        dev_up
    };
    match match_pass1(files, 0, dev_up) {
        Option::Some(f) => Some(f),
        Option::None => match match_pass2(files, 0, prefix, pats.0, pats.1) {
            Option::Some(f) => Some(f),
            Option::None => match match_pass3(files, 0, series) {
                Option::Some(f) => Some(f),
                Option::None => match_pass4(files, 0, prefix),
            },
        },
    }
}

/// The upper-cased bytes of a string.
fn upname_exec(f: &String) -> (r: Vec<u8>)
    ensures
        r@ == upname(f@),
{
    crate::bytestr::upper_vec(f.as_str().as_bytes())
}

/// The stem: trailing `.FLM` repetitions removed.
fn strip_flm_exec(s: Vec<u8>) -> (r: Vec<u8>)
    ensures
        r@ == strip_flm(s@),
    decreases s@.len(),
{
    proof {
        reveal_strlit(".FLM");
        assert(".FLM".is_ascii());
        assert(lit_bytes(".FLM").len() == 4);
    }
    if s.len() >= 4 {
        let tail = vstd::slice::slice_subrange(s.as_slice(), s.len() - 4, s.len());
        if bytes_eq_str(tail, ".FLM") {
            let head = vstd::slice::slice_to_vec(
                vstd::slice::slice_subrange(s.as_slice(), 0, s.len() - 4),
            );
            return strip_flm_exec(head);
        }
    }
    s
}

fn take_bytes_exec(s: &Vec<u8>, n: usize) -> (r: Vec<u8>)
    ensures
        r@ == take_bytes(s@, n as int),
{
    if s.len() <= n {
        clone_bytes(s)
    } else {
        vstd::slice::slice_to_vec(vstd::slice::slice_subrange(s.as_slice(), 0, n))
    }
}

/// Whether `hay` holds `pat`, the empty pattern counting as present.
fn contains_or_empty_exec(hay: &Vec<u8>, pat: &Vec<u8>) -> (r: bool)
    ensures
        r == contains_or_empty(hay@, pat@),
{
    if pat.len() == 0 {
        true
    } else {
        crate::bytestr::contains_pattern(hay.as_slice(), pat.as_slice())
    }
}

/// Picks the FLM file for a device by name and flash size, in four
/// passes of falling precision; `None` leaves the device without an
/// algorithm.
pub fn match_flm_for_device(flm_files: &Vec<String>, device_name: &str, flash_size: u64) -> (r:
    Option<String>)
    ensures
        match r {
            Some(f) => spec_match_flm(
                flm_files@.map_values(|s: String| s@),
                device_name@,
                flash_size,
            ) == Some(f@),
            None => spec_match_flm(
                flm_files@.map_values(|s: String| s@),
                device_name@,
                flash_size,
            ) is None,
        },
{
    proof {
        reveal_strlit("GD32");
        reveal_strlit("STM32");
        reveal_strlit("_");
        reveal_strlit("MB");
        reveal_strlit("KB");
        assert("GD32".is_ascii() && "STM32".is_ascii());
        assert("_".is_ascii() && "MB".is_ascii() && "KB".is_ascii());
        assert(lit_bytes("MB").len() == 2 && lit_bytes("KB").len() == 2 && lit_bytes(
            "_",
        ).len() == 1);
    }
    let ghost files = flm_files@.map_values(|s: String| s@);
    let dev_up = crate::bytestr::upper_vec(device_name.as_bytes());
    let p4 = take_bytes_exec(&dev_up, 4);
    let p5 = take_bytes_exec(&dev_up, 5);
    let prefix = if bytes_eq_str(p4.as_slice(), "GD32") || bytes_eq_str(p5.as_slice(), "STM32") {
        take_bytes_exec(&dev_up, 6)
    } else {
        take_bytes_exec(&dev_up, 4)
    };
    let mut pat1: Vec<u8> = Vec::new();
    let mut pat2: Vec<u8> = Vec::new();
    if flash_size / 0x100000 >= 1 {
        pat1.push(0x5f);
        crate::bytestr::push_dec_u64(&mut pat1, flash_size / 0x100000);
        crate::bytestr::push_str_bytes(&mut pat1, "MB");
        crate::bytestr::push_dec_u64(&mut pat2, flash_size / 0x100000);
        crate::bytestr::push_str_bytes(&mut pat2, "MB");
        proof {
            assert(pat1@ =~= size_patterns(flash_size).0);
            assert(pat2@ =~= size_patterns(flash_size).1);
        }
    } else {
        pat1.push(0x5f);
        crate::bytestr::push_dec_u64(&mut pat1, flash_size / 1024);
        crate::bytestr::push_str_bytes(&mut pat1, "KB");
        crate::bytestr::push_dec_u64(&mut pat2, flash_size / 1024);
        crate::bytestr::push_str_bytes(&mut pat2, "KB");
        proof {
            assert(pat1@ =~= size_patterns(flash_size).0);
            assert(pat2@ =~= size_patterns(flash_size).1);
        }
    }
    let series = if dev_up.len() >= 9 {
        take_bytes_exec(&dev_up, 8)
    } else {
        clone_bytes(&dev_up)
    };
    let mut i: usize = 0;
    while i < flm_files.len()
        invariant
            i <= files.len(),
            files == flm_files@.map_values(|s: String| s@),
            dev_up@ == upname(device_name@),
            match_pass1(files, 0, dev_up@) == match_pass1(files, i as int, dev_up@),
        decreases files.len() - i,
    {
        let up = upname_exec(&flm_files[i]);
        let stem = strip_flm_exec(up);
        if crate::bytestr::bytes_eq(stem.as_slice(), dev_up.as_slice()) {
            return Some(flm_files[i].clone());
        }
        i = i + 1;
    }
    let mut i: usize = 0;
    while i < flm_files.len()
        invariant
            i <= files.len(),
            files == flm_files@.map_values(|s: String| s@),
            dev_up@ == upname(device_name@),
            prefix@ == series_prefix(upname(device_name@)),
            pat1@ == size_patterns(flash_size).0,
            pat2@ == size_patterns(flash_size).1,
            match_pass1(files, 0, dev_up@) is None,
            match_pass2(files, 0, prefix@, pat1@, pat2@) == match_pass2(
                files,
                i as int,
                prefix@,
                pat1@,
                pat2@,
            ),
        decreases files.len() - i,
    {
        let up = upname_exec(&flm_files[i]);
        if contains_or_empty_exec(&up, &prefix) {
            if contains_or_empty_exec(&up, &pat1) || contains_or_empty_exec(&up, &pat2) {
                return Some(flm_files[i].clone());
            }
        }
        i = i + 1;
    }
    let mut i: usize = 0;
    while i < flm_files.len()
        invariant
            i <= files.len(),
            files == flm_files@.map_values(|s: String| s@),
            dev_up@ == upname(device_name@),
            prefix@ == series_prefix(upname(device_name@)),
            pat1@ == size_patterns(flash_size).0,
            pat2@ == size_patterns(flash_size).1,
            series@ == (if upname(device_name@).len() >= 9 {
                take_bytes(upname(device_name@), 8)
            } else {
                upname(device_name@)
            }),
            match_pass1(files, 0, dev_up@) is None,
            match_pass2(files, 0, prefix@, pat1@, pat2@) is None,
            match_pass3(files, 0, series@) == match_pass3(files, i as int, series@),
        decreases files.len() - i,
    {
        let up = upname_exec(&flm_files[i]);
        let stem = strip_flm_exec(up);
        if crate::bytestr::bytes_eq(stem.as_slice(), series.as_slice()) {
            return Some(flm_files[i].clone());
        }
        i = i + 1;
    }
    let mut i: usize = 0;
    while i < flm_files.len()
        invariant
            "KB".is_ascii(),
            "MB".is_ascii(),
            lit_bytes("KB").len() == 2,
            lit_bytes("MB").len() == 2,
            i <= files.len(),
            files == flm_files@.map_values(|s: String| s@),
            dev_up@ == upname(device_name@),
            prefix@ == series_prefix(upname(device_name@)),
            pat1@ == size_patterns(flash_size).0,
            pat2@ == size_patterns(flash_size).1,
            series@ == (if upname(device_name@).len() >= 9 {
                take_bytes(upname(device_name@), 8)
            } else {
                upname(device_name@)
            }),
            match_pass1(files, 0, dev_up@) is None,
            match_pass2(files, 0, prefix@, pat1@, pat2@) is None,
            match_pass3(files, 0, series@) is None,
            match_pass4(files, 0, prefix@) == match_pass4(files, i as int, prefix@),
        decreases files.len() - i,
    {
        let up = upname_exec(&flm_files[i]);
        if contains_or_empty_exec(&up, &prefix) {
            let has_kb = crate::bytestr::contains_pattern(up.as_slice(), "KB".as_bytes());
            let has_mb = crate::bytestr::contains_pattern(up.as_slice(), "MB".as_bytes());
            proof {
                broadcast use vstd::string::is_ascii_spec_bytes;

                assert("KB".spec_bytes() =~= lit_bytes("KB"));
                assert("MB".spec_bytes() =~= lit_bytes("MB"));
            }
            if !has_kb && !has_mb {
                return Some(flm_files[i].clone());
            }
        }
        i = i + 1;
    }
    None
}


// ---------------------------------------------------------------------
// Invariants of extracted algorithms.
// ---------------------------------------------------------------------

proof fn lemma_scan_symbols_thumb(syms: Seq<(Seq<u8>, u64, u64)>, code_start: u64)
    ensures
        ({
            let sc = scan_symbols(syms, code_start);
            &&& (sc.init is Some ==> sc.init->0 & 1 == 1)
            &&& (sc.uninit is Some ==> sc.uninit->0 & 1 == 1)
            &&& (sc.program_page is Some ==> sc.program_page->0 & 1 == 1)
            &&& (sc.erase_sector is Some ==> sc.erase_sector->0 & 1 == 1)
            &&& (sc.erase_all is Some ==> sc.erase_all->0 & 1 == 1)
        }),
    decreases syms.len(),
{
    if syms.len() > 0 {
        lemma_scan_symbols_thumb(syms.drop_last(), code_start);
        let x = sat_sub(syms.last().1, code_start);
        assert((x | 1) & 1 == 1) by (bit_vector);
    }
}

/// Every extracted algorithm carries the Thumb bit: its mandatory
/// `ProgramPage` and `EraseSector` offsets are odd, and so is every
/// optional entry point that was resolved.
pub proof fn lemma_entry_points_thumb(
    data: Seq<u8>,
    name: Seq<char>,
    flash_start: u64,
    flash_size: u64,
)
    requires
        spec_extract(data, name, flash_start, flash_size) is Some,
    ensures
        ({
            let a = spec_extract(data, name, flash_start, flash_size)->Some_0;
            &&& a.pc_program_page & 1 == 1
            &&& a.pc_erase_sector & 1 == 1
            &&& (a.pc_init is Some ==> a.pc_init->0 & 1 == 1)
            &&& (a.pc_uninit is Some ==> a.pc_uninit->0 & 1 == 1)
            &&& (a.pc_erase_all is Some ==> a.pc_erase_all->0 & 1 == 1)
        }),
{
    let secs = elf_sections_of(data)->Some_0;
    let syms = elf_symbols_of(data)->Some_0;
    let scan = scan_sections(secs);
    let code = match scan.code {
        Option::Some(c) => Some(c),
        Option::None => first_of_kind(secs, 0, 0),
    };
    lemma_scan_symbols_thumb(syms, code->Some_0.0);
}

proof fn lemma_default_sectors_shape(flash_size: u64, addr: u64)
    requires
        flash_size <= u64::MAX - 4095,
        addr % 4096 == 0,
        addr <= flash_size + 4095,
    ensures
        ({
            let s = spec_default_sectors(flash_size, addr);
            &&& (forall|i: int|
                0 <= i < s.len() ==> (#[trigger] s[i]).size == 4096 && s[i].address == addr + 4096
                    * i)
            &&& (addr < flash_size ==> s.len() > 0 && addr + 4096 * s.len() >= flash_size)
            &&& addr + 4096 * s.len() <= flash_size + 4095
        }),
    decreases (if addr < flash_size {
        flash_size - addr
    } else {
        0int
    }),
{
    let s = spec_default_sectors(flash_size, addr);
    if addr < flash_size {
        let next = (addr + 4096) as u64;
        lemma_default_sectors_shape(flash_size, next);
        let rest = spec_default_sectors(flash_size, next);
        assert forall|i: int| 0 <= i < s.len() implies (#[trigger] s[i]).size == 4096
            && s[i].address == addr + 4096 * i by {
            if i == 0 {
            } else {
                assert(s[i] == rest[i - 1]);
                assert(rest[i - 1].address == next + 4096 * (i - 1));
                assert(next + 4096 * (i - 1) == addr + 4096 * i) by (nonlinear_arith)
                    requires
                        next == addr + 4096,
                ;
            }
        }
        assert(4096 * s.len() == 4096 + 4096 * rest.len()) by (nonlinear_arith)
            requires
                s.len() == rest.len() + 1,
        ;
    }
}

/// The fallback sector layout is sound: sectors start at offset zero,
/// are contiguous (each begins where the one before it ends), and cover
/// the flash size. Stated away from the top of the address space, where
/// a layout ending past `u64::MAX` cannot be represented.
pub proof fn lemma_default_sectors_contiguous(flash_size: u64)
    requires
        0 < flash_size <= u64::MAX - 4095,
    ensures
        ({
            let s = spec_default_sectors(flash_size, 0);
            &&& s.len() > 0
            &&& s[0].address == 0
            &&& (forall|i: int|
                0 < i < s.len() ==> (#[trigger] s[i]).address == s[i - 1].address + s[i - 1].size)
            &&& s[s.len() - 1].address + s[s.len() - 1].size >= flash_size
        }),
{
    lemma_default_sectors_shape(flash_size, 0);
    let s = spec_default_sectors(flash_size, 0);
    assert forall|i: int| 0 < i < s.len() implies (#[trigger] s[i]).address == s[i - 1].address
        + s[i - 1].size by {
        assert(s[i].address == 4096 * i);
        assert(s[i - 1].address == 4096 * (i - 1));
        assert(4096 * i == 4096 * (i - 1) + 4096) by (nonlinear_arith);
    }
    assert(s[s.len() - 1].address == 4096 * (s.len() - 1));
    assert(4096 * s.len() == 4096 * (s.len() - 1) + 4096) by (nonlinear_arith);
}


/// A well-formed descriptor list: runs start at offset zero, advance
/// strictly, each run's size is positive and divides the gap to the
/// next run (and the last run's gap to the device size).
pub open spec fn descs_wf(descs: Seq<FlashSector>, device_size: u64) -> bool {
    &&& descs.len() > 0
    &&& descs[0].address == 0
    &&& (forall|i: int| 0 <= i < descs.len() ==> (#[trigger] descs[i]).size > 0)
    &&& (forall|i: int|
        0 < i < descs.len() ==> (#[trigger] descs[i]).address > descs[i - 1].address)
    &&& (forall|i: int|
        0 < i < descs.len() ==> ((#[trigger] descs[i]).address - descs[i - 1].address) % (
        descs[i - 1].size as int) == 0)
    &&& descs[descs.len() - 1].address < device_size
    &&& (device_size - descs[descs.len() - 1].address) % (descs[descs.len() - 1].size as int) == 0
}

proof fn lemma_run_shape(size: u64, from: u64, until: u64)
    requires
        size > 0,
        from < until,
        until <= u64::MAX - size,
        (until - from) % (size as int) == 0,
    ensures
        ({
            let s = spec_run_sectors(size, from, until);
            &&& s.len() > 0
            &&& s[0].address == from
            &&& (forall|i: int| 0 <= i < s.len() ==> (#[trigger] s[i]).size == size)
            &&& (forall|j: int|
                0 < j < s.len() ==> (#[trigger] s[j]).address == s[j - 1].address + size)
            &&& s[s.len() - 1].address + size == until
        }),
    decreases until - from,
{
    reveal_with_fuel(spec_run_sectors, 3);
    let s = spec_run_sectors(size, from, until);
    let next = (from + size) as u64;
    if next < until {
        assert((until - next) % (size as int) == 0) by {
            vstd::arithmetic::div_mod::lemma_mod_sub_multiples_vanish(
                until - from,
                size as int,
            );
            assert(until - next == (until - from) - size);
        }
        lemma_run_shape(size, next, until);
        let rest = spec_run_sectors(size, next, until);
        assert(s.len() == rest.len() + 1);
        assert(s[0].address == from);
        assert forall|i: int| 0 <= i < s.len() implies (#[trigger] s[i]).size == size by {
            if i > 0 {
                assert(s[i] == rest[i - 1]);
            }
        }
        assert forall|j: int| 0 < j < s.len() implies (#[trigger] s[j]).address == s[j
            - 1].address + size by {
            if j == 1 {
                assert(s[1] == rest[0]);
                assert(rest[0].address == next);
            } else {
                assert(s[j] == rest[j - 1] && s[j - 1] == rest[j - 2]);
                assert(rest[j - 1].address == rest[j - 2].address + size);
            }
        }
        assert(s[s.len() - 1] == rest[rest.len() - 1]);
    } else {
        assert((until - from) % (size as int) == 0);
        if next > until {
            assert(0 < until - from < size);
            vstd::arithmetic::div_mod::lemma_small_mod((until - from) as nat, size as nat);
            assert(false);
        }
        assert(next == until);
        assert(s =~= seq![SectorInfo { size, address: from }]);
    }
}

proof fn lemma_expand_shape(descs: Seq<FlashSector>, i: int, device_size: u64)
    requires
        descs_wf(descs, device_size),
        device_size <= 0xffffffffu64,
        0 <= i < descs.len(),
    ensures
        ({
            let s = spec_expand_runs(descs, i, device_size);
            &&& s.len() > 0
            &&& s[0].address == descs[i].address
            &&& (forall|j: int|
                0 < j < s.len() ==> (#[trigger] s[j]).address == s[j - 1].address + s[j
                    - 1].size)
            &&& s[s.len() - 1].address + s[s.len() - 1].size == device_size
        }),
    decreases descs.len() - i,
{
    reveal_with_fuel(spec_expand_runs, 3);
    let s = spec_expand_runs(descs, i, device_size);
    let until = if i + 1 < descs.len() {
        descs[i + 1].address as u64
    } else {
        device_size as u64
    };
    assert(descs[i].address < until) by {
        if i + 1 < descs.len() {
            assert(descs[i + 1].address > descs[i].address);
        } else {
            assert(descs[descs.len() - 1].address < device_size);
        }
    }
    assert((until - descs[i].address as u64) % (descs[i].size as int) == 0);
    lemma_run_shape(descs[i].size as u64, descs[i].address as u64, until);
    let run = spec_run_sectors(descs[i].size as u64, descs[i].address as u64, until);
    if i + 1 < descs.len() {
        lemma_expand_shape(descs, i + 1, device_size);
        let rest = spec_expand_runs(descs, i + 1, device_size);
        assert(rest[0].address == descs[i + 1].address);
        assert forall|j: int| 0 < j < s.len() implies (#[trigger] s[j]).address == s[j
            - 1].address + s[j - 1].size by {
            if j < run.len() {
                assert(s[j] == run[j] && s[j - 1] == run[j - 1]);
                assert(run[j].address == run[j - 1].address + descs[i].size);
            } else if j == run.len() {
                assert(s[j] == rest[0]);
                assert(s[j - 1] == run[run.len() - 1]);
                assert(run[run.len() - 1].address + descs[i].size == until);
            } else {
                assert(s[j] == rest[j - run.len()] && s[j - 1] == rest[j - run.len() - 1]);
            }
        }
    } else {
        assert(s =~= run);
    }
}

/// Every expanded descriptor list is sound: the sectors start at offset
/// zero, each begins where the one before it ends, and together they
/// reach exactly the device size.
pub proof fn lemma_expanded_sectors_contiguous(descs: Seq<FlashSector>, device_size: u64)
    requires
        descs_wf(descs, device_size),
        device_size <= 0xffffffffu64,
    ensures
        ({
            let s = spec_expand_runs(descs, 0, device_size);
            &&& s.len() > 0
            &&& s[0].address == 0
            &&& (forall|j: int|
                0 < j < s.len() ==> (#[trigger] s[j]).address == s[j - 1].address + s[j
                    - 1].size)
            &&& s[s.len() - 1].address + s[s.len() - 1].size == device_size
        }),
{
    lemma_expand_shape(descs, 0, device_size);
}

} // verus!
