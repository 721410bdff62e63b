//! RTT engine logic: scan region selection, control-block discovery in
//! a RAM snapshot, event batching that preserves per-channel order, and
//! the failure budget of the polling loop.

use vstd::prelude::*;
use crate::bytestr::{find_at, find_pattern, lit_bytes};

verus! {

use vstd::string::StringSliceAdditionalSpecFns;

/// One RTT channel, as the control block lists it.
#[derive(Debug, Clone)]
pub struct RttChannel {
    pub index: usize,
    pub name: String,
    pub buffer_size: usize,
}

/// The channel layout found at attach.
#[derive(Debug, Clone)]
pub struct RttConfig {
    pub up_channels: Vec<RttChannel>,
    pub down_channels: Vec<RttChannel>,
    pub control_block_address: Option<u64>,
}

/// How to start RTT: the scan mode string (`auto`, `exact` or `range`),
/// its parameters, the poll cadence, and whether to halt while reading.
#[derive(Debug, Clone)]
pub struct RttStartOptions {
    pub scan_mode: String,
    pub address: Option<u64>,
    pub range_start: Option<u64>,
    pub range_size: Option<u64>,
    pub poll_interval: Option<u64>,
    pub halt_on_read: Option<bool>,
}

/// Bytes read off one up-channel, stamped with the read time.
#[derive(Debug, Clone)]
pub struct RttDataEvent {
    pub channel: usize,
    pub data: Vec<u8>,
    pub timestamp: u64,
}

pub ghost struct RttDataEventS {
    pub channel: int,
    pub data: Seq<u8>,
    pub timestamp: u64,
}

impl View for RttDataEvent {
    type V = RttDataEventS;

    open spec fn view(&self) -> RttDataEventS {
        RttDataEventS { channel: self.channel as int, data: self.data@, timestamp: self.timestamp }
    }
}

/// Whether the engine runs, and the error that stopped it if one did.
#[derive(Debug, Clone)]
pub struct RttStatusEvent {
    pub running: bool,
    pub error: Option<String>,
}

/// Where the control block is sought.
#[derive(Debug, Clone, Copy, PartialEq, Eq, Structural)]
pub enum ScanRegionChoice {
    Exact(u64),
    Range(u64, u64),
    Ram,
}

/// The scan region an options record selects: `exact` takes the given
/// address (`0x2000_0000` when absent), `range` a start and size with
/// the same default start and a 64 KiB default size, anything else
/// scans the probe library's default RAM region.
pub fn scan_region_for(options: &RttStartOptions) -> (r: ScanRegionChoice)
    ensures
        ({
            let mode = vstd::utf8::encode_utf8(options.scan_mode@);
            if mode == lit_bytes("exact") {
                r == ScanRegionChoice::Exact(
                    match options.address {
                        Option::Some(a) => a,
                        Option::None => 0x20000000u64,
                    },
                )
            } else if mode == lit_bytes("range") {
                r == ScanRegionChoice::Range(
                    match options.range_start {
                        Option::Some(a) => a,
                        Option::None => 0x20000000u64,
                    },
                    match options.range_size {
                        Option::Some(a) => a,
                        Option::None => 0x10000u64,
                    },
                )
            } else {
                r == ScanRegionChoice::Ram
            }
        }),
{
    proof {
        reveal_strlit("exact");
        reveal_strlit("range");
        assert("exact".is_ascii() && "range".is_ascii());
    }
    if crate::bytestr::bytes_eq_str(options.scan_mode.as_str().as_bytes(), "exact") {
        ScanRegionChoice::Exact(
            match options.address {
                Some(a) => a,
                None => 0x20000000,
            },
        )
    } else if crate::bytestr::bytes_eq_str(options.scan_mode.as_str().as_bytes(), "range") {
        ScanRegionChoice::Range(
            match options.range_start {
                Some(a) => a,
                None => 0x20000000,
            },
            match options.range_size {
                Some(a) => a,
                None => 0x10000,
            },
        )
    } else {
        ScanRegionChoice::Ram
    }
}

/// The poll cadence: the caller's interval or the 10 ms default.
pub fn poll_interval_ms(options: &RttStartOptions) -> (r: u64)
    ensures
        r == (match options.poll_interval {
            Option::Some(v) => v,
            Option::None => 10u64,
        }),
{
    match options.poll_interval {
        Some(v) => v,
        None => 10,
    }
}

/// Whether the core is halted around reads; off unless asked for, as
/// halting per poll is prohibitively slow on some hosts.
pub fn halt_on_read(options: &RttStartOptions) -> (r: bool)
    ensures
        r == (match options.halt_on_read {
            Option::Some(v) => v,
            Option::None => false,
        }),
{
    match options.halt_on_read {
        Some(v) => v,
        None => false,
    }
}

/// Where the control block marker `SEGGER RTT` first occurs in a RAM
/// snapshot, if anywhere.
pub fn rtt_marker_position(buffer: &[u8]) -> (r: Option<usize>)
    ensures
        match r {
            Some(i) => find_at(buffer@, lit_bytes("SEGGER RTT"), 0) == Some(i as int),
            None => find_at(buffer@, lit_bytes("SEGGER RTT"), 0) is None,
        },
{
    proof {
        broadcast use vstd::string::is_ascii_spec_bytes;

        reveal_strlit("SEGGER RTT");
        assert("SEGGER RTT".is_ascii());
        assert(lit_bytes("SEGGER RTT").len() == 10);
        assert("SEGGER RTT".spec_bytes() =~= lit_bytes("SEGGER RTT"));
    }
    find_pattern(buffer, "SEGGER RTT".as_bytes(), 0)
}

/// When a batch goes out: ten pending events, or fifty milliseconds
/// since the last flush.
pub fn should_flush_rtt(pending: usize, elapsed_ms: u64) -> (r: bool)
    ensures
        r == (pending >= 10 || elapsed_ms >= 50),
{
    pending >= 10 || elapsed_ms >= 50
}

/// The event batcher: events wait here between flushes and leave in
/// arrival order, so coalescing never reorders a channel's data.
pub struct RttBatcher {
    pending: Vec<RttDataEvent>,
}

impl RttBatcher {
    pub closed spec fn queued(&self) -> Seq<RttDataEventS> {
        self.pending@.map_values(|e: RttDataEvent| e@)
    }

    pub fn new() -> (r: Self)
        ensures
            r.queued() == Seq::<RttDataEventS>::empty(),
    {
        let r = RttBatcher { pending: Vec::new() };
        proof {
            assert(r.queued() =~= Seq::<RttDataEventS>::empty());
        }
        r
    }

    pub fn len(&self) -> (r: usize)
        ensures
            r == self.queued().len(),
    {
        self.pending.len()
    }

    /// Queues one event behind everything already waiting.
    pub fn push(&mut self, ev: RttDataEvent)
        ensures
            final(self).queued() == old(self).queued().push(ev@),
    {
        let ghost evv = ev@;
        self.pending.push(ev);
        proof {
            assert(self.queued() =~= old(self).queued().push(evv));
        }
    }

    /// Hands every waiting event out, oldest first, exactly as they
    /// were queued, leaving the batcher empty.
    pub fn drain(&mut self) -> (r: Vec<RttDataEvent>)
        ensures
            r@.map_values(|e: RttDataEvent| e@) == old(self).queued(),
            final(self).queued() == Seq::<RttDataEventS>::empty(),
    {
        let mut out: Vec<RttDataEvent> = Vec::new();
        core::mem::swap(&mut out, &mut self.pending);
        proof {
            assert(self.queued() =~= Seq::<RttDataEventS>::empty());
        }
        out
    }
}

/// Batching preserves target-emit order: queueing events and draining
/// them yields the original sequence, unchanged and unreordered.
pub proof fn lemma_batch_preserves_order(
    queued_before: Seq<RttDataEventS>,
    ev: RttDataEventS,
    i: int,
    j: int,
)
    requires
        0 <= i <= j < queued_before.len(),
    ensures
        queued_before.push(ev)[i] == queued_before[i],
        queued_before.push(ev)[j] == queued_before[j],
{
}

/// One more consecutive failure to obtain the core, and whether the
/// budget of sixty is exhausted: at the sixtieth the engine gives up.
pub fn note_core_failure(consecutive: u32) -> (r: (u32, bool))
    ensures
        r.0 as int == (if consecutive < u32::MAX {
            consecutive + 1
        } else {
            u32::MAX as int
        }),
        r.1 == (r.0 >= 60),
{
    let next = if consecutive < u32::MAX {
        consecutive + 1
    } else {
        u32::MAX
    };
    (next, next >= 60)
}

} // verus!
