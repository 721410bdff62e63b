//! Session-level state: the two target slots (Main and RTT), the
//! connection facts shown to the user, device settings, and the serial
//! data-source abstraction's bookkeeping types.

use vstd::prelude::*;

verus! {

/// The wire protocol the probe speaks to the target.
#[derive(Debug, Clone, Copy, PartialEq, Eq, Structural)]
pub enum InterfaceType {
    Swd,
    Jtag,
}

/// Whether attach holds the target in reset.
#[derive(Debug, Clone, Copy, PartialEq, Eq, Structural)]
pub enum ConnectMode {
    Normal,
    UnderReset,
}

/// How the target is reset after programming.
#[derive(Debug, Clone, Copy, PartialEq, Eq, Structural)]
pub enum ResetMode {
    Software,
    Hardware,
}

/// Connection facts of one open session, shown read-only.
#[derive(Debug, Clone)]
pub struct ConnectionInfo {
    pub probe_name: String,
    pub probe_serial: Option<String>,
    pub target_name: String,
    pub core_type: String,
    pub chip_id: Option<u32>,
    pub target_idcode: Option<u32>,
}

/// Device settings; the probe clock is in hertz, the target voltage in
/// millivolts.
#[derive(Debug, Clone)]
pub struct DeviceSettings {
    pub interface_type: InterfaceType,
    pub clock_speed: u32,
    pub connect_mode: ConnectMode,
    pub reset_mode: ResetMode,
    pub voltage_mv: u32,
}

impl Default for DeviceSettings {
    /// SWD at 1 MHz, normal attach, software reset, 3.3 V.
    fn default() -> (r: Self)
        ensures
            r.interface_type == InterfaceType::Swd,
            r.clock_speed == 1000000,
            r.connect_mode == ConnectMode::Normal,
            r.reset_mode == ResetMode::Software,
            r.voltage_mv == 3300,
    {
        DeviceSettings {
            interface_type: InterfaceType::Swd,
            clock_speed: 1000000,
            connect_mode: ConnectMode::Normal,
            reset_mode: ResetMode::Software,
            voltage_mv: 3300,
        }
    }
}

/// One live session in a slot, stamped with the generation that created
/// it. Events about a session carry its generation, so an event can
/// never be read as speaking about a session that took the slot later.
#[derive(Debug, Clone)]
pub struct SessionHandle {
    pub info: ConnectionInfo,
    pub generation: u64,
}

/// A single-owner holder for a live target session (Main or RTT).
/// Replacing the occupant hands the old session back to the caller for
/// release; the slot never holds two sessions.
#[derive(Debug)]
pub struct SessionSlot {
    current: Option<SessionHandle>,
    next_generation: u64,
}

impl SessionSlot {
    /// Generations already handed out stay below the next one.
    pub open spec fn wf(&self) -> bool {
        match self.occupant() {
            Option::Some(h) => h.generation < self.next_gen(),
            Option::None => true,
        }
    }

    pub closed spec fn occupant(&self) -> Option<SessionHandle> {
        self.current
    }

    pub closed spec fn next_gen(&self) -> u64 {
        self.next_generation
    }

    /// An empty slot.
    pub fn new() -> (r: Self)
        ensures
            r.wf(),
            r.occupant() is None,
            r.next_gen() == 0,
    {
        SessionSlot { current: None, next_generation: 0 }
    }

    /// Whether a session occupies the slot.
    pub fn is_occupied(&self) -> (r: bool)
        ensures
            r == (self.occupant() is Some),
    {
        self.current.is_some()
    }

    /// The occupant's connection facts, if any.
    pub fn info(&self) -> (r: Option<&ConnectionInfo>)
        ensures
            match self.occupant() {
                Option::Some(h) => r is Some && *r->0 == h.info,
                Option::None => r is None,
            },
    {
        match &self.current {
            Some(h) => Some(&h.info),
            None => None,
        }
    }

    /// Puts a new session into the slot and hands back the one it
    /// replaces, which the caller must release before opening hardware
    /// anew. The newcomer's generation is strictly above every earlier
    /// occupant's.
    pub fn replace(&mut self, info: ConnectionInfo) -> (r: Option<SessionHandle>)
        requires
            old(self).wf(),
            old(self).next_gen() < u64::MAX,
        ensures
            final(self).wf(),
            r == old(self).occupant(),
            final(self).occupant() is Some,
            final(self).occupant()->0.info == info,
            final(self).occupant()->0.generation == old(self).next_gen(),
            final(self).next_gen() == old(self).next_gen() + 1,
            match old(self).occupant() {
                Option::Some(h) => h.generation < final(self).occupant()->0.generation,
                Option::None => true,
            },
    {
        let generation = self.next_generation;
        self.next_generation = self.next_generation + 1;
        let old_handle = self.current.take();
        self.current = Some(SessionHandle { info, generation });
        old_handle
    }

    /// Empties the slot, handing the occupant back for release.
    pub fn clear(&mut self) -> (r: Option<SessionHandle>)
        requires
            old(self).wf(),
        ensures
            final(self).wf(),
            r == old(self).occupant(),
            final(self).occupant() is None,
            final(self).next_gen() == old(self).next_gen(),
    {
        self.current.take()
    }
}

/// Replacing a slot isolates the old session: an event stamped with the
/// new occupant's generation can never carry the generation of the
/// session that was replaced, so no event emitted for the new session
/// is attributable to the old one.
pub proof fn lemma_slot_replacement_isolates(
    before: SessionSlot,
    after: SessionSlot,
    released: SessionHandle,
)
    requires
        before.wf(),
        before.occupant() == Some(released),
        after.occupant() is Some,
        after.occupant()->0.generation >= before.next_gen(),
    ensures
        after.occupant()->0.generation != released.generation,
{
}

/// Lifetime byte counters of a serial connection.
#[derive(Debug, Clone, Copy, PartialEq, Eq, Structural)]
pub struct SerialStats {
    pub bytes_received: u64,
    pub bytes_sent: u64,
}

impl Default for SerialStats {
    fn default() -> (r: Self)
        ensures
            r.bytes_received == 0,
            r.bytes_sent == 0,
    {
        SerialStats { bytes_received: 0, bytes_sent: 0 }
    }
}

impl SerialStats {
    /// Accounts bytes written out; the counter pins at its maximum
    /// rather than wrap.
    pub fn record_sent(&mut self, n: u64)
        ensures
            final(self).bytes_sent as int == (if old(self).bytes_sent + n > u64::MAX {
                u64::MAX as int
            } else {
                old(self).bytes_sent + n
            }),
            final(self).bytes_received == old(self).bytes_received,
    {
        self.bytes_sent = if self.bytes_sent > u64::MAX - n {
            u64::MAX
        } else {
            self.bytes_sent + n
        };
    }

    /// Accounts bytes received; the counter pins at its maximum rather
    /// than wrap.
    pub fn record_received(&mut self, n: u64)
        ensures
            final(self).bytes_received as int == (if old(self).bytes_received + n > u64::MAX {
                u64::MAX as int
            } else {
                old(self).bytes_received + n
            }),
            final(self).bytes_sent == old(self).bytes_sent,
    {
        self.bytes_received = if self.bytes_received > u64::MAX - n {
            u64::MAX
        } else {
            self.bytes_received + n
        };
    }
}

/// A byte channel the terminal plane reads and writes: a local serial
/// port or a TCP bridge. Implementations live with the I/O code that
/// owns the handles.
pub trait DataSource {
    fn connect(&mut self) -> Result<(), String>;

    fn disconnect(&mut self) -> Result<(), String>;

    fn write(&mut self, data: &[u8]) -> Result<usize, String>;

    fn read(&mut self, buf: &mut [u8]) -> Result<usize, String>;

    fn is_connected(&self) -> bool;

    fn name(&self) -> String;

    fn stats(&self) -> SerialStats;

    fn reset_stats(&mut self);
}

/// The RTT engine's slot-side state: whether the poll loop runs, its
/// cadence, and the cached control block address.
#[derive(Debug, Clone, Copy, PartialEq, Eq, Structural)]
pub struct RttState {
    pub running: bool,
    pub poll_interval_ms: u64,
    pub control_block_address: Option<u64>,
}

impl Default for RttState {
    /// Stopped, at the 10 ms default cadence, no control block known.
    fn default() -> (r: Self)
        ensures
            !r.running,
            r.poll_interval_ms == 10,
            r.control_block_address is None,
    {
        RttState { running: false, poll_interval_ms: 10, control_block_address: None }
    }
}

impl RttState {
    pub fn is_running(&self) -> (r: bool)
        ensures
            r == self.running,
    {
        self.running
    }

    pub fn set_running(&mut self, running: bool)
        ensures
            *final(self) == (RttState { running, ..*old(self) }),
    {
        self.running = running;
    }

    /// Back to the stopped default, forgetting the control block.
    pub fn reset(&mut self)
        ensures
            !final(self).running,
            final(self).control_block_address is None,
            final(self).poll_interval_ms == old(self).poll_interval_ms,
    {
        self.running = false;
        self.control_block_address = None;
    }
}

/// The serial engine's state: whether its poll loop runs and at what
/// cadence; the data source itself lives with the I/O code.
#[derive(Debug, Clone, Copy, PartialEq, Eq, Structural)]
pub struct SerialState {
    pub running: bool,
    pub poll_interval_ms: u64,
}

impl Default for SerialState {
    fn default() -> (r: Self)
        ensures
            !r.running,
            r.poll_interval_ms == 10,
    {
        SerialState { running: false, poll_interval_ms: 10 }
    }
}

impl SerialState {
    pub fn is_running(&self) -> (r: bool)
        ensures
            r == self.running,
    {
        self.running
    }

    pub fn set_running(&mut self, running: bool)
        ensures
            *final(self) == (SerialState { running, ..*old(self) }),
    {
        self.running = running;
    }

    pub fn reset(&mut self)
        ensures
            !final(self).running,
            final(self).poll_interval_ms == old(self).poll_interval_ms,
    {
        self.running = false;
    }
}

} // verus!
