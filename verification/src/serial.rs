//! The terminal data plane's rules: connection configuration and its
//! defaults, the mapping of caller-level settings to port parameters,
//! text preparation for writes, and receive batching thresholds.

use vstd::prelude::*;
use crate::bytestr::{bytes_eq_str, lit_bytes};
use crate::session::SerialStats;

verus! {

use vstd::string::StringExecFns;
use vstd::string::StringSliceAdditionalSpecFns;
use vstd::utf8::encode_utf8;

/// Where the terminal connects: a local serial port with its line
/// settings, or a TCP bridge speaking serial.
#[derive(Debug, Clone)]
pub enum SerialConfig {
    Local {
        port: String,
        baud_rate: u32,
        data_bits: u8,
        stop_bits: u8,
        parity: String,
        flow_control: String,
    },
    Tcp { host: String, port: u16, reconnect: bool },
}

/// A port found on the host.
#[derive(Debug, Clone)]
pub struct SerialPortInfo {
    pub name: String,
    pub port_type: String,
    pub description: Option<String>,
    pub manufacturer: Option<String>,
    pub serial_number: Option<String>,
}

/// The terminal state shown to the user.
#[derive(Debug, Clone)]
pub struct SerialStatus {
    pub connected: bool,
    pub running: bool,
    pub name: Option<String>,
    pub stats: SerialStats,
}

pub fn default_data_bits() -> (r: u8)
    ensures
        r == 8,
{
    8
}

pub fn default_stop_bits() -> (r: u8)
    ensures
        r == 1,
{
    1
}

pub fn default_parity() -> (r: &'static str)
    ensures
        r@ == "none"@,
{
    "none"
}

pub fn default_flow_control() -> (r: &'static str)
    ensures
        r@ == "none"@,
{
    "none"
}

/// The port data-bit settings the plane supports.
#[derive(Debug, Clone, Copy, PartialEq, Eq, Structural)]
pub enum DataBitsChoice {
    Five,
    Six,
    Seven,
    Eight,
}

/// 5, 6 and 7 map to themselves; everything else runs at eight bits.
pub fn map_data_bits(bits: u8) -> (r: DataBitsChoice)
    ensures
        bits == 5 ==> r == DataBitsChoice::Five,
        bits == 6 ==> r == DataBitsChoice::Six,
        bits == 7 ==> r == DataBitsChoice::Seven,
        !(bits == 5 || bits == 6 || bits == 7) ==> r == DataBitsChoice::Eight,
{
    if bits == 5 {
        DataBitsChoice::Five
    } else if bits == 6 {
        DataBitsChoice::Six
    } else if bits == 7 {
        DataBitsChoice::Seven
    } else {
        DataBitsChoice::Eight
    }
}

#[derive(Debug, Clone, Copy, PartialEq, Eq, Structural)]
pub enum StopBitsChoice {
    One,
    Two,
}

/// Two maps to two stop bits; everything else to one.
pub fn map_stop_bits(bits: u8) -> (r: StopBitsChoice)
    ensures
        bits == 2 ==> r == StopBitsChoice::Two,
        bits != 2 ==> r == StopBitsChoice::One,
{
    if bits == 2 {
        StopBitsChoice::Two
    } else {
        StopBitsChoice::One
    }
}

#[derive(Debug, Clone, Copy, PartialEq, Eq, Structural)]
pub enum ParityChoice {
    Off,
    Even,
    Odd,
}

/// `even` and `odd`, in any case, select their parity; everything else
/// turns parity off.
pub fn map_parity(parity: &str) -> (r: ParityChoice)
    ensures
        ({
            let low = crate::bytestr::lower_seq(parity.spec_bytes());
            if low == lit_bytes("even") {
                r == ParityChoice::Even
            } else if low == lit_bytes("odd") {
                r == ParityChoice::Odd
            } else {
                r == ParityChoice::Off
            }
        }),
{
    proof {
        reveal_strlit("even");
        reveal_strlit("odd");
        assert("even".is_ascii() && "odd".is_ascii());
    }
    let low = crate::bytestr::lower_vec(parity.as_bytes());
    if bytes_eq_str(low.as_slice(), "even") {
        ParityChoice::Even
    } else if bytes_eq_str(low.as_slice(), "odd") {
        ParityChoice::Odd
    } else {
        ParityChoice::Off
    }
}

#[derive(Debug, Clone, Copy, PartialEq, Eq, Structural)]
pub enum FlowControlChoice {
    Off,
    Hardware,
    Software,
}

/// `hardware`/`hw` and `software`/`sw`, in any case, select their flow
/// control; everything else runs without.
pub fn map_flow_control(flow: &str) -> (r: FlowControlChoice)
    ensures
        ({
            let low = crate::bytestr::lower_seq(flow.spec_bytes());
            if low == lit_bytes("hardware") || low == lit_bytes("hw") {
                r == FlowControlChoice::Hardware
            } else if low == lit_bytes("software") || low == lit_bytes("sw") {
                r == FlowControlChoice::Software
            } else {
                r == FlowControlChoice::Off
            }
        }),
{
    proof {
        reveal_strlit("hardware");
        reveal_strlit("hw");
        reveal_strlit("software");
        reveal_strlit("sw");
        assert("hardware".is_ascii() && "hw".is_ascii());
        assert("software".is_ascii() && "sw".is_ascii());
        assert(lit_bytes("hardware").len() == 8);
        assert(lit_bytes("hw").len() == 2);
        assert(lit_bytes("software").len() == 8);
        assert(lit_bytes("sw").len() == 2);
        assert(lit_bytes("hardware")[0] == 0x68);
        assert(lit_bytes("software")[0] == 0x73);
        assert(lit_bytes("hw")[0] == 0x68);
        assert(lit_bytes("sw")[0] == 0x73);
    }
    let low = crate::bytestr::lower_vec(flow.as_bytes());
    if bytes_eq_str(low.as_slice(), "hardware") || bytes_eq_str(low.as_slice(), "hw") {
        FlowControlChoice::Hardware
    } else if bytes_eq_str(low.as_slice(), "software") || bytes_eq_str(low.as_slice(), "sw") {
        FlowControlChoice::Software
    } else {
        FlowControlChoice::Off
    }
}

/// The text with the chosen line ending appended: `lf`, `crlf` or `cr`
/// add theirs; anything else leaves the text alone.
pub fn apply_line_ending(text: String, line_ending: &str) -> (r: String)
    ensures
        ({
            let e = encode_utf8(line_ending@);
            if e == lit_bytes("lf") {
                r@ == text@ + "\n"@
            } else if e == lit_bytes("crlf") {
                r@ == text@ + "\r\n"@
            } else if e == lit_bytes("cr") {
                r@ == text@ + "\r"@
            } else {
                r@ == text@
            }
        }),
{
    proof {
        reveal_strlit("lf");
        reveal_strlit("crlf");
        reveal_strlit("cr");
        assert("lf".is_ascii() && "crlf".is_ascii() && "cr".is_ascii());
    }
    let mut out = text;
    if bytes_eq_str(line_ending.as_bytes(), "lf") {
        out.append("\n");
    } else if bytes_eq_str(line_ending.as_bytes(), "crlf") {
        out.append("\r\n");
    } else if bytes_eq_str(line_ending.as_bytes(), "cr") {
        out.append("\r");
    }
    out
}

/// Seven-bit bytes pass; each multi-byte character becomes one `?`
/// (its leading byte is replaced, its continuation bytes fall away).
pub open spec fn ascii_fold(b: Seq<u8>) -> Seq<u8>
    decreases b.len(),
{
    if b.len() == 0 {
        Seq::empty()
    } else if b[0] < 0x80 {
        seq![b[0]] + ascii_fold(b.drop_first())
    } else if b[0] < 0xc0 {
        ascii_fold(b.drop_first())
    } else {
        seq![0x3fu8] + ascii_fold(b.drop_first())
    }
}

/// The bytes written for a text under an encoding name: `ascii` folds
/// every non-ASCII character to `?`; `utf-8` and anything else send the
/// UTF-8 bytes as they are.
pub fn encode_serial_text(text: &str, encoding: &str) -> (r: Vec<u8>)
    ensures
        ({
            let enc = crate::bytestr::lower_seq(encoding.spec_bytes());
            if enc == lit_bytes("ascii") {
                r@ == ascii_fold(text.spec_bytes())
            } else {
                r@ == text.spec_bytes()
            }
        }),
{
    proof {
        reveal_strlit("ascii");
        assert("ascii".is_ascii());
    }
    let low = crate::bytestr::lower_vec(encoding.as_bytes());
    let b = text.as_bytes();
    if bytes_eq_str(low.as_slice(), "ascii") {
        let mut out: Vec<u8> = Vec::new();
        proof {
            assert(b@.subrange(0, b@.len() as int) =~= b@);
            assert(out@ + ascii_fold(b@) =~= ascii_fold(b@));
        }
        let mut i: usize = 0;
        while i < b.len()
            invariant
                i <= b@.len(),
                ascii_fold(b@) == out@ + ascii_fold(b@.subrange(i as int, b@.len() as int)),
            decreases b@.len() - i,
        {
            let ghost rest = b@.subrange(i as int, b@.len() as int);
            proof {
                assert(rest[0] == b@[i as int]);
                assert(rest.drop_first() =~= b@.subrange(i + 1 as int, b@.len() as int));
            }
            if b[i] < 0x80 {
                out.push(b[i]);
                proof {
                    assert(out@ + ascii_fold(b@.subrange(i + 1 as int, b@.len() as int))
                        =~= out@.drop_last() + (seq![b@[i as int]] + ascii_fold(
                        b@.subrange(i + 1 as int, b@.len() as int),
                    )));
                }
            } else if b[i] < 0xc0 {
            } else {
                out.push(0x3f);
                proof {
                    assert(out@ + ascii_fold(b@.subrange(i + 1 as int, b@.len() as int))
                        =~= out@.drop_last() + (seq![0x3fu8] + ascii_fold(
                        b@.subrange(i + 1 as int, b@.len() as int),
                    )));
                }
            }
            i = i + 1;
        }
        proof {
            assert(b@.subrange(b@.len() as int, b@.len() as int) =~= Seq::<u8>::empty());
            assert(out@ + Seq::<u8>::empty() =~= out@);
            assert(b@.subrange(0, b@.len() as int) =~= b@);
        }
        out
    } else {
        vstd::slice::slice_to_vec(b)
    }
}

/// When a receive batch goes out: four kibibytes pending, or ten
/// milliseconds since the last flush.
pub fn should_flush_serial(pending_bytes: usize, elapsed_ms: u64) -> (r: bool)
    ensures
        r == (pending_bytes >= 4096 || elapsed_ms >= 10),
{
    pending_bytes >= 4096 || elapsed_ms >= 10
}

} // verus!
