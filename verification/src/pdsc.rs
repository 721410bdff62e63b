//! PDSC device extraction. A PDSC document arranges devices as
//! `devices → family → subFamily → device`, and `<processor>`, `<memory>`
//! and `<algorithm>` may appear at any level; a device inherits the most
//! specific one. The parser is a fold over the XML events with one slot
//! per level for each of the three, cleared when its level closes.

use vstd::prelude::*;
use crate::bytestr::{
    bytes_eq_str, clone_bytes, contains_seq, lit_bytes, lossy_of, lower_seq, lower_vec,
    parse_hex_or_dec_bytes, spec_parse_hex_or_dec, upper_contains, upper_seq, upper_vec,
    bytes_to_string,
};
use crate::error::AppError;
use crate::progress::{PackScanProgress, PackScanProgressS, ScanPhase};
use crate::xml::{
    first_attr, get_first_attr, get_last_attr, last_attr, next_event, spec_next_event, ScanStep,
    ScanStepS, XmlAttr, XmlAttrS, XmlEvent, XmlEventS, XmlTag, XmlTagS,
};

verus! {

use vstd::string::StringSliceAdditionalSpecFns;

/// Core, FPU and MPU of a device as the PDSC states them.
#[derive(Debug, Clone)]
pub struct ProcessorInfo {
    pub core: String,
    pub fpu: bool,
    pub mpu: bool,
}

pub ghost struct ProcessorInfoS {
    pub core: Seq<char>,
    pub fpu: bool,
    pub mpu: bool,
}

impl View for ProcessorInfo {
    type V = ProcessorInfoS;

    open spec fn view(&self) -> ProcessorInfoS {
        ProcessorInfoS { core: self.core@, fpu: self.fpu, mpu: self.mpu }
    }
}

/// The memory map a device ends up with: one RAM and one flash window.
#[derive(Debug, Clone, Copy, PartialEq, Eq, Structural)]
pub struct MemoryInfo {
    pub ram_start: u64,
    pub ram_size: u64,
    pub flash_start: u64,
    pub flash_size: u64,
}

/// A device extracted from a PDSC, with inherited processor, memory and
/// flash-algorithm reference. A `flash_size` of zero means no flash
/// programming is possible for the variant.
#[derive(Debug, Clone)]
pub struct DeviceDefinition {
    pub name: String,
    pub processor: ProcessorInfo,
    pub memory: MemoryInfo,
    pub flash_algorithm: Option<String>,
}

pub ghost struct DeviceDefinitionS {
    pub name: Seq<char>,
    pub processor: ProcessorInfoS,
    pub memory: MemoryInfo,
    pub flash_algorithm: Option<Seq<char>>,
}

impl View for DeviceDefinition {
    type V = DeviceDefinitionS;

    open spec fn view(&self) -> DeviceDefinitionS {
        DeviceDefinitionS {
            name: self.name@,
            processor: self.processor@,
            memory: self.memory,
            flash_algorithm: match self.flash_algorithm {
                Option::Some(ref a) => Some(a@),
                Option::None => None,
            },
        }
    }
}

// ---------------------------------------------------------------------
// Byte-level device model used while folding the document.
// ---------------------------------------------------------------------

struct ProcRaw {
    core: Vec<u8>,
    fpu: bool,
    mpu: bool,
}

pub ghost struct ProcS {
    pub core: Seq<u8>,
    pub fpu: bool,
    pub mpu: bool,
}

impl View for ProcRaw {
    type V = ProcS;

    closed spec fn view(&self) -> ProcS {
        ProcS { core: self.core@, fpu: self.fpu, mpu: self.mpu }
    }
}

struct DeviceRaw {
    name: Vec<u8>,
    proc: ProcRaw,
    memory: MemoryInfo,
    algo: Option<Vec<u8>>,
}

pub ghost struct DeviceS {
    pub name: Seq<u8>,
    pub proc: ProcS,
    pub memory: MemoryInfo,
    pub algo: Option<Seq<u8>>,
}

impl View for DeviceRaw {
    type V = DeviceS;

    closed spec fn view(&self) -> DeviceS {
        DeviceS {
            name: self.name@,
            proc: self.proc@,
            memory: self.memory,
            algo: match self.algo {
                Option::Some(ref a) => Some(a@),
                Option::None => None,
            },
        }
    }
}

struct ProgRaw {
    phase: ScanPhase,
    item: Vec<u8>,
    current: usize,
    total: usize,
}

pub ghost struct ProgS {
    pub phase: ScanPhase,
    pub item: Seq<u8>,
    pub current: int,
    pub total: int,
}

impl View for ProgRaw {
    type V = ProgS;

    closed spec fn view(&self) -> ProgS {
        ProgS {
            phase: self.phase,
            item: self.item@,
            current: self.current as int,
            total: self.total as int,
        }
    }
}

/// The fold's whole state: which levels are open, the inheritance slots
/// of each level, the device being built, and what has been emitted.
pub ghost struct PdscStateS {
    pub in_devices: bool,
    pub in_family: bool,
    pub in_subfamily: bool,
    pub in_device: bool,
    pub family_proc: Option<ProcS>,
    pub family_mem: Option<MemoryInfo>,
    pub family_algo: Option<Seq<u8>>,
    pub sub_proc: Option<ProcS>,
    pub sub_mem: Option<MemoryInfo>,
    pub sub_algo: Option<Seq<u8>>,
    pub cur_dev: Option<DeviceS>,
    pub cur_proc: Option<ProcS>,
    pub devices: Seq<DeviceS>,
    pub progress: Seq<ProgS>,
}

struct PdscParser {
    in_devices: bool,
    in_family: bool,
    in_subfamily: bool,
    in_device: bool,
    family_proc: Option<ProcRaw>,
    family_mem: Option<MemoryInfo>,
    family_algo: Option<Vec<u8>>,
    sub_proc: Option<ProcRaw>,
    sub_mem: Option<MemoryInfo>,
    sub_algo: Option<Vec<u8>>,
    cur_dev: Option<DeviceRaw>,
    cur_proc: Option<ProcRaw>,
    devices: Vec<DeviceRaw>,
    progress: Vec<ProgRaw>,
}

impl View for PdscParser {
    type V = PdscStateS;

    closed spec fn view(&self) -> PdscStateS {
        PdscStateS {
            in_devices: self.in_devices,
            in_family: self.in_family,
            in_subfamily: self.in_subfamily,
            in_device: self.in_device,
            family_proc: match self.family_proc {
                Option::Some(ref p) => Some(p@),
                Option::None => None,
            },
            family_mem: self.family_mem,
            family_algo: match self.family_algo {
                Option::Some(ref a) => Some(a@),
                Option::None => None,
            },
            sub_proc: match self.sub_proc {
                Option::Some(ref p) => Some(p@),
                Option::None => None,
            },
            sub_mem: self.sub_mem,
            sub_algo: match self.sub_algo {
                Option::Some(ref a) => Some(a@),
                Option::None => None,
            },
            cur_dev: match self.cur_dev {
                Option::Some(ref d) => Some(d@),
                Option::None => None,
            },
            cur_proc: match self.cur_proc {
                Option::Some(ref p) => Some(p@),
                Option::None => None,
            },
            devices: self.devices@.map_values(|d: DeviceRaw| d@),
            progress: self.progress@.map_values(|p: ProgRaw| p@),
        }
    }
}

// ---------------------------------------------------------------------
// Attribute readings.
// ---------------------------------------------------------------------

/// How a boolean attribute value is read: `"1"` or `"true"` in any case.
pub open spec fn truthy(v: Seq<u8>) -> bool {
    v == lit_bytes("1") || lower_seq(v) == lit_bytes("true")
}

/// The FPU attribute also accepts `sp_fpu`.
pub open spec fn truthy_fpu(v: Seq<u8>) -> bool {
    truthy(v) || lower_seq(v) == lit_bytes("sp_fpu")
}

pub open spec fn opt_or_empty(v: Option<Seq<u8>>) -> Seq<u8> {
    match v {
        Option::Some(s) => s,
        Option::None => Seq::empty(),
    }
}

/// Numeric attribute value, zero when absent or malformed.
pub open spec fn num_of(v: Option<Seq<u8>>) -> u64 {
    match v {
        Option::Some(s) => match spec_parse_hex_or_dec(s) {
            Option::Some(n) => n,
            Option::None => 0,
        },
        Option::None => 0,
    }
}

/// The processor an event's attributes describe.
pub open spec fn proc_of_attrs(attrs: Seq<XmlAttrS>) -> ProcS {
    ProcS {
        core: opt_or_empty(last_attr(attrs, lit_bytes("Dcore"))),
        fpu: match last_attr(attrs, lit_bytes("Dfpu")) {
            Option::Some(v) => truthy_fpu(v),
            Option::None => false,
        },
        mpu: match last_attr(attrs, lit_bytes("Dmpu")) {
            Option::Some(v) => truthy(v),
            Option::None => false,
        },
    }
}

/// Whether an upper-cased memory id names flash.
pub open spec fn is_flash_id(up: Seq<u8>) -> bool {
    contains_seq(up, lit_bytes("IROM")) || contains_seq(up, lit_bytes("FLASH")) || contains_seq(
        up,
        lit_bytes("ROM"),
    )
}

/// Whether an upper-cased memory id names RAM.
pub open spec fn is_ram_id(up: Seq<u8>) -> bool {
    contains_seq(up, lit_bytes("IRAM")) || contains_seq(up, lit_bytes("RAM")) || contains_seq(
        up,
        lit_bytes("SRAM"),
    )
}

/// One `<memory>` region folded into a memory map. A flash region wins
/// when it is the first, marked default, or larger; a RAM region wins
/// when it is the first, marked default, or moves the map from a
/// tightly-coupled window onto main SRAM at `0x2000_0000` or above.
pub open spec fn mem_apply(m: MemoryInfo, up: Seq<u8>, start: u64, size: u64, dflt: bool)
    -> MemoryInfo {
    if is_flash_id(up) {
        if m.flash_size == 0 || dflt || size > m.flash_size {
            MemoryInfo { flash_start: start, flash_size: size, ..m }
        } else {
            m
        }
    } else if is_ram_id(up) {
        if m.ram_size == 0 || dflt || (start >= 0x20000000 && m.ram_start < 0x20000000) {
            MemoryInfo { ram_start: start, ram_size: size, ..m }
        } else {
            m
        }
    } else {
        m
    }
}

pub open spec fn zero_mem() -> MemoryInfo {
    MemoryInfo { ram_start: 0, ram_size: 0, flash_start: 0, flash_size: 0 }
}

pub open spec fn empty_proc() -> ProcS {
    ProcS { core: Seq::empty(), fpu: false, mpu: false }
}

// ---------------------------------------------------------------------
// The fold steps.
// ---------------------------------------------------------------------

pub open spec fn step_proc_event(st: PdscStateS, attrs: Seq<XmlAttrS>) -> PdscStateS {
    let p = proc_of_attrs(attrs);
    if st.in_device {
        PdscStateS { cur_proc: Some(p), ..st }
    } else if st.in_subfamily {
        PdscStateS { sub_proc: Some(p), ..st }
    } else if st.in_family {
        PdscStateS { family_proc: Some(p), ..st }
    } else {
        st
    }
}

pub open spec fn step_mem_event(st: PdscStateS, attrs: Seq<XmlAttrS>) -> PdscStateS {
    let id = opt_or_empty(last_attr(attrs, lit_bytes("id")));
    let nm = opt_or_empty(last_attr(attrs, lit_bytes("name")));
    let start = num_of(last_attr(attrs, lit_bytes("start")));
    let size = num_of(last_attr(attrs, lit_bytes("size")));
    let dflt = match last_attr(attrs, lit_bytes("default")) {
        Option::Some(v) => truthy(v),
        Option::None => false,
    };
    let up = upper_seq(if id.len() > 0 { id } else { nm });
    if st.in_device {
        match st.cur_dev {
            Option::Some(d) => PdscStateS {
                cur_dev: Some(DeviceS { memory: mem_apply(d.memory, up, start, size, dflt), ..d }),
                ..st
            },
            Option::None => st,
        }
    } else if st.in_subfamily {
        let base = match st.sub_mem {
            Option::Some(m) => m,
            Option::None => zero_mem(),
        };
        PdscStateS { sub_mem: Some(mem_apply(base, up, start, size, dflt)), ..st }
    } else if st.in_family {
        let base = match st.family_mem {
            Option::Some(m) => m,
            Option::None => zero_mem(),
        };
        PdscStateS { family_mem: Some(mem_apply(base, up, start, size, dflt)), ..st }
    } else {
        st
    }
}

pub open spec fn step_algo_event(st: PdscStateS, attrs: Seq<XmlAttrS>) -> PdscStateS {
    match first_attr(attrs, lit_bytes("name")) {
        Option::None => st,
        Option::Some(a) => if st.in_device {
            match st.cur_dev {
                Option::Some(d) => PdscStateS { cur_dev: Some(DeviceS { algo: Some(a), ..d }), ..st },
                Option::None => st,
            }
        } else if st.in_subfamily {
            PdscStateS { sub_algo: Some(a), ..st }
        } else if st.in_family {
            PdscStateS { family_algo: Some(a), ..st }
        } else {
            st
        },
    }
}

/// `<processor>`, `<memory>` and `<algorithm>`, legal as start or
/// self-closing tags alike, folded into the innermost open level.
pub open spec fn step_item(st: PdscStateS, tag: XmlTagS) -> PdscStateS {
    if tag.name == lit_bytes("processor") && st.in_devices {
        step_proc_event(st, tag.attrs)
    } else if tag.name == lit_bytes("memory") && st.in_devices {
        step_mem_event(st, tag.attrs)
    } else if tag.name == lit_bytes("algorithm") && st.in_devices {
        step_algo_event(st, tag.attrs)
    } else {
        st
    }
}

/// Opening a `<device>`: inherit subfamily over family for each of
/// processor, memory and algorithm.
pub open spec fn step_device_start(st: PdscStateS, attrs: Seq<XmlAttrS>) -> PdscStateS {
    let name = opt_or_empty(last_attr(attrs, lit_bytes("Dname")));
    let st1 = PdscStateS { in_device: true, ..st };
    if name.len() > 0 {
        let proc = match st.sub_proc {
            Option::Some(p) => p,
            Option::None => match st.family_proc {
                Option::Some(p) => p,
                Option::None => empty_proc(),
            },
        };
        let mem = match st.sub_mem {
            Option::Some(m) => m,
            Option::None => match st.family_mem {
                Option::Some(m) => m,
                Option::None => zero_mem(),
            },
        };
        let algo = match st.sub_algo {
            Option::Some(a) => Some(a),
            Option::None => st.family_algo,
        };
        PdscStateS { cur_dev: Some(DeviceS { name, proc, memory: mem, algo }), ..st1 }
    } else {
        st1
    }
}

pub open spec fn step_start(st: PdscStateS, tag: XmlTagS) -> PdscStateS {
    if tag.name == lit_bytes("devices") {
        PdscStateS { in_devices: true, ..st }
    } else if tag.name == lit_bytes("family") && st.in_devices {
        PdscStateS { in_family: true, family_proc: None, family_mem: None, family_algo: None, ..st }
    } else if tag.name == lit_bytes("subFamily") && st.in_family {
        PdscStateS { in_subfamily: true, sub_proc: None, sub_mem: None, sub_algo: None, ..st }
    } else if tag.name == lit_bytes("device") && st.in_devices {
        step_device_start(st, tag.attrs)
    } else {
        step_item(st, tag)
    }
}

/// Closing a `</device>`: a device-level `<processor>` overrides the
/// inherited one, and the device is emitted. Every tenth device also
/// leaves a progress record.
pub open spec fn step_device_end(st: PdscStateS) -> PdscStateS {
    let st1 = PdscStateS { in_device: false, cur_dev: None, cur_proc: None, ..st };
    match st.cur_dev {
        Option::None => st1,
        Option::Some(d) => {
            let dev = match st.cur_proc {
                Option::Some(p) => DeviceS { proc: p, ..d },
                Option::None => d,
            };
            let prog = if st.devices.len() % 10 == 0 {
                st.progress.push(
                    ProgS {
                        phase: ScanPhase::ExtractingDevices,
                        item: dev.name,
                        current: st.devices.len() as int,
                        total: st.devices.len() as int + 1,
                    },
                )
            } else {
                st.progress
            };
            PdscStateS { devices: st.devices.push(dev), progress: prog, ..st1 }
        },
    }
}

pub open spec fn step_end(st: PdscStateS, name: Seq<u8>) -> PdscStateS {
    if name == lit_bytes("devices") {
        PdscStateS { in_devices: false, ..st }
    } else if name == lit_bytes("family") {
        PdscStateS { in_family: false, family_proc: None, family_mem: None, family_algo: None, ..st }
    } else if name == lit_bytes("subFamily") {
        PdscStateS { in_subfamily: false, sub_proc: None, sub_mem: None, sub_algo: None, ..st }
    } else if name == lit_bytes("device") {
        step_device_end(st)
    } else {
        st
    }
}

/// One event folded into the state.
pub open spec fn spec_step(st: PdscStateS, ev: XmlEventS) -> PdscStateS {
    match ev {
        XmlEventS::Start(tag) => step_start(st, tag),
        XmlEventS::Empty(tag) => step_item(st, tag),
        XmlEventS::End(name) => step_end(st, name),
        XmlEventS::Text(_) => st,
    }
}

/// The fold's starting state: nothing open, one record saying parsing
/// has begun.
pub open spec fn init_state() -> PdscStateS {
    PdscStateS {
        in_devices: false,
        in_family: false,
        in_subfamily: false,
        in_device: false,
        family_proc: None,
        family_mem: None,
        family_algo: None,
        sub_proc: None,
        sub_mem: None,
        sub_algo: None,
        cur_dev: None,
        cur_proc: None,
        devices: Seq::empty(),
        progress: seq![
            ProgS { phase: ScanPhase::Parsing, item: Seq::empty(), current: 0, total: 1 },
        ],
    }
}

/// The whole document folded from `pos` on; `None` on malformed XML.
pub open spec fn spec_run(s: Seq<u8>, pos: int, st: PdscStateS) -> Option<PdscStateS>
    decreases s.len() - pos,
{
    match spec_next_event(s, pos) {
        ScanStepS::Failed => None,
        ScanStepS::Eof => Some(st),
        ScanStepS::Skip(p2) => if pos < p2 <= s.len() {
            spec_run(s, p2, st)
        } else {
            None
        },
        ScanStepS::Event(ev, p2) => if pos < p2 <= s.len() {
            spec_run(s, p2, spec_step(st, ev))
        } else {
            None
        },
    }
}

/// The parse of a whole document, with the closing progress record.
pub open spec fn spec_parse_devices(s: Seq<u8>) -> Option<PdscStateS> {
    match spec_run(s, 0, init_state()) {
        Option::None => None,
        Option::Some(st) => Some(
            PdscStateS {
                progress: st.progress.push(
                    ProgS {
                        phase: ScanPhase::ExtractingDevices,
                        item: Seq::empty(),
                        current: st.devices.len() as int,
                        total: st.devices.len() as int,
                    },
                ),
                ..st
            },
        ),
    }
}

// ---------------------------------------------------------------------
// What the public results look like, given the byte-level fold.
// ---------------------------------------------------------------------

/// A byte-level device decoded into the public one.
pub open spec fn decode_device(d: DeviceS) -> DeviceDefinitionS {
    DeviceDefinitionS {
        name: lossy_of(d.name),
        processor: ProcessorInfoS { core: lossy_of(d.proc.core), fpu: d.proc.fpu, mpu: d.proc.mpu },
        memory: d.memory,
        flash_algorithm: match d.algo {
            Option::Some(a) => Some(lossy_of(a)),
            Option::None => None,
        },
    }
}

pub open spec fn decode_devices(ds: Seq<DeviceS>) -> Seq<DeviceDefinitionS> {
    ds.map_values(|d: DeviceS| decode_device(d))
}

/// A byte-level progress record decoded into the public one.
pub open spec fn decode_progress(p: ProgS) -> PackScanProgressS {
    PackScanProgressS {
        phase: p.phase,
        current_item: lossy_of(p.item),
        current: p.current,
        total: p.total,
        message: Seq::empty(),
    }
}

pub open spec fn decode_progress_seq(ps: Seq<ProgS>) -> Seq<PackScanProgressS> {
    ps.map_values(|p: ProgS| decode_progress(p))
}

// ---------------------------------------------------------------------
// Executable fold.
// ---------------------------------------------------------------------

fn clone_proc(p: &ProcRaw) -> (r: ProcRaw)
    ensures
        r@ == p@,
{
    ProcRaw { core: clone_bytes(&p.core), fpu: p.fpu, mpu: p.mpu }
}

fn attr_text(attrs: &Vec<XmlAttr>, name: &str) -> (r: Vec<u8>)
    requires
        name.is_ascii(),
    ensures
        r@ == opt_or_empty(last_attr(attrs@.map_values(|a: XmlAttr| a@), lit_bytes(name))),
{
    match get_last_attr(attrs, name) {
        Some(v) => v,
        None => Vec::new(),
    }
}

fn attr_flag(attrs: &Vec<XmlAttr>, name: &str, accept_sp_fpu: bool) -> (r: bool)
    requires
        name.is_ascii(),
    ensures
        r == match last_attr(attrs@.map_values(|a: XmlAttr| a@), lit_bytes(name)) {
            Option::Some(v) => if accept_sp_fpu {
                truthy_fpu(v)
            } else {
                truthy(v)
            },
            Option::None => false,
        },
{
    proof {
        reveal_strlit("1");
        reveal_strlit("true");
        reveal_strlit("sp_fpu");
        assert("1".is_ascii());
        assert("true".is_ascii());
        assert("sp_fpu".is_ascii());
    }
    match get_last_attr(attrs, name) {
        None => false,
        Some(v) => {
            if bytes_eq_str(v.as_slice(), "1") {
                return true;
            }
            let low = lower_vec(v.as_slice());
            if bytes_eq_str(low.as_slice(), "true") {
                return true;
            }
            if accept_sp_fpu && bytes_eq_str(low.as_slice(), "sp_fpu") {
                return true;
            }
            false
        },
    }
}

fn attr_num(attrs: &Vec<XmlAttr>, name: &str) -> (r: u64)
    requires
        name.is_ascii(),
    ensures
        r == num_of(last_attr(attrs@.map_values(|a: XmlAttr| a@), lit_bytes(name))),
{
    match get_last_attr(attrs, name) {
        None => 0,
        Some(v) => match parse_hex_or_dec_bytes(v.as_slice()) {
            Some(n) => n,
            None => 0,
        },
    }
}

fn exec_proc_of_attrs(attrs: &Vec<XmlAttr>) -> (r: ProcRaw)
    ensures
        r@ == proc_of_attrs(attrs@.map_values(|a: XmlAttr| a@)),
{
    proof {
        reveal_strlit("Dcore");
        reveal_strlit("Dfpu");
        reveal_strlit("Dmpu");
        assert("Dcore".is_ascii());
        assert("Dfpu".is_ascii());
        assert("Dmpu".is_ascii());
    }
    ProcRaw {
        core: attr_text(attrs, "Dcore"),
        fpu: attr_flag(attrs, "Dfpu", true),
        mpu: attr_flag(attrs, "Dmpu", false),
    }
}

fn exec_mem_apply(m: MemoryInfo, up: &Vec<u8>, start: u64, size: u64, dflt: bool) -> (r: MemoryInfo)
    ensures
        r == mem_apply(m, up@, start, size, dflt),
{
    proof {
        reveal_strlit("IROM");
        reveal_strlit("FLASH");
        reveal_strlit("ROM");
        reveal_strlit("IRAM");
        reveal_strlit("RAM");
        reveal_strlit("SRAM");
        assert("IROM".is_ascii() && "FLASH".is_ascii() && "ROM".is_ascii());
        assert("IRAM".is_ascii() && "RAM".is_ascii() && "SRAM".is_ascii());
        assert(lit_bytes("IROM").len() >= 1 && lit_bytes("FLASH").len() >= 1 && lit_bytes(
            "ROM",
        ).len() >= 1);
        assert(lit_bytes("IRAM").len() >= 1 && lit_bytes("RAM").len() >= 1 && lit_bytes(
            "SRAM",
        ).len() >= 1);
    }
    if upper_contains(up, "IROM") || upper_contains(up, "FLASH") || upper_contains(up, "ROM") {
        if m.flash_size == 0 || dflt || size > m.flash_size {
            MemoryInfo { flash_start: start, flash_size: size, ..m }
        } else {
            m
        }
    } else if upper_contains(up, "IRAM") || upper_contains(up, "RAM") || upper_contains(up, "SRAM") {
        if m.ram_size == 0 || dflt || (start >= 0x20000000 && m.ram_start < 0x20000000) {
            MemoryInfo { ram_start: start, ram_size: size, ..m }
        } else {
            m
        }
    } else {
        m
    }
}

fn apply_proc_event(st: &mut PdscParser, attrs: &Vec<XmlAttr>)
    ensures
        final(st)@ == step_proc_event(old(st)@, attrs@.map_values(|a: XmlAttr| a@)),
{
    let p = exec_proc_of_attrs(attrs);
    if st.in_device {
        st.cur_proc = Some(p);
    } else if st.in_subfamily {
        st.sub_proc = Some(p);
    } else if st.in_family {
        st.family_proc = Some(p);
    }
}

fn apply_mem_event(st: &mut PdscParser, attrs: &Vec<XmlAttr>)
    ensures
        final(st)@ == step_mem_event(old(st)@, attrs@.map_values(|a: XmlAttr| a@)),
{
    proof {
        reveal_strlit("id");
        reveal_strlit("name");
        reveal_strlit("start");
        reveal_strlit("size");
        reveal_strlit("default");
        assert("id".is_ascii() && "name".is_ascii() && "start".is_ascii());
        assert("size".is_ascii() && "default".is_ascii());
    }
    let id = attr_text(attrs, "id");
    let nm = attr_text(attrs, "name");
    let start = attr_num(attrs, "start");
    let size = attr_num(attrs, "size");
    let dflt = attr_flag(attrs, "default", false);
    let chosen = if id.len() > 0 {
        id
    } else {
        nm
    };
    let up = upper_vec(chosen.as_slice());
    if st.in_device {
        match &mut st.cur_dev {
            Some(d) => {
                d.memory = exec_mem_apply(d.memory, &up, start, size, dflt);
            },
            None => {},
        }
    } else if st.in_subfamily {
        let base = match st.sub_mem {
            Some(m) => m,
            None => MemoryInfo { ram_start: 0, ram_size: 0, flash_start: 0, flash_size: 0 },
        };
        st.sub_mem = Some(exec_mem_apply(base, &up, start, size, dflt));
    } else if st.in_family {
        let base = match st.family_mem {
            Some(m) => m,
            None => MemoryInfo { ram_start: 0, ram_size: 0, flash_start: 0, flash_size: 0 },
        };
        st.family_mem = Some(exec_mem_apply(base, &up, start, size, dflt));
    }
}

fn apply_algo_event(st: &mut PdscParser, attrs: &Vec<XmlAttr>)
    ensures
        final(st)@ == step_algo_event(old(st)@, attrs@.map_values(|a: XmlAttr| a@)),
{
    proof {
        reveal_strlit("name");
        assert("name".is_ascii());
    }
    match get_first_attr(attrs, "name") {
        None => {},
        Some(a) => {
            if st.in_device {
                match &mut st.cur_dev {
                    Some(d) => {
                        d.algo = Some(a);
                    },
                    None => {},
                }
            } else if st.in_subfamily {
                st.sub_algo = Some(a);
            } else if st.in_family {
                st.family_algo = Some(a);
            }
        },
    }
}

/// The tag names the fold distinguishes have these lengths and are
/// pairwise distinct, which the equality tests below rely on.
proof fn lemma_tag_lits()
    ensures
        lit_bytes("devices").len() == 7,
        lit_bytes("family").len() == 6,
        lit_bytes("subFamily").len() == 9,
        lit_bytes("device").len() == 6,
        lit_bytes("processor").len() == 9,
        lit_bytes("memory").len() == 6,
        lit_bytes("algorithm").len() == 9,
        lit_bytes("family") != lit_bytes("device"),
        lit_bytes("family") != lit_bytes("memory"),
        lit_bytes("device") != lit_bytes("memory"),
        lit_bytes("subFamily") != lit_bytes("processor"),
        lit_bytes("subFamily") != lit_bytes("algorithm"),
        lit_bytes("processor") != lit_bytes("algorithm"),
{
    reveal_strlit("devices");
    reveal_strlit("family");
    reveal_strlit("subFamily");
    reveal_strlit("device");
    reveal_strlit("processor");
    reveal_strlit("memory");
    reveal_strlit("algorithm");
    assert(lit_bytes("family")[0] == 0x66);
    assert(lit_bytes("device")[0] == 0x64);
    assert(lit_bytes("memory")[0] == 0x6d);
    assert(lit_bytes("subFamily")[0] == 0x73);
    assert(lit_bytes("processor")[0] == 0x70);
    assert(lit_bytes("algorithm")[0] == 0x61);
}

fn apply_item(st: &mut PdscParser, tag: &XmlTag)
    ensures
        final(st)@ == step_item(old(st)@, tag@),
{
    proof {
        lemma_tag_lits();
        reveal_strlit("processor");
        reveal_strlit("memory");
        reveal_strlit("algorithm");
        assert("processor".is_ascii() && "memory".is_ascii() && "algorithm".is_ascii());
    }
    if bytes_eq_str(tag.name.as_slice(), "processor") {
        if st.in_devices {
            apply_proc_event(st, &tag.attrs);
        }
    } else if bytes_eq_str(tag.name.as_slice(), "memory") {
        if st.in_devices {
            apply_mem_event(st, &tag.attrs);
        }
    } else if bytes_eq_str(tag.name.as_slice(), "algorithm") {
        if st.in_devices {
            apply_algo_event(st, &tag.attrs);
        }
    }
}

fn apply_device_start(st: &mut PdscParser, attrs: &Vec<XmlAttr>)
    ensures
        final(st)@ == step_device_start(old(st)@, attrs@.map_values(|a: XmlAttr| a@)),
{
    proof {
        reveal_strlit("Dname");
        assert("Dname".is_ascii());
    }
    st.in_device = true;
    let name = attr_text(attrs, "Dname");
    if name.len() > 0 {
        let proc = match &st.sub_proc {
            Some(p) => clone_proc(p),
            None => match &st.family_proc {
                Some(p) => clone_proc(p),
                None => ProcRaw { core: Vec::new(), fpu: false, mpu: false },
            },
        };
        let mem = match st.sub_mem {
            Some(m) => m,
            None => match st.family_mem {
                Some(m) => m,
                None => MemoryInfo { ram_start: 0, ram_size: 0, flash_start: 0, flash_size: 0 },
            },
        };
        let algo = match &st.sub_algo {
            Some(a) => Some(clone_bytes(a)),
            None => match &st.family_algo {
                Some(a) => Some(clone_bytes(a)),
                None => None,
            },
        };
        st.cur_dev = Some(DeviceRaw { name, proc, memory: mem, algo });
    }
}

fn apply_device_end(st: &mut PdscParser)
    ensures
        final(st)@ == step_device_end(old(st)@),
{
    st.in_device = false;
    let dev_taken = st.cur_dev.take();
    let proc_taken = st.cur_proc.take();
    match dev_taken {
        None => {},
        Some(mut dev) => {
            match proc_taken {
                Some(p) => {
                    dev.proc = p;
                },
                None => {},
            }
            let n = st.devices.len();
            if n % 10 == 0 {
                st.progress.push(
                    ProgRaw {
                        phase: ScanPhase::ExtractingDevices,
                        item: clone_bytes(&dev.name),
                        current: n,
                        total: n + 1,
                    },
                );
                proof {
                    assert(st.progress@.map_values(|p: ProgRaw| p@) =~= old(
                        st,
                    )@.progress.push(
                        ProgS {
                            phase: ScanPhase::ExtractingDevices,
                            item: dev.name@,
                            current: n as int,
                            total: n + 1,
                        },
                    ));
                }
            }
            st.devices.push(dev);
            proof {
                assert(st.devices@.map_values(|d: DeviceRaw| d@) =~= old(
                    st,
                )@.devices.push(st.devices@.last()@));
            }
        },
    }
}

fn apply_end(st: &mut PdscParser, name: &Vec<u8>)
    ensures
        final(st)@ == step_end(old(st)@, name@),
{
    proof {
        lemma_tag_lits();
        reveal_strlit("devices");
        reveal_strlit("family");
        reveal_strlit("subFamily");
        reveal_strlit("device");
        assert("devices".is_ascii() && "family".is_ascii());
        assert("subFamily".is_ascii() && "device".is_ascii());
    }
    if bytes_eq_str(name.as_slice(), "devices") {
        st.in_devices = false;
    } else if bytes_eq_str(name.as_slice(), "family") {
        st.in_family = false;
        st.family_proc = None;
        st.family_mem = None;
        st.family_algo = None;
    } else if bytes_eq_str(name.as_slice(), "subFamily") {
        st.in_subfamily = false;
        st.sub_proc = None;
        st.sub_mem = None;
        st.sub_algo = None;
    } else if bytes_eq_str(name.as_slice(), "device") {
        apply_device_end(st);
    }
}

fn apply_start(st: &mut PdscParser, tag: &XmlTag)
    ensures
        final(st)@ == step_start(old(st)@, tag@),
{
    proof {
        lemma_tag_lits();
        reveal_strlit("devices");
        reveal_strlit("family");
        reveal_strlit("subFamily");
        reveal_strlit("device");
        assert("devices".is_ascii() && "family".is_ascii());
        assert("subFamily".is_ascii() && "device".is_ascii());
    }
    if bytes_eq_str(tag.name.as_slice(), "devices") {
        st.in_devices = true;
    } else if bytes_eq_str(tag.name.as_slice(), "family") {
        if st.in_devices {
            st.in_family = true;
            st.family_proc = None;
            st.family_mem = None;
            st.family_algo = None;
        } else {
            apply_item(st, tag);
        }
    } else if bytes_eq_str(tag.name.as_slice(), "subFamily") {
        if st.in_family {
            st.in_subfamily = true;
            st.sub_proc = None;
            st.sub_mem = None;
            st.sub_algo = None;
        } else {
            apply_item(st, tag);
        }
    } else if bytes_eq_str(tag.name.as_slice(), "device") {
        if st.in_devices {
            apply_device_start(st, &tag.attrs);
        } else {
            apply_item(st, tag);
        }
    } else {
        apply_item(st, tag);
    }
}

fn apply_event(st: &mut PdscParser, ev: &XmlEvent)
    ensures
        final(st)@ == spec_step(old(st)@, ev@),
{
    match ev {
        XmlEvent::Start(tag) => apply_start(st, tag),
        XmlEvent::Empty(tag) => apply_item(st, tag),
        XmlEvent::End(name) => apply_end(st, name),
        XmlEvent::Text(_) => {},
    }
}

fn init_parser() -> (r: PdscParser)
    ensures
        r@ == init_state(),
{
    let mut progress: Vec<ProgRaw> = Vec::new();
    progress.push(ProgRaw { phase: ScanPhase::Parsing, item: Vec::new(), current: 0, total: 1 });
    let r = PdscParser {
        in_devices: false,
        in_family: false,
        in_subfamily: false,
        in_device: false,
        family_proc: None,
        family_mem: None,
        family_algo: None,
        sub_proc: None,
        sub_mem: None,
        sub_algo: None,
        cur_dev: None,
        cur_proc: None,
        devices: Vec::new(),
        progress,
    };
    proof {
        assert(r@.devices =~= init_state().devices);
        assert(r@.progress =~= init_state().progress);
    }
    r
}

/// Runs the fold over the whole document.
fn run_fold(s: &[u8]) -> (r: Option<PdscParser>)
    ensures
        match r {
            Some(st) => spec_run(s@, 0, init_state()) == Some(st@),
            None => spec_run(s@, 0, init_state()) is None,
        },
{
    let mut st = init_parser();
    let mut pos: usize = 0;
    loop
        invariant
            pos <= s@.len(),
            spec_run(s@, 0, init_state()) == spec_run(s@, pos as int, st@),
        decreases s@.len() - pos,
    {
        match next_event(s, pos) {
            ScanStep::Eof => {
                return Some(st);
            },
            ScanStep::Failed => {
                return None;
            },
            ScanStep::Skip(p2) => {
                pos = p2;
            },
            ScanStep::Event(ev, p2) => {
                apply_event(&mut st, &ev);
                pos = p2;
            },
        }
    }
}

fn decode_device_exec(d: &DeviceRaw) -> (r: DeviceDefinition)
    ensures
        r@ == decode_device(d@),
{
    DeviceDefinition {
        name: bytes_to_string(d.name.as_slice()),
        processor: ProcessorInfo {
            core: bytes_to_string(d.proc.core.as_slice()),
            fpu: d.proc.fpu,
            mpu: d.proc.mpu,
        },
        memory: d.memory,
        flash_algorithm: match &d.algo {
            Some(a) => Some(bytes_to_string(a.as_slice())),
            None => None,
        },
    }
}

fn decode_outputs(st: &PdscParser) -> (r: (Vec<DeviceDefinition>, Vec<PackScanProgress>))
    ensures
        r.0@.map_values(|d: DeviceDefinition| d@) == decode_devices(st@.devices),
        r.1@.map_values(|p: PackScanProgress| p@) == decode_progress_seq(st@.progress),
{
    let mut devs: Vec<DeviceDefinition> = Vec::new();
    let mut i: usize = 0;
    while i < st.devices.len()
        invariant
            i <= st.devices@.len(),
            devs@.map_values(|d: DeviceDefinition| d@) == decode_devices(
                st.devices@.map_values(|d: DeviceRaw| d@).subrange(0, i as int),
            ),
        decreases st.devices@.len() - i,
    {
        devs.push(decode_device_exec(&st.devices[i]));
        proof {
            let all = st.devices@.map_values(|d: DeviceRaw| d@);
            assert(devs@.map_values(|d: DeviceDefinition| d@) =~= decode_devices(
                all.subrange(0, i + 1 as int),
            )) by {
                assert(all.subrange(0, i + 1 as int).drop_last() =~= all.subrange(0, i as int));
                assert(decode_devices(all.subrange(0, i + 1 as int)) =~= decode_devices(
                    all.subrange(0, i as int),
                ).push(decode_device(all[i as int])));
            }
        }
        i = i + 1;
    }
    proof {
        let all = st.devices@.map_values(|d: DeviceRaw| d@);
        assert(all.subrange(0, all.len() as int) =~= all);
    }
    let mut prog: Vec<PackScanProgress> = Vec::new();
    let mut j: usize = 0;
    while j < st.progress.len()
        invariant
            j <= st.progress@.len(),
            prog@.map_values(|p: PackScanProgress| p@) == decode_progress_seq(
                st.progress@.map_values(|p: ProgRaw| p@).subrange(0, j as int),
            ),
        decreases st.progress@.len() - j,
    {
        let p = &st.progress[j];
        prog.push(
            PackScanProgress {
                phase: p.phase,
                current_item: bytes_to_string(p.item.as_slice()),
                current: p.current,
                total: p.total,
                message: String::new(),
            },
        );
        proof {
            let all = st.progress@.map_values(|p: ProgRaw| p@);
            assert(prog@.map_values(|p: PackScanProgress| p@) =~= decode_progress_seq(
                all.subrange(0, j + 1 as int),
            )) by {
                assert(all.subrange(0, j + 1 as int).drop_last() =~= all.subrange(0, j as int));
                assert(decode_progress_seq(all.subrange(0, j + 1 as int)) =~= decode_progress_seq(
                    all.subrange(0, j as int),
                ).push(decode_progress(all[j as int])));
            }
        }
        j = j + 1;
    }
    proof {
        let all = st.progress@.map_values(|p: ProgRaw| p@);
        assert(all.subrange(0, all.len() as int) =~= all);
    }
    (devs, prog)
}

/// Parses the devices of a PDSC document, reporting also the progress
/// records the scan would emit along the way.
pub fn parse_devices_with_progress(content: &str) -> (r: Result<
    (Vec<DeviceDefinition>, Vec<PackScanProgress>),
    AppError,
>)
    ensures
        match spec_parse_devices(content.spec_bytes()) {
            Option::Some(st) => match r {
                Result::Ok((devs, prog)) => devs@.map_values(|d: DeviceDefinition| d@)
                    == decode_devices(st.devices) && prog@.map_values(|p: PackScanProgress| p@)
                    == decode_progress_seq(st.progress),
                Result::Err(_) => false,
            },
            Option::None => r is Err && r->Err_0 is PackError,
        },
{
    let s = content.as_bytes();
    match run_fold(s) {
        None => Err(AppError::PackError(String::from_str("malformed PDSC document"))),
        Some(mut st) => {
            let n = st.devices.len();
            st.progress.push(
                ProgRaw {
                    phase: ScanPhase::ExtractingDevices,
                    item: Vec::new(),
                    current: n,
                    total: n,
                },
            );
            proof {
                let base = spec_run(content.spec_bytes(), 0, init_state())->Some_0;
                assert(st@.progress =~= spec_parse_devices(content.spec_bytes())->Some_0.progress);
            }
            let (devs, prog) = decode_outputs(&st);
            Ok((devs, prog))
        },
    }
}

/// Parses the devices of a PDSC document. Every device carries a
/// non-empty name; processor, memory and algorithm come from the closest
/// enclosing definition.
pub fn parse_devices_from_pdsc(content: &str) -> (r: Result<Vec<DeviceDefinition>, AppError>)
    ensures
        match spec_parse_devices(content.spec_bytes()) {
            Option::Some(st) => match r {
                Result::Ok(devs) => devs@.map_values(|d: DeviceDefinition| d@) == decode_devices(
                    st.devices,
                ),
                Result::Err(_) => false,
            },
            Option::None => r is Err && r->Err_0 is PackError,
        },
{
    match parse_devices_with_progress(content) {
        Ok((devs, _prog)) => Ok(devs),
        Err(e) => Err(e),
    }
}


/// `0x`-prefixed hex or decimal value of a numeral, as PDSC attributes
/// write them; surrounding whitespace is tolerated. `None` when
/// malformed or beyond `u64`.
pub fn parse_hex_or_dec(s: &str) -> (r: Option<u64>)
    ensures
        r == spec_parse_hex_or_dec(s.spec_bytes()),
{
    parse_hex_or_dec_bytes(s.as_bytes())
}

/// Re-scanning is deterministic: two parses of the same document yield
/// the same device set (and the same progress trace).
pub proof fn lemma_rescan_deterministic(content: Seq<u8>, first: PdscStateS, second: PdscStateS)
    requires
        spec_parse_devices(content) == Some(first),
        spec_parse_devices(content) == Some(second),
    ensures
        first == second,
        first.devices == second.devices,
{
}

} // verus!
