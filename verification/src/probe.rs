//! Probe enumeration logic: USB-descriptor classification of CMSIS-DAP
//! probes into HID, WinUSB or dual capability, the stable probe
//! identifier, pairing library enumeration entries with USB capability
//! findings, and the chip identification register walk.

use vstd::prelude::*;
use crate::bytestr::{
    bytes_eq_str, bytes_to_string, contains_seq, lit_bytes, lossy_of, lower_seq, lower_vec,
    push_bytes, push_hex_u64_pad4, push_str_bytes, hex_repr_pad,
};
use crate::session::{ConnectMode, InterfaceType};

verus! {

use vstd::string::StringSliceAdditionalSpecFns;
use vstd::string::StringExecFns;
use vstd::utf8::encode_utf8;

/// One probe as shown to the user.
#[derive(Debug, Clone)]
pub struct ProbeInfo {
    pub probe_id: String,
    pub identifier: String,
    pub vendor_id: u16,
    pub product_id: u16,
    pub serial_number: Option<String>,
    pub probe_type: String,
    pub dap_version: Option<String>,
    pub debug_info: Option<String>,
}

/// One USB device, for diagnostics.
#[derive(Debug, Clone)]
pub struct UsbDeviceInfo {
    pub vendor_id: u16,
    pub product_id: u16,
    pub manufacturer: Option<String>,
    pub product: Option<String>,
    pub serial_number: Option<String>,
    pub bus_number: u8,
    pub device_address: u8,
    pub interfaces: Vec<UsbInterfaceInfo>,
}

/// One USB interface descriptor, as far as classification needs it.
#[derive(Debug, Clone)]
pub struct UsbInterfaceInfo {
    pub interface_number: u8,
    pub class: u8,
    pub subclass: u8,
    pub protocol: u8,
    pub interface_string: Option<String>,
}

/// The target facts reported after attach.
#[derive(Debug, Clone)]
pub struct TargetInfo {
    pub name: String,
    pub core_type: String,
    pub memory_regions: Vec<MemoryRegion>,
    pub flash_algorithms: Vec<String>,
    pub chip_id: Option<u32>,
}

/// One region of the attached target's memory map.
#[derive(Debug, Clone)]
pub struct MemoryRegion {
    pub name: String,
    pub kind: String,
    pub address: u64,
    pub size: u64,
}

/// An attach request.
#[derive(Debug, Clone)]
pub struct ConnectOptions {
    pub probe_identifier: String,
    pub target: String,
    pub interface_type: InterfaceType,
    pub clock_speed: Option<u32>,
    pub connect_mode: ConnectMode,
}

/// Whether a slot holds a session, and its facts.
#[derive(Debug, Clone)]
pub struct ConnectionStatus {
    pub connected: bool,
    pub info: Option<crate::session::ConnectionInfo>,
}

/// The outcome of a USB permission check.
#[derive(Debug, Clone)]
pub struct UsbPermissionStatus {
    pub has_permission: bool,
    pub udev_rules_installed: bool,
    pub detected_dap_devices: Vec<UsbDeviceInfo>,
    pub suggestions: Vec<String>,
}

/// What USB introspection found of one probe-like device.
#[derive(Debug, Clone)]
pub struct CmsisDapCaps {
    pub vendor_id: u16,
    pub product_id: u16,
    pub serial_number: Option<String>,
    pub has_hid: bool,
    pub has_v2: bool,
    pub debug_info: String,
}

/// Whether a descriptor string names CMSIS-DAP, matched
/// case-insensitively with either separator.
pub open spec fn spec_is_cmsis_dap(s: Seq<u8>) -> bool {
    contains_seq(lower_seq(s), lit_bytes("cmsis-dap")) || contains_seq(
        lower_seq(s),
        lit_bytes("cmsis_dap"),
    )
}

/// Whether a product or interface string marks a CMSIS-DAP probe.
pub fn is_cmsis_dap_str(value: &str) -> (r: bool)
    ensures
        r == spec_is_cmsis_dap(value.spec_bytes()),
{
    proof {
        reveal_strlit("cmsis-dap");
        reveal_strlit("cmsis_dap");
        assert("cmsis-dap".is_ascii() && "cmsis_dap".is_ascii());
        assert(lit_bytes("cmsis-dap").len() == 9);
        assert(lit_bytes("cmsis_dap").len() == 9);
    }
    let low = lower_vec(value.as_bytes());
    crate::bytestr::upper_contains(&low, "cmsis-dap") || crate::bytestr::upper_contains(
        &low,
        "cmsis_dap",
    )
}

/// The vendor IDs known to ship CMSIS-DAP firmware.
pub open spec fn spec_known_vid(vid: u16) -> bool {
    vid == 0xfaed || vid == 0x0d28 || vid == 0xc251 || vid == 0x1366 || vid == 0x0483
}

/// Whether the vendor ID belongs to a maker of CMSIS-DAP probes.
pub fn is_known_dap_vid(vid: u16) -> (r: bool)
    ensures
        r == spec_known_vid(vid),
{
    vid == 0xfaed || vid == 0x0d28 || vid == 0xc251 || vid == 0x1366 || vid == 0x0483
}

/// What one interface contributes: HID class `0x03` with a CMSIS-DAP
/// string implies the v1 transport, vendor class `0xFF` the v2 one.
pub open spec fn spec_iface_caps(class: u8, iface_is_cmsis: bool, product_is_cmsis: bool) -> (
    bool,
    bool,
) {
    if class == 0x03 && (iface_is_cmsis || product_is_cmsis) {
        (true, false)
    } else if class == 0xff && (iface_is_cmsis || product_is_cmsis) {
        (false, true)
    } else {
        (false, false)
    }
}

/// The capability a set of interfaces shows, folded left to right.
pub open spec fn spec_fold_caps(
    ifaces: Seq<(u8, Seq<u8>)>,
    product_is_cmsis: bool,
    i: int,
) -> (bool, bool)
    decreases ifaces.len() - i,
{
    if i < 0 || i >= ifaces.len() {
        (false, false)
    } else {
        let here = spec_iface_caps(
            ifaces[i].0,
            spec_is_cmsis_dap(ifaces[i].1),
            product_is_cmsis,
        );
        let rest = spec_fold_caps(ifaces, product_is_cmsis, i + 1);
        (here.0 || rest.0, here.1 || rest.1)
    }
}

/// Classifies a device's interfaces: each is a class code and an
/// interface string. HID and WinUSB findings accumulate independently.
pub fn collect_iface_caps(ifaces: &Vec<UsbInterfaceInfo>, product_is_cmsis: bool) -> (r: (
    bool,
    bool,
))
    ensures
        (r.0, r.1) == spec_fold_caps(
            ifaces@.map_values(
                |i: UsbInterfaceInfo| (
                    i.class,
                    match i.interface_string {
                        Option::Some(s) => encode_utf8(s@),
                        Option::None => Seq::<u8>::empty(),
                    },
                ),
            ),
            product_is_cmsis,
            0,
        ),
{
    let ghost all = ifaces@.map_values(
        |i: UsbInterfaceInfo| (
            i.class,
            match i.interface_string {
                Option::Some(s) => encode_utf8(s@),
                Option::None => Seq::<u8>::empty(),
            },
        ),
    );
    let mut has_hid = false;
    let mut has_v2 = false;
    let mut k: usize = ifaces.len();
    while k > 0
        invariant
            k <= all.len(),
            all == ifaces@.map_values(
                |i: UsbInterfaceInfo| (
                    i.class,
                    match i.interface_string {
                        Option::Some(s) => encode_utf8(s@),
                        Option::None => Seq::<u8>::empty(),
                    },
                ),
            ),
            (has_hid, has_v2) == spec_fold_caps(all, product_is_cmsis, k as int),
        decreases k,
    {
        k = k - 1;
        let iface = &ifaces[k];
        let is_cmsis = match &iface.interface_string {
            Some(s) => is_cmsis_dap_str(s.as_str()),
            None => {
                proof {
                    reveal_strlit("cmsis-dap");
                    reveal_strlit("cmsis_dap");
                    assert(lit_bytes("cmsis-dap").len() == 9);
                    assert(lit_bytes("cmsis_dap").len() == 9);
                    assert(lower_seq(Seq::<u8>::empty()).len() == 0);
                    assert(!spec_is_cmsis_dap(Seq::<u8>::empty())) by {
                        assert(forall|i: int|
                            !crate::bytestr::occurs_at(
                                lower_seq(Seq::<u8>::empty()),
                                lit_bytes("cmsis-dap"),
                                i,
                            ));
                        assert(forall|i: int|
                            !crate::bytestr::occurs_at(
                                lower_seq(Seq::<u8>::empty()),
                                lit_bytes("cmsis_dap"),
                                i,
                            ));
                    }
                }
                false
            },
        };
        if iface.class == 0x03 && (is_cmsis || product_is_cmsis) {
            has_hid = true;
        } else if iface.class == 0xff && (is_cmsis || product_is_cmsis) {
            has_v2 = true;
        }
    }
    (has_hid, has_v2)
}

/// The stable probe identifier `vvvv:pppp:serial`, hex fields zero
/// padded to four digits.
pub fn build_probe_id(vendor_id: u16, product_id: u16, serial_number: &Option<String>) -> (r:
    String)
    ensures
        r@ == lossy_of(
            hex_repr_pad(vendor_id as int, 4) + lit_bytes(":") + hex_repr_pad(
                product_id as int,
                4,
            ) + lit_bytes(":") + (match serial_number {
                Option::Some(s) => encode_utf8(s@),
                Option::None => Seq::<u8>::empty(),
            }),
        ),
{
    proof {
        reveal_strlit(":");
        assert(":".is_ascii());
    }
    let mut out: Vec<u8> = Vec::new();
    push_hex_u64_pad4(&mut out, vendor_id as u64);
    push_str_bytes(&mut out, ":");
    push_hex_u64_pad4(&mut out, product_id as u64);
    push_str_bytes(&mut out, ":");
    match serial_number {
        Some(s) => {
            push_bytes(&mut out, s.as_str().as_bytes());
        },
        None => {},
    }
    proof {
        assert(out@ =~= hex_repr_pad(vendor_id as int, 4) + lit_bytes(":") + hex_repr_pad(
            product_id as int,
            4,
        ) + lit_bytes(":") + (match serial_number {
            Option::Some(s) => encode_utf8(s@),
            Option::None => Seq::<u8>::empty(),
        }));
    }
    bytes_to_string(out.as_slice())
}

/// A non-empty serial, as matching treats empties like absences.
pub open spec fn norm_serial(s: Option<Seq<char>>) -> Option<Seq<char>> {
    match s {
        Option::Some(v) => if v.len() == 0 {
            None
        } else {
            Some(v)
        },
        Option::None => None,
    }
}

/// The capability entry belonging to a probe: same vendor and product
/// and the same (present, non-empty) serial; a probe without a serial
/// also takes an entry without one, or failing everything, the first
/// entry of its vendor and product.
pub open spec fn spec_match_caps(
    caps: Seq<(u16, u16, Option<Seq<char>>, bool, bool)>,
    vid: u16,
    pid: u16,
    serial: Option<Seq<char>>,
    i: int,
) -> Option<int>
    decreases caps.len() - i,
{
    if i < 0 || i >= caps.len() {
        None
    } else if caps[i].0 == vid && caps[i].1 == pid && norm_serial(serial) == norm_serial(
        caps[i].2,
    ) {
        Some(i)
    } else {
        spec_match_caps(caps, vid, pid, serial, i + 1)
    }
}

pub open spec fn spec_match_caps_vidpid(
    caps: Seq<(u16, u16, Option<Seq<char>>, bool, bool)>,
    vid: u16,
    pid: u16,
    i: int,
) -> Option<int>
    decreases caps.len() - i,
{
    if i < 0 || i >= caps.len() {
        None
    } else if caps[i].0 == vid && caps[i].1 == pid {
        Some(i)
    } else {
        spec_match_caps_vidpid(caps, vid, pid, i + 1)
    }
}

pub open spec fn caps_view(caps: Seq<CmsisDapCaps>) -> Seq<(u16, u16, Option<Seq<char>>, bool, bool)> {
    caps.map_values(
        |c: CmsisDapCaps| (
            c.vendor_id,
            c.product_id,
            match c.serial_number {
                Option::Some(s) => Some(s@),
                Option::None => None::<Seq<char>>,
            },
            c.has_hid,
            c.has_v2,
        ),
    )
}

/// Pairs one enumerated probe with the capability findings: first an
/// exact match on vendor, product and serial; a serial-less probe may
/// fall back to any entry of its vendor and product.
pub fn match_caps_for_probe<'a>(
    caps: &'a Vec<CmsisDapCaps>,
    vid: u16,
    pid: u16,
    serial: &Option<String>,
) -> (r: Option<&'a CmsisDapCaps>)
    ensures
        ({
            let cv = caps_view(caps@);
            let sv = match serial {
                Option::Some(s) => Some(s@),
                Option::None => None::<Seq<char>>,
            };
            match spec_match_caps(cv, vid, pid, sv, 0) {
                Option::Some(i) => r is Some && *r->0 == caps@[i],
                Option::None => {
                    if norm_serial(sv) is None {
                        match spec_match_caps_vidpid(cv, vid, pid, 0) {
                            Option::Some(i) => r is Some && *r->0 == caps@[i],
                            Option::None => r is None,
                        }
                    } else {
                        r is None
                    }
                },
            }
        }),
{
    let ghost cv = caps_view(caps@);
    let ghost sv = match serial {
        Option::Some(s) => Some(s@),
        Option::None => None::<Seq<char>>,
    };
    let probe_has_serial = match serial {
        Some(s) => s.as_str().as_bytes().len() > 0,
        None => false,
    };
    proof {
        match serial {
            Option::Some(s) => {
                crate::bytestr::lemma_encode_utf8_empty(s@);
            },
            Option::None => {},
        }
    }
    let mut i: usize = 0;
    while i < caps.len()
        invariant
            i <= cv.len(),
            cv == caps_view(caps@),
            sv == (match serial {
                Option::Some(s) => Some(s@),
                Option::None => None::<Seq<char>>,
            }),
            spec_match_caps(cv, vid, pid, sv, 0) == spec_match_caps(cv, vid, pid, sv, i as int),
        decreases cv.len() - i,
    {
        let c = &caps[i];
        if c.vendor_id == vid && c.product_id == pid {
            let serials_agree: bool = match (serial, &c.serial_number) {
                (Some(p), Some(q)) => {
                    proof {
                        crate::bytestr::lemma_encode_utf8_empty(p@);
                        crate::bytestr::lemma_encode_utf8_empty(q@);
                    }
                    if p.as_str().as_bytes().len() > 0 && q.as_str().as_bytes().len() > 0 {
                        serial_eq(p, q)
                    } else {
                        p.as_str().as_bytes().len() == 0 && q.as_str().as_bytes().len() == 0
                    }
                },
                (Some(p), None) => {
                    proof {
                        crate::bytestr::lemma_encode_utf8_empty(p@);
                    }
                    p.as_str().as_bytes().len() == 0
                },
                (None, Some(q)) => {
                    proof {
                        crate::bytestr::lemma_encode_utf8_empty(q@);
                    }
                    q.as_str().as_bytes().len() == 0
                },
                (None, None) => true,
            };
            if serials_agree {
                proof {
                    assert(cv[i as int] == (
                        c.vendor_id,
                        c.product_id,
                        match c.serial_number {
                            Option::Some(ref s) => Some(s@),
                            Option::None => None::<Seq<char>>,
                        },
                        c.has_hid,
                        c.has_v2,
                    ));
                    assert(norm_serial(sv) == norm_serial(cv[i as int].2));
                    assert(spec_match_caps(cv, vid, pid, sv, i as int) == Some(i as int));
                }
                return Some(c);
            }
        }
        proof {
            assert(cv[i as int] == (
                c.vendor_id,
                c.product_id,
                match c.serial_number {
                    Option::Some(ref s) => Some(s@),
                    Option::None => None::<Seq<char>>,
                },
                c.has_hid,
                c.has_v2,
            ));
        }
        i = i + 1;
    }
    if !probe_has_serial {
        proof {
            match serial {
                Option::Some(s) => {
                    crate::bytestr::lemma_encode_utf8_empty(s@);
                },
                Option::None => {},
            }
            assert(norm_serial(sv) is None);
        }
        let mut j: usize = 0;
        while j < caps.len()
            invariant
                j <= cv.len(),
                cv == caps_view(caps@),
                sv == (match serial {
                    Option::Some(s) => Some(s@),
                    Option::None => None::<Seq<char>>,
                }),
                norm_serial(sv) is None,
                spec_match_caps(cv, vid, pid, sv, 0) is None,
                spec_match_caps_vidpid(cv, vid, pid, 0) == spec_match_caps_vidpid(
                    cv,
                    vid,
                    pid,
                    j as int,
                ),
            decreases cv.len() - j,
        {
            let c = &caps[j];
            proof {
                assert(cv[j as int] == (
                    c.vendor_id,
                    c.product_id,
                    match c.serial_number {
                        Option::Some(ref s) => Some(s@),
                        Option::None => None::<Seq<char>>,
                    },
                    c.has_hid,
                    c.has_v2,
                ));
            }
            if c.vendor_id == vid && c.product_id == pid {
                proof {
                    assert(spec_match_caps_vidpid(cv, vid, pid, j as int) == Some(j as int));
                }
                return Some(c);
            }
            j = j + 1;
        }
        None
    } else {
        None
    }
}

/// Whether two serial strings are the same text.
fn serial_eq(a: &String, b: &String) -> (r: bool)
    ensures
        r == (a@ == b@),
{
    a.eq(b)
}

// ---------------------------------------------------------------------
// Chip identification.
// ---------------------------------------------------------------------

/// The identification registers probed in order: STM32 DBGMCU, the
/// STM32G0/G4 variant, the STM32 unique id, Nordic's FICR part number,
/// and the RP2040 chip id.
pub fn chip_id_probe_addresses() -> (r: Vec<u64>)
    ensures
        r@ =~= seq![0xe0042000u64, 0x40015800u64, 0x1ffff7e8u64, 0x10000060u64, 0x40000ff8u64],
{
    let mut v: Vec<u64> = Vec::new();
    v.push(0xe0042000);
    v.push(0x40015800);
    v.push(0x1ffff7e8);
    v.push(0x10000060);
    v.push(0x40000ff8);
    v
}

/// A readable identification value: neither all zeros nor all ones.
pub open spec fn valid_chip_id(v: u32) -> bool {
    v != 0 && v != 0xffffffffu32
}

/// The first successful, valid reading wins.
pub open spec fn spec_select_id(reads: Seq<Option<u32>>, i: int) -> Option<u32>
    decreases reads.len() - i,
{
    if i < 0 || i >= reads.len() {
        None
    } else {
        match reads[i] {
            Option::Some(v) => if valid_chip_id(v) {
                Some(v)
            } else {
                spec_select_id(reads, i + 1)
            },
            Option::None => spec_select_id(reads, i + 1),
        }
    }
}

/// Picks the chip id from the readings at the probe addresses, in
/// order: the first value that is neither zero nor all ones.
pub fn select_chip_id(reads: &Vec<Option<u32>>) -> (r: Option<u32>)
    ensures
        r == spec_select_id(reads@, 0),
        r is Some ==> valid_chip_id(r->0),
{
    proof {
        lemma_select_valid(reads@, 0);
    }
    let mut i: usize = 0;
    while i < reads.len()
        invariant
            i <= reads@.len(),
            spec_select_id(reads@, 0) == spec_select_id(reads@, i as int),
        decreases reads@.len() - i,
    {
        match reads[i] {
            Some(v) => {
                if v != 0 && v != 0xffffffff {
                    return Some(v);
                }
            },
            None => {},
        }
        i = i + 1;
    }
    None
}

proof fn lemma_select_valid(reads: Seq<Option<u32>>, i: int)
    requires
        0 <= i,
    ensures
        match spec_select_id(reads, i) {
            Option::Some(v) => valid_chip_id(v),
            Option::None => true,
        },
    decreases reads.len() - i,
{
    if i < reads.len() {
        lemma_select_valid(reads, i + 1);
    }
}

/// How the probe is attached: the protocol, the clock in kilohertz as
/// the probe library takes it, and whether the target is held in reset.
#[derive(Debug, Clone, Copy, PartialEq, Eq, Structural)]
pub struct AttachPlan {
    pub protocol: InterfaceType,
    pub speed_khz: Option<u32>,
    pub under_reset: bool,
}

/// Attach steps from a request: the caller's hertz become kilohertz.
pub fn attach_plan(options: &ConnectOptions) -> (r: AttachPlan)
    ensures
        r.protocol == options.interface_type,
        r.under_reset == (options.connect_mode == ConnectMode::UnderReset),
        match options.clock_speed {
            Option::Some(hz) => r.speed_khz == Some((hz / 1000) as u32),
            Option::None => r.speed_khz is None,
        },
{
    AttachPlan {
        protocol: options.interface_type,
        speed_khz: match options.clock_speed {
            Some(hz) => Some(hz / 1000),
            None => None,
        },
        under_reset: options.connect_mode == ConnectMode::UnderReset,
    }
}


/// One user-facing entry for one enumerated probe. A probe whose USB
/// introspection shows both the HID and the WinUSB transport yields
/// exactly this one entry, labelled with both; a single transport gets
/// its own label; without USB findings the probe library's type string
/// decides.
pub fn classify_probe(
    identifier: &String,
    vendor_id: u16,
    product_id: u16,
    serial_number: &Option<String>,
    probe_type_str: &String,
    caps: Option<&CmsisDapCaps>,
) -> (r: ProbeInfo)
    ensures
        r.identifier@ == identifier@,
        r.vendor_id == vendor_id,
        r.product_id == product_id,
        match caps {
            Option::Some(cap) => {
                &&& (cap.has_hid && cap.has_v2 ==> r.probe_type@ == "CmsisDap"@
                    && r.dap_version is Some && r.dap_version->0@ == "DAPv1+v2 (HID/WinUSB)"@)
                &&& (!cap.has_hid && cap.has_v2 ==> r.probe_type@ == "CmsisDapV2"@
                    && r.dap_version is Some && r.dap_version->0@ == "DAPv2 (WinUSB)"@)
                &&& (cap.has_hid && !cap.has_v2 ==> r.probe_type@ == "CmsisDap"@
                    && r.dap_version is Some && r.dap_version->0@ == "DAPv1 (HID)"@)
                &&& (!cap.has_hid && !cap.has_v2 ==> r.probe_type@ == probe_type_str@
                    && r.dap_version is None)
                &&& r.debug_info is Some && r.debug_info->0@ == cap.debug_info@
            },
            Option::None => {
                let up = crate::bytestr::upper_seq(encode_utf8(probe_type_str@));
                let dapish = contains_seq(up, lit_bytes("CMSIS")) || contains_seq(
                    up,
                    lit_bytes("DAP"),
                );
                &&& r.probe_type@ == probe_type_str@
                &&& (dapish && contains_seq(up, lit_bytes("V2")) ==> r.dap_version is Some
                    && r.dap_version->0@ == "DAPv2 (WinUSB)"@)
                &&& (dapish && !contains_seq(up, lit_bytes("V2")) ==> r.dap_version is Some
                    && r.dap_version->0@ == "DAPv1 (HID)"@)
                &&& (!dapish ==> r.dap_version is None)
                &&& r.debug_info is None
            },
        },
{
    proof {
        reveal_strlit("CMSIS");
        reveal_strlit("DAP");
        reveal_strlit("V2");
        assert("CMSIS".is_ascii() && "DAP".is_ascii() && "V2".is_ascii());
        assert(lit_bytes("CMSIS").len() == 5);
        assert(lit_bytes("DAP").len() == 3);
        assert(lit_bytes("V2").len() == 2);
    }
    let probe_id = build_probe_id(vendor_id, product_id, serial_number);
    let serial_clone: Option<String> = match serial_number {
        Some(s) => Some(s.clone()),
        None => None,
    };
    match caps {
        Some(cap) => {
            let (ptype, dap): (String, Option<String>) = if cap.has_hid && cap.has_v2 {
                (
                    String::from_str("CmsisDap"),
                    Some(String::from_str("DAPv1+v2 (HID/WinUSB)")),
                )
            } else if cap.has_v2 {
                (String::from_str("CmsisDapV2"), Some(String::from_str("DAPv2 (WinUSB)")))
            } else if cap.has_hid {
                (String::from_str("CmsisDap"), Some(String::from_str("DAPv1 (HID)")))
            } else {
                (probe_type_str.clone(), None)
            };
            ProbeInfo {
                probe_id,
                identifier: identifier.clone(),
                vendor_id,
                product_id,
                serial_number: serial_clone,
                probe_type: ptype,
                dap_version: dap,
                debug_info: Some(cap.debug_info.clone()),
            }
        },
        None => {
            let up = crate::bytestr::upper_vec(probe_type_str.as_str().as_bytes());
            let dapish = crate::bytestr::upper_contains(&up, "CMSIS")
                || crate::bytestr::upper_contains(&up, "DAP");
            let dap: Option<String> = if dapish {
                if crate::bytestr::upper_contains(&up, "V2") {
                    Some(String::from_str("DAPv2 (WinUSB)"))
                } else {
                    Some(String::from_str("DAPv1 (HID)"))
                }
            } else {
                None
            };
            ProbeInfo {
                probe_id,
                identifier: identifier.clone(),
                vendor_id,
                product_id,
                serial_number: serial_clone,
                probe_type: probe_type_str.clone(),
                dap_version: dap,
                debug_info: None,
            }
        },
    }
}

} // verus!
