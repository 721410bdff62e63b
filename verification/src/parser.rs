//! PDSC package header parsing: the pack's name, vendor, version,
//! description and device count. Real-world PDSC files state the
//! identity in several ways, so the reader makes up to three passes:
//! self-closing `package` attributes and the package description first,
//! then the `package` start tag's attributes, then the text of `name`,
//! `vendor` and `version` tags, each pass only filling what is still
//! empty.

use vstd::prelude::*;
use crate::bytestr::{bytes_eq_str, bytes_to_string, lit_bytes, lossy_of};
use crate::error::AppError;
use crate::manager::PackInfo;
use crate::xml::{
    find_byte, first_attr, get_first_attr, get_last_attr, last_attr, next_event, spec_next_event,
    ScanStep, ScanStepS, XmlAttr, XmlAttrS, XmlEvent, XmlEventS, XmlTag, XmlTagS,
};

verus! {

use vstd::string::StringSliceAdditionalSpecFns;

// ---------------------------------------------------------------------
// Entity unescaping (the five named XML entities).
// ---------------------------------------------------------------------

/// What a named entity stands for; `None` for anything else.
pub open spec fn entity_of(ent: Seq<u8>) -> Option<Seq<u8>> {
    if ent == lit_bytes("amp") {
        Some(lit_bytes("&"))
    } else if ent == lit_bytes("lt") {
        Some(lit_bytes("<"))
    } else if ent == lit_bytes("gt") {
        Some(lit_bytes(">"))
    } else if ent == lit_bytes("quot") {
        Some(lit_bytes("\""))
    } else if ent == lit_bytes("apos") {
        Some(lit_bytes("'"))
    } else {
        None
    }
}

/// The text with its named entities replaced; `None` when an ampersand
/// does not open a recognised entity.
pub open spec fn unescape_from(s: Seq<u8>, pos: int) -> Option<Seq<u8>>
    decreases (if pos < s.len() {
        s.len() - pos
    } else {
        0int
    }),
{
    if pos < 0 || pos >= s.len() {
        Some(Seq::empty())
    } else if s[pos] != 0x26 {
        match unescape_from(s, pos + 1) {
            Option::None => None,
            Option::Some(r) => Some(seq![s[pos]] + r),
        }
    } else {
        match find_byte(s, pos + 1, 0x3b) {
            Option::None => None,
            Option::Some(e) => {
                let rep = entity_of(s.subrange(pos + 1, e));
                match rep {
                    Option::None => None,
                    Option::Some(b) => if e + 1 <= pos {
                        None
                    } else {
                        match unescape_from(s, e + 1) {
                            Option::None => None,
                            Option::Some(r) => Some(b + r),
                        }
                    },
                }
            },
        }
    }
}

/// The unescaped text, or empty when malformed, as the header reader
/// treats description and identity text.
pub open spec fn unescape_or_empty(s: Seq<u8>) -> Seq<u8> {
    match unescape_from(s, 0) {
        Option::Some(r) => r,
        Option::None => Seq::empty(),
    }
}

proof fn lemma_entity_lits()
    ensures
        lit_bytes("amp").len() == 3,
        lit_bytes("lt").len() == 2,
        lit_bytes("gt").len() == 2,
        lit_bytes("quot").len() == 4,
        lit_bytes("apos").len() == 4,
        lit_bytes("amp") != lit_bytes("quot"),
        lit_bytes("amp") != lit_bytes("apos"),
        lit_bytes("lt") != lit_bytes("gt"),
        lit_bytes("quot") != lit_bytes("apos"),
{
    reveal_strlit("amp");
    reveal_strlit("lt");
    reveal_strlit("gt");
    reveal_strlit("quot");
    reveal_strlit("apos");
    assert(lit_bytes("lt")[0] == 0x6c);
    assert(lit_bytes("gt")[0] == 0x67);
    assert(lit_bytes("quot")[0] == 0x71);
    assert(lit_bytes("apos")[0] == 0x61);
}

fn entity_exec(ent: &[u8]) -> (r: Option<u8>)
    ensures
        match r {
            Some(b) => entity_of(ent@) == Some(seq![b]),
            None => entity_of(ent@) is None,
        },
{
    proof {
        lemma_entity_lits();
        reveal_strlit("amp");
        reveal_strlit("lt");
        reveal_strlit("gt");
        reveal_strlit("quot");
        reveal_strlit("apos");
        reveal_strlit("&");
        reveal_strlit("<");
        reveal_strlit(">");
        reveal_strlit("\"");
        reveal_strlit("'");
        assert("amp".is_ascii() && "lt".is_ascii() && "gt".is_ascii());
        assert("quot".is_ascii() && "apos".is_ascii());
        assert(lit_bytes("&") =~= seq![0x26u8]);
        assert(lit_bytes("<") =~= seq![0x3cu8]);
        assert(lit_bytes(">") =~= seq![0x3eu8]);
        assert(lit_bytes("\"") =~= seq![0x22u8]);
        assert(lit_bytes("'") =~= seq![0x27u8]);
    }
    if bytes_eq_str(ent, "amp") {
        Some(0x26)
    } else if bytes_eq_str(ent, "lt") {
        Some(0x3c)
    } else if bytes_eq_str(ent, "gt") {
        Some(0x3e)
    } else if bytes_eq_str(ent, "quot") {
        Some(0x22)
    } else if bytes_eq_str(ent, "apos") {
        Some(0x27)
    } else {
        None
    }
}

/// Replaces named entities; empty on malformed text.
fn unescape_exec(s: &[u8]) -> (r: Vec<u8>)
    ensures
        r@ == unescape_or_empty(s@),
{
    let mut out: Vec<u8> = Vec::new();
    let mut pos: usize = 0;
    while pos < s.len()
        invariant
            pos <= s@.len(),
            unescape_from(s@, 0) == match unescape_from(s@, pos as int) {
                Option::None => None::<Seq<u8>>,
                Option::Some(r) => Some(out@ + r),
            },
        decreases s@.len() - pos,
    {
        if s[pos] != 0x26 {
            out.push(s[pos]);
            proof {
                if unescape_from(s@, pos + 1 as int) is Some {
                    assert(out@ + unescape_from(s@, pos + 1 as int)->Some_0 =~= out@.drop_last()
                        + (seq![s@[pos as int]] + unescape_from(s@, pos + 1 as int)->Some_0));
                }
            }
            pos = pos + 1;
        } else {
            match crate::xml::exec_find_byte(s, pos + 1, 0x3b) {
                None => {
                    return Vec::new();
                },
                Some(e) => {
                    proof {
                        crate::xml::lemma_find_byte_props(s@, pos + 1 as int, 0x3b);
                    }
                    let ent = vstd::slice::slice_subrange(s, pos + 1, e);
                    match entity_exec(ent) {
                        None => {
                            return Vec::new();
                        },
                        Some(b) => {
                            out.push(b);
                            proof {
                                if unescape_from(s@, e + 1 as int) is Some {
                                    assert(out@ + unescape_from(s@, e + 1 as int)->Some_0
                                        =~= out@.drop_last() + (seq![b] + unescape_from(
                                        s@,
                                        e + 1 as int,
                                    )->Some_0));
                                }
                            }
                            pos = e + 1;
                        },
                    }
                },
            }
        }
    }
    proof {
        assert(out@ + Seq::<u8>::empty() =~= out@);
    }
    out
}

// ---------------------------------------------------------------------
// Pass one: self-closing package attributes, description, device count.
// ---------------------------------------------------------------------

/// The header reader's first-pass state.
pub ghost struct Pass1S {
    pub in_package: bool,
    pub in_description: bool,
    pub in_devices: bool,
    pub desc_read: bool,
    pub name: Seq<u8>,
    pub vendor: Seq<u8>,
    pub version: Seq<u8>,
    pub description: Seq<u8>,
    pub device_count: int,
}

struct Pass1 {
    in_package: bool,
    in_description: bool,
    in_devices: bool,
    desc_read: bool,
    name: Vec<u8>,
    vendor: Vec<u8>,
    version: Vec<u8>,
    description: Vec<u8>,
    device_count: usize,
}

impl View for Pass1 {
    type V = Pass1S;

    closed spec fn view(&self) -> Pass1S {
        Pass1S {
            in_package: self.in_package,
            in_description: self.in_description,
            in_devices: self.in_devices,
            desc_read: self.desc_read,
            name: self.name@,
            vendor: self.vendor@,
            version: self.version@,
            description: self.description@,
            device_count: self.device_count as int,
        }
    }
}

pub open spec fn count_one_more(c: int) -> int {
    if c >= usize::MAX {
        c
    } else {
        c + 1
    }
}

pub open spec fn pass1_step(st: Pass1S, ev: XmlEventS) -> Pass1S {
    match ev {
        XmlEventS::Start(tag) => if tag.name == lit_bytes("package") {
            Pass1S { in_package: true, ..st }
        } else if tag.name == lit_bytes("description") && st.in_package {
            Pass1S { in_description: true, ..st }
        } else if tag.name == lit_bytes("devices") {
            Pass1S { in_devices: true, ..st }
        } else if tag.name == lit_bytes("device") && st.in_devices {
            Pass1S { device_count: count_one_more(st.device_count), ..st }
        } else {
            st
        },
        XmlEventS::Text(t) => if st.in_description && st.in_package && !st.desc_read {
            Pass1S { description: unescape_or_empty(t), desc_read: true, ..st }
        } else {
            st
        },
        XmlEventS::End(name) => if name == lit_bytes("package") {
            Pass1S { in_package: false, ..st }
        } else if name == lit_bytes("description") {
            Pass1S { in_description: false, ..st }
        } else if name == lit_bytes("devices") {
            Pass1S { in_devices: false, ..st }
        } else {
            st
        },
        XmlEventS::Empty(tag) => {
            let st1 = if tag.name == lit_bytes("package") {
                Pass1S {
                    vendor: match last_attr(tag.attrs, lit_bytes("vendor")) {
                        Option::Some(v) => v,
                        Option::None => st.vendor,
                    },
                    name: match last_attr(tag.attrs, lit_bytes("name")) {
                        Option::Some(v) => v,
                        Option::None => st.name,
                    },
                    version: match last_attr(tag.attrs, lit_bytes("version")) {
                        Option::Some(v) => v,
                        Option::None => st.version,
                    },
                    ..st
                }
            } else {
                st
            };
            if tag.name == lit_bytes("device") && st1.in_devices {
                Pass1S { device_count: count_one_more(st1.device_count), ..st1 }
            } else {
                st1
            }
        },
    }
}

pub open spec fn pass1_init() -> Pass1S {
    Pass1S {
        in_package: false,
        in_description: false,
        in_devices: false,
        desc_read: false,
        name: Seq::empty(),
        vendor: Seq::empty(),
        version: Seq::empty(),
        description: Seq::empty(),
        device_count: 0,
    }
}

/// Pass one over the whole document; `None` on malformed XML.
pub open spec fn pass1_run(s: Seq<u8>, pos: int, st: Pass1S) -> Option<Pass1S>
    decreases s.len() - pos,
{
    match spec_next_event(s, pos) {
        ScanStepS::Failed => None,
        ScanStepS::Eof => Some(st),
        ScanStepS::Skip(p2) => if pos < p2 <= s.len() {
            pass1_run(s, p2, st)
        } else {
            None
        },
        ScanStepS::Event(ev, p2) => if pos < p2 <= s.len() {
            pass1_run(s, p2, pass1_step(st, ev))
        } else {
            None
        },
    }
}

proof fn lemma_header_lits()
    ensures
        lit_bytes("package").len() == 7,
        lit_bytes("description").len() == 11,
        lit_bytes("devices").len() == 7,
        lit_bytes("device").len() == 6,
        lit_bytes("name").len() == 4,
        lit_bytes("vendor").len() == 6,
        lit_bytes("version").len() == 7,
        lit_bytes("package") != lit_bytes("devices"),
        lit_bytes("vendor") != lit_bytes("device"),
        lit_bytes("version") != lit_bytes("package"),
        lit_bytes("version") != lit_bytes("devices"),
{
    reveal_strlit("package");
    reveal_strlit("description");
    reveal_strlit("devices");
    reveal_strlit("device");
    reveal_strlit("name");
    reveal_strlit("vendor");
    reveal_strlit("version");
    assert(lit_bytes("package")[0] == 0x70);
    assert(lit_bytes("devices")[0] == 0x64);
    assert(lit_bytes("vendor")[0] == 0x76);
    assert(lit_bytes("version")[0] == 0x76);
    assert(lit_bytes("version")[1] == 0x65);
    assert(lit_bytes("vendor")[1] == 0x65);
    assert(lit_bytes("vendor")[2] == 0x6e);
    assert(lit_bytes("version")[2] == 0x72);
    assert(lit_bytes("device")[0] == 0x64);
}

fn pass1_apply(st: &mut Pass1, ev: &XmlEvent)
    ensures
        final(st)@ == pass1_step(old(st)@, ev@),
{
    proof {
        lemma_header_lits();
        reveal_strlit("package");
        reveal_strlit("description");
        reveal_strlit("devices");
        reveal_strlit("device");
        reveal_strlit("name");
        reveal_strlit("vendor");
        reveal_strlit("version");
        assert("package".is_ascii() && "description".is_ascii());
        assert("devices".is_ascii() && "device".is_ascii());
        assert("name".is_ascii() && "vendor".is_ascii() && "version".is_ascii());
    }
    match ev {
        XmlEvent::Start(tag) => {
            if bytes_eq_str(tag.name.as_slice(), "package") {
                st.in_package = true;
            } else if bytes_eq_str(tag.name.as_slice(), "description") {
                if st.in_package {
                    st.in_description = true;
                }
            } else if bytes_eq_str(tag.name.as_slice(), "devices") {
                st.in_devices = true;
            } else if bytes_eq_str(tag.name.as_slice(), "device") {
                if st.in_devices {
                    if st.device_count < usize::MAX {
                        st.device_count = st.device_count + 1;
                    }
                }
            }
        },
        XmlEvent::Text(t) => {
            if st.in_description && st.in_package && !st.desc_read {
                st.description = unescape_exec(t.as_slice());
                st.desc_read = true;
            }
        },
        XmlEvent::End(name) => {
            if bytes_eq_str(name.as_slice(), "package") {
                st.in_package = false;
            } else if bytes_eq_str(name.as_slice(), "description") {
                st.in_description = false;
            } else if bytes_eq_str(name.as_slice(), "devices") {
                st.in_devices = false;
            }
        },
        XmlEvent::Empty(tag) => {
            if bytes_eq_str(tag.name.as_slice(), "package") {
                match get_last_attr(&tag.attrs, "vendor") {
                    Some(v) => {
                        st.vendor = v;
                    },
                    None => {},
                }
                match get_last_attr(&tag.attrs, "name") {
                    Some(v) => {
                        st.name = v;
                    },
                    None => {},
                }
                match get_last_attr(&tag.attrs, "version") {
                    Some(v) => {
                        st.version = v;
                    },
                    None => {},
                }
            }
            if bytes_eq_str(tag.name.as_slice(), "device") {
                if st.in_devices {
                    if st.device_count < usize::MAX {
                        st.device_count = st.device_count + 1;
                    }
                }
            }
        },
    }
}

fn pass1_exec(s: &[u8]) -> (r: Option<Pass1>)
    ensures
        match r {
            Some(st) => pass1_run(s@, 0, pass1_init()) == Some(st@),
            None => pass1_run(s@, 0, pass1_init()) is None,
        },
{
    let mut st = Pass1 {
        in_package: false,
        in_description: false,
        in_devices: false,
        desc_read: false,
        name: Vec::new(),
        vendor: Vec::new(),
        version: Vec::new(),
        description: Vec::new(),
        device_count: 0,
    };
    let mut pos: usize = 0;
    loop
        invariant
            pos <= s@.len(),
            pass1_run(s@, 0, pass1_init()) == pass1_run(s@, pos as int, st@),
        decreases s@.len() - pos,
    {
        match next_event(s, pos) {
            ScanStep::Eof => {
                return Some(st);
            },
            ScanStep::Failed => {
                return None;
            },
            ScanStep::Skip(p2) => {
                pos = p2;
            },
            ScanStep::Event(ev, p2) => {
                pass1_apply(&mut st, &ev);
                pos = p2;
            },
        }
    }
}

// ---------------------------------------------------------------------
// Pass two: the package start tag's attributes.
// ---------------------------------------------------------------------

/// What pass two fills in: each still-empty field takes the first
/// matching attribute of the first `package` start tag; the scan stops
/// there, and a scan error just ends it.
pub open spec fn pass2_run(s: Seq<u8>, pos: int, name: Seq<u8>, vendor: Seq<u8>) -> (
    Seq<u8>,
    Seq<u8>,
)
    decreases s.len() - pos,
{
    match spec_next_event(s, pos) {
        ScanStepS::Failed => (name, vendor),
        ScanStepS::Eof => (name, vendor),
        ScanStepS::Skip(p2) => if pos < p2 <= s.len() {
            pass2_run(s, p2, name, vendor)
        } else {
            (name, vendor)
        },
        ScanStepS::Event(ev, p2) => match ev {
            XmlEventS::Start(tag) => if tag.name == lit_bytes("package") {
                let vendor2 = if vendor.len() == 0 {
                    match first_attr(tag.attrs, lit_bytes("vendor")) {
                        Option::Some(v) => v,
                        Option::None => vendor,
                    }
                } else {
                    vendor
                };
                let name2 = if name.len() == 0 {
                    match first_attr(tag.attrs, lit_bytes("name")) {
                        Option::Some(v) => v,
                        Option::None => name,
                    }
                } else {
                    name
                };
                (name2, vendor2)
            } else {
                if pos < p2 <= s.len() {
                    pass2_run(s, p2, name, vendor)
                } else {
                    (name, vendor)
                }
            },
            _ => if pos < p2 <= s.len() {
                pass2_run(s, p2, name, vendor)
            } else {
                (name, vendor)
            },
        },
    }
}

fn pass2_exec(s: &[u8], name: &mut Vec<u8>, vendor: &mut Vec<u8>)
    ensures
        ({
            let g = pass2_run(s@, 0, old(name)@, old(vendor)@);
            final(name)@ == g.0 && final(vendor)@ == g.1
        }),
{
    proof {
        lemma_header_lits();
        reveal_strlit("package");
        reveal_strlit("name");
        reveal_strlit("vendor");
        assert("package".is_ascii() && "name".is_ascii() && "vendor".is_ascii());
    }
    let mut pos: usize = 0;
    loop
        invariant
            "package".is_ascii(),
            "name".is_ascii(),
            "vendor".is_ascii(),
            pos <= s@.len(),
            pass2_run(s@, 0, old(name)@, old(vendor)@) == pass2_run(
                s@,
                pos as int,
                name@,
                vendor@,
            ),
        decreases s@.len() - pos,
    {
        match next_event(s, pos) {
            ScanStep::Eof => {
                return ;
            },
            ScanStep::Failed => {
                return ;
            },
            ScanStep::Skip(p2) => {
                pos = p2;
            },
            ScanStep::Event(ev, p2) => {
                match &ev {
                    XmlEvent::Start(tag) => {
                        if bytes_eq_str(tag.name.as_slice(), "package") {
                            if vendor.len() == 0 {
                                match get_first_attr(&tag.attrs, "vendor") {
                                    Some(v) => {
                                        *vendor = v;
                                    },
                                    None => {},
                                }
                            }
                            if name.len() == 0 {
                                match get_first_attr(&tag.attrs, "name") {
                                    Some(v) => {
                                        *name = v;
                                    },
                                    None => {},
                                }
                            }
                            return ;
                        }
                    },
                    _ => {},
                }
                pos = p2;
            },
        }
    }
}

// ---------------------------------------------------------------------
// Pass three: identity from tag text.
// ---------------------------------------------------------------------

pub ghost struct Pass3S {
    pub cur_tag: Seq<u8>,
    pub name: Seq<u8>,
    pub vendor: Seq<u8>,
    pub version: Seq<u8>,
}

struct Pass3 {
    cur_tag: Vec<u8>,
    name: Vec<u8>,
    vendor: Vec<u8>,
    version: Vec<u8>,
}

impl View for Pass3 {
    type V = Pass3S;

    closed spec fn view(&self) -> Pass3S {
        Pass3S {
            cur_tag: self.cur_tag@,
            name: self.name@,
            vendor: self.vendor@,
            version: self.version@,
        }
    }
}

pub open spec fn pass3_step(st: Pass3S, ev: XmlEventS) -> Pass3S {
    match ev {
        XmlEventS::Start(tag) => Pass3S { cur_tag: tag.name, ..st },
        XmlEventS::End(_) => Pass3S { cur_tag: Seq::empty(), ..st },
        XmlEventS::Text(t) => {
            let text = unescape_or_empty(t);
            if st.cur_tag == lit_bytes("name") && st.name.len() == 0 {
                Pass3S { name: text, ..st }
            } else if st.cur_tag == lit_bytes("vendor") && st.vendor.len() == 0 {
                Pass3S { vendor: text, ..st }
            } else if st.cur_tag == lit_bytes("version") && st.version.len() == 0 {
                Pass3S { version: text, ..st }
            } else {
                st
            }
        },
        XmlEventS::Empty(_) => st,
    }
}

/// Pass three over the document; a scan error just ends it.
pub open spec fn pass3_run(s: Seq<u8>, pos: int, st: Pass3S) -> Pass3S
    decreases s.len() - pos,
{
    match spec_next_event(s, pos) {
        ScanStepS::Failed => st,
        ScanStepS::Eof => st,
        ScanStepS::Skip(p2) => if pos < p2 <= s.len() {
            pass3_run(s, p2, st)
        } else {
            st
        },
        ScanStepS::Event(ev, p2) => if pos < p2 <= s.len() {
            pass3_run(s, p2, pass3_step(st, ev))
        } else {
            st
        },
    }
}

fn pass3_apply(st: &mut Pass3, ev: &XmlEvent)
    ensures
        final(st)@ == pass3_step(old(st)@, ev@),
{
    proof {
        lemma_header_lits();
        reveal_strlit("name");
        reveal_strlit("vendor");
        reveal_strlit("version");
        assert("name".is_ascii() && "vendor".is_ascii() && "version".is_ascii());
    }
    match ev {
        XmlEvent::Start(tag) => {
            st.cur_tag = crate::bytestr::clone_bytes(&tag.name);
        },
        XmlEvent::End(_) => {
            st.cur_tag = Vec::new();
        },
        XmlEvent::Text(t) => {
            if bytes_eq_str(st.cur_tag.as_slice(), "name") && st.name.len() == 0 {
                st.name = unescape_exec(t.as_slice());
            } else if bytes_eq_str(st.cur_tag.as_slice(), "vendor") && st.vendor.len() == 0 {
                st.vendor = unescape_exec(t.as_slice());
            } else if bytes_eq_str(st.cur_tag.as_slice(), "version") && st.version.len() == 0 {
                st.version = unescape_exec(t.as_slice());
            }
        },
        XmlEvent::Empty(_) => {},
    }
}

fn pass3_exec(s: &[u8], st: &mut Pass3)
    ensures
        final(st)@ == pass3_run(s@, 0, old(st)@),
{
    let mut pos: usize = 0;
    loop
        invariant
            pos <= s@.len(),
            pass3_run(s@, 0, old(st)@) == pass3_run(s@, pos as int, st@),
        decreases s@.len() - pos,
    {
        match next_event(s, pos) {
            ScanStep::Eof => {
                return ;
            },
            ScanStep::Failed => {
                return ;
            },
            ScanStep::Skip(p2) => {
                pos = p2;
            },
            ScanStep::Event(ev, p2) => {
                pass3_apply(st, &ev);
                pos = p2;
            },
        }
    }
}

// ---------------------------------------------------------------------
// The header itself.
// ---------------------------------------------------------------------

pub ghost struct PackHeaderS {
    pub name: Seq<u8>,
    pub vendor: Seq<u8>,
    pub version: Seq<u8>,
    pub description: Seq<u8>,
    pub device_count: int,
}

/// What the three passes together yield; `None` on malformed XML.
pub open spec fn spec_parse_pdsc(s: Seq<u8>) -> Option<PackHeaderS> {
    match pass1_run(s, 0, pass1_init()) {
        Option::None => None,
        Option::Some(p1) => {
            let (name2, vendor2) = if p1.name.len() == 0 {
                pass2_run(s, 0, p1.name, p1.vendor)
            } else {
                (p1.name, p1.vendor)
            };
            let p3 = if name2.len() == 0 || vendor2.len() == 0 || p1.version.len() == 0 {
                pass3_run(
                    s,
                    0,
                    Pass3S {
                        cur_tag: Seq::empty(),
                        name: name2,
                        vendor: vendor2,
                        version: p1.version,
                    },
                )
            } else {
                Pass3S { cur_tag: Seq::empty(), name: name2, vendor: vendor2, version: p1.version }
            };
            Some(
                PackHeaderS {
                    name: p3.name,
                    vendor: p3.vendor,
                    version: p3.version,
                    description: p1.description,
                    device_count: p1.device_count,
                },
            )
        },
    }
}

/// What the parsed header decodes to, with the documented defaults for
/// missing fields.
pub open spec fn decode_header(h: PackHeaderS) -> (Seq<char>, Seq<char>, Seq<char>, Seq<char>) {
    (
        if h.name.len() == 0 {
            "Unknown"@
        } else {
            lossy_of(h.name)
        },
        if h.vendor.len() == 0 {
            "Unknown"@
        } else {
            lossy_of(h.vendor)
        },
        if h.version.len() == 0 {
            "1.0.0"@
        } else {
            lossy_of(h.version)
        },
        lossy_of(h.description),
    )
}

/// Parses a PDSC package header: the pack's name, vendor, version and
/// description, and how many devices it declares. Missing name and
/// vendor read `Unknown`, a missing version `1.0.0`.
pub fn parse_pdsc(content: &str) -> (r: Result<PackInfo, AppError>)
    ensures
        match spec_parse_pdsc(content.spec_bytes()) {
            Option::Some(h) => match r {
                Result::Ok(info) => {
                    let d = decode_header(h);
                    info.name@ == d.0 && info.vendor@ == d.1 && info.version@ == d.2
                        && info.description@ == d.3 && info.device_count as int == h.device_count
                },
                Result::Err(_) => false,
            },
            Option::None => r is Err && r->Err_0 is PackError,
        },
{
    let s = content.as_bytes();
    let p1 = match pass1_exec(s) {
        Some(p) => p,
        None => {
            return Err(AppError::PackError(String::from_str("malformed PDSC document")));
        },
    };
    let mut name = p1.name;
    let mut vendor = p1.vendor;
    let version = p1.version;
    if name.len() == 0 {
        pass2_exec(s, &mut name, &mut vendor);
    }
    let mut p3 = Pass3 { cur_tag: Vec::new(), name, vendor, version };
    if p3.name.len() == 0 || p3.vendor.len() == 0 || p3.version.len() == 0 {
        pass3_exec(s, &mut p3);
    }
    let info = PackInfo {
        name: if p3.name.len() == 0 {
            String::from_str("Unknown")
        } else {
            bytes_to_string(p3.name.as_slice())
        },
        vendor: if p3.vendor.len() == 0 {
            String::from_str("Unknown")
        } else {
            bytes_to_string(p3.vendor.as_slice())
        },
        version: if p3.version.len() == 0 {
            String::from_str("1.0.0")
        } else {
            bytes_to_string(p3.version.as_slice())
        },
        description: bytes_to_string(p1.description.as_slice()),
        device_count: p1.device_count,
    };
    Ok(info)
}

} // verus!
