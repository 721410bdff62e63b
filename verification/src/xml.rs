//! A small XML event scanner for the PDSC subset: start tags with
//! double- or single-quoted attributes, end tags, self-closing tags,
//! text, comments, processing instructions and DOCTYPE-style
//! declarations (the last three are skipped). Entities in text are
//! handled by the consumer; attribute values are handed out raw.

use vstd::prelude::*;
use crate::bytestr::{
    bytes_eq, byte_is_ws, find_at, find_pattern, is_ws, lit_bytes, trim_seq, trim_slice,
};

verus! {

use vstd::slice::slice_to_vec;
use vstd::string::StringSliceAdditionalSpecFns;

/// One attribute, name and raw (unescaped) value.
pub struct XmlAttr {
    pub name: Vec<u8>,
    pub value: Vec<u8>,
}

pub ghost struct XmlAttrS {
    pub name: Seq<u8>,
    pub value: Seq<u8>,
}

impl View for XmlAttr {
    type V = XmlAttrS;

    open spec fn view(&self) -> XmlAttrS {
        XmlAttrS { name: self.name@, value: self.value@ }
    }
}

/// A start or self-closing tag: its name and attributes in order.
pub struct XmlTag {
    pub name: Vec<u8>,
    pub attrs: Vec<XmlAttr>,
}

pub ghost struct XmlTagS {
    pub name: Seq<u8>,
    pub attrs: Seq<XmlAttrS>,
}

impl View for XmlTag {
    type V = XmlTagS;

    open spec fn view(&self) -> XmlTagS {
        XmlTagS { name: self.name@, attrs: self.attrs@.map_values(|a: XmlAttr| a@) }
    }
}

/// One event of the scanner.
pub enum XmlEvent {
    Start(XmlTag),
    Empty(XmlTag),
    End(Vec<u8>),
    Text(Vec<u8>),
}

pub ghost enum XmlEventS {
    Start(XmlTagS),
    Empty(XmlTagS),
    End(Seq<u8>),
    Text(Seq<u8>),
}

impl View for XmlEvent {
    type V = XmlEventS;

    open spec fn view(&self) -> XmlEventS {
        match self {
            XmlEvent::Start(t) => XmlEventS::Start(t@),
            XmlEvent::Empty(t) => XmlEventS::Empty(t@),
            XmlEvent::End(n) => XmlEventS::End(n@),
            XmlEvent::Text(t) => XmlEventS::Text(t@),
        }
    }
}

/// What one scanning step yields: an event and the position after it, a
/// position to silently skip to, the end of input, or a malformed document.
pub enum ScanStep {
    Event(XmlEvent, usize),
    Skip(usize),
    Eof,
    Failed,
}

pub ghost enum ScanStepS {
    Event(XmlEventS, int),
    Skip(int),
    Eof,
    Failed,
}

impl View for ScanStep {
    type V = ScanStepS;

    open spec fn view(&self) -> ScanStepS {
        match self {
            ScanStep::Event(e, p) => ScanStepS::Event(e@, *p as int),
            ScanStep::Skip(p) => ScanStepS::Skip(*p as int),
            ScanStep::Eof => ScanStepS::Eof,
            ScanStep::Failed => ScanStepS::Failed,
        }
    }
}

/// First index at or after `p` holding `b`, if any.
pub open spec fn find_byte(s: Seq<u8>, p: int, b: u8) -> Option<int>
    decreases s.len() - p,
{
    if p < 0 || p >= s.len() {
        None
    } else if s[p] == b {
        Some(p)
    } else {
        find_byte(s, p + 1, b)
    }
}

/// First index at or after `p` that is not ASCII whitespace, or the length.
pub open spec fn skip_ws(s: Seq<u8>, p: int) -> int
    decreases s.len() - p,
{
    if p < 0 || p >= s.len() {
        s.len() as int
    } else if is_ws(s[p]) {
        skip_ws(s, p + 1)
    } else {
        p
    }
}

/// First index at or after `p` holding whitespace or `=`, or the length.
pub open spec fn name_end(s: Seq<u8>, p: int) -> int
    decreases s.len() - p,
{
    if p < 0 || p >= s.len() {
        s.len() as int
    } else if is_ws(s[p]) || s[p] == 0x3d {
        p
    } else {
        name_end(s, p + 1)
    }
}

/// Attributes read from tag content starting at `p`: repeatedly a name,
/// `=`, and a quoted value. `None` when malformed.
pub open spec fn spec_parse_attrs(s: Seq<u8>, p: int) -> Option<Seq<XmlAttrS>>
    decreases s.len() - p,
{
    let q = skip_ws(s, p);
    if q >= s.len() {
        Some(Seq::empty())
    } else {
        let ne = name_end(s, q);
        if ne == q {
            None
        } else {
            let name = s.subrange(q, ne);
            let r = skip_ws(s, ne);
            if r >= s.len() || s[r] != 0x3d {
                None
            } else {
                let v = skip_ws(s, r + 1);
                if v >= s.len() || (s[v] != 0x22 && s[v] != 0x27) {
                    None
                } else {
                    match find_byte(s, v + 1, s[v]) {
                        Option::None => None,
                        Option::Some(e) => {
                            let value = s.subrange(v + 1, e);
                            if e + 1 <= p || e >= s.len() {
                                None
                            } else {
                                match spec_parse_attrs(s, e + 1) {
                                    Option::None => None,
                                    Option::Some(rest) => Some(
                                        seq![XmlAttrS { name, value }] + rest,
                                    ),
                                }
                            }
                        },
                    }
                }
            }
        }
    }
}

/// The tag parsed from the content between `<` and `>`: a name followed
/// by attributes.
pub open spec fn spec_parse_tag(s: Seq<u8>) -> Option<XmlTagS> {
    let ne = name_end(s, 0);
    let name = s.subrange(0, ne);
    match spec_parse_attrs(s, ne) {
        Option::None => None,
        Option::Some(attrs) => Some(XmlTagS { name, attrs }),
    }
}

/// The scanner's step at `pos`: which event starts there and where the
/// next one begins.
pub open spec fn spec_next_event(s: Seq<u8>, pos: int) -> ScanStepS {
    if pos < 0 {
        ScanStepS::Failed
    } else if pos >= s.len() {
        ScanStepS::Eof
    } else if s[pos] == 0x3c {
        if pos + 1 >= s.len() {
            ScanStepS::Failed
        } else {
            let c = s[pos + 1];
            if c == 0x21 {
                if pos + 3 < s.len() && s[pos + 2] == 0x2d && s[pos + 3] == 0x2d {
                    match find_at(s, lit_bytes("-->"), pos + 4) {
                        Option::Some(i) => ScanStepS::Skip(i + 3),
                        Option::None => ScanStepS::Failed,
                    }
                } else {
                    match find_byte(s, pos + 2, 0x3e) {
                        Option::Some(i) => ScanStepS::Skip(i + 1),
                        Option::None => ScanStepS::Failed,
                    }
                }
            } else if c == 0x3f {
                match find_at(s, lit_bytes("?>"), pos + 2) {
                    Option::Some(i) => ScanStepS::Skip(i + 2),
                    Option::None => ScanStepS::Failed,
                }
            } else if c == 0x2f {
                match find_byte(s, pos + 2, 0x3e) {
                    Option::Some(i) => ScanStepS::Event(
                        XmlEventS::End(trim_seq(s.subrange(pos + 2, i))),
                        i + 1,
                    ),
                    Option::None => ScanStepS::Failed,
                }
            } else {
                match find_byte(s, pos + 1, 0x3e) {
                    Option::None => ScanStepS::Failed,
                    Option::Some(i) => {
                        let inner = s.subrange(pos + 1, i);
                        if inner.len() > 0 && inner.last() == 0x2f {
                            match spec_parse_tag(inner.drop_last()) {
                                Option::Some(tag) => ScanStepS::Event(XmlEventS::Empty(tag), i + 1),
                                Option::None => ScanStepS::Failed,
                            }
                        } else {
                            match spec_parse_tag(inner) {
                                Option::Some(tag) => ScanStepS::Event(XmlEventS::Start(tag), i + 1),
                                Option::None => ScanStepS::Failed,
                            }
                        }
                    },
                }
            }
        }
    } else {
        let end = match find_byte(s, pos, 0x3c) {
            Option::Some(i) => i,
            Option::None => s.len() as int,
        };
        let t = trim_seq(s.subrange(pos, end));
        if t.len() == 0 {
            ScanStepS::Skip(end)
        } else {
            ScanStepS::Event(XmlEventS::Text(t), end)
        }
    }
}

pub proof fn lemma_find_byte_props(s: Seq<u8>, p: int, b: u8)
    requires
        0 <= p,
    ensures
        match find_byte(s, p, b) {
            Option::Some(i) => p <= i < s.len() && s[i] == b,
            Option::None => true,
        },
    decreases s.len() - p,
{
    if 0 <= p < s.len() && s[p] != b {
        lemma_find_byte_props(s, p + 1, b);
    }
}

proof fn lemma_find_at_bounds(s: Seq<u8>, pat: Seq<u8>, from: int)
    requires
        0 <= from,
        pat.len() >= 1,
    ensures
        match find_at(s, pat, from) {
            Option::Some(i) => from <= i && i + pat.len() <= s.len(),
            Option::None => true,
        },
    decreases s.len() - from,
{
    if from + pat.len() <= s.len() && s.subrange(from, from + pat.len()) != pat {
        lemma_find_at_bounds(s, pat, from + 1);
    }
}

/// Every event or skip moves strictly forward and stays in bounds.
pub proof fn lemma_next_event_advances(s: Seq<u8>, pos: int)
    requires
        0 <= pos,
    ensures
        match spec_next_event(s, pos) {
            ScanStepS::Event(_, p2) => pos < p2 <= s.len(),
            ScanStepS::Skip(p2) => pos < p2 <= s.len(),
            _ => true,
        },
{
    reveal_strlit("-->");
    reveal_strlit("?>");
    if pos < s.len() {
        if s[pos] == 0x3c {
            if pos + 1 < s.len() {
                let c = s[pos + 1];
                if c == 0x21 {
                    if pos + 3 < s.len() && s[pos + 2] == 0x2d && s[pos + 3] == 0x2d {
                        lemma_find_at_bounds(s, lit_bytes("-->"), pos + 4);
                    } else {
                        lemma_find_byte_props(s, pos + 2, 0x3e);
                    }
                } else if c == 0x3f {
                    lemma_find_at_bounds(s, lit_bytes("?>"), pos + 2);
                } else if c == 0x2f {
                    lemma_find_byte_props(s, pos + 2, 0x3e);
                } else {
                    lemma_find_byte_props(s, pos + 1, 0x3e);
                }
            }
        } else {
            lemma_find_byte_props(s, pos, 0x3c);
        }
    }
}

/// Linear search for one byte.
pub fn exec_find_byte(s: &[u8], p: usize, b: u8) -> (r: Option<usize>)
    ensures
        match r {
            Some(i) => find_byte(s@, p as int, b) == Some(i as int),
            None => find_byte(s@, p as int, b) is None,
        },
{
    let mut i: usize = p;
    while i < s.len()
        invariant
            p <= i,
            find_byte(s@, p as int, b) == find_byte(s@, i as int, b),
        decreases s@.len() - i,
    {
        if s[i] == b {
            return Some(i);
        }
        i = i + 1;
    }
    None
}

/// First non-whitespace position at or after `p`.
fn exec_skip_ws(s: &[u8], p: usize) -> (r: usize)
    requires
        p <= s@.len(),
    ensures
        r == skip_ws(s@, p as int),
        p <= r <= s@.len(),
{
    let mut i: usize = p;
    while i < s.len() && byte_is_ws(s[i])
        invariant
            p <= i <= s@.len(),
            skip_ws(s@, p as int) == skip_ws(s@, i as int),
        decreases s@.len() - i,
    {
        i = i + 1;
    }
    i
}

/// End of an attribute or tag name starting at `p`.
fn exec_name_end(s: &[u8], p: usize) -> (r: usize)
    requires
        p <= s@.len(),
    ensures
        r == name_end(s@, p as int),
        p <= r <= s@.len(),
{
    let mut i: usize = p;
    while i < s.len() && !byte_is_ws(s[i]) && s[i] != 0x3d
        invariant
            p <= i <= s@.len(),
            name_end(s@, p as int) == name_end(s@, i as int),
        decreases s@.len() - i,
    {
        i = i + 1;
    }
    i
}

/// Reads the attribute list of tag content `s` from `p` on into `out`.
fn parse_attrs_from(s: &[u8], p: usize, out: &mut Vec<XmlAttr>) -> (ok: bool)
    requires
        p <= s@.len(),
    ensures
        match spec_parse_attrs(s@, p as int) {
            Option::Some(rest) => ok && final(out)@.map_values(|a: XmlAttr| a@) == old(
                out,
            )@.map_values(|a: XmlAttr| a@) + rest,
            Option::None => !ok,
        },
    decreases s@.len() - p,
{
    let q = exec_skip_ws(s, p);
    if q >= s.len() {
        proof {
            assert(old(out)@.map_values(|a: XmlAttr| a@) + Seq::<XmlAttrS>::empty() =~= old(
                out,
            )@.map_values(|a: XmlAttr| a@));
        }
        return true;
    }
    let ne = exec_name_end(s, q);
    if ne == q {
        return false;
    }
    let name = slice_to_vec(vstd::slice::slice_subrange(s, q, ne));
    let r = exec_skip_ws(s, ne);
    if r >= s.len() || s[r] != 0x3d {
        return false;
    }
    let v = exec_skip_ws(s, r + 1);
    if v >= s.len() || (s[v] != 0x22 && s[v] != 0x27) {
        return false;
    }
    match exec_find_byte(s, v + 1, s[v]) {
        None => false,
        Some(e) => {
            proof {
                lemma_find_byte_props(s@, v + 1 as int, s@[v as int]);
            }
            let value = slice_to_vec(vstd::slice::slice_subrange(s, v + 1, e));
            out.push(XmlAttr { name, value });
            let ghost mid = out@.map_values(|a: XmlAttr| a@);
            let ok = parse_attrs_from(s, e + 1, out);
            proof {
                let old_map = old(out)@.map_values(|a: XmlAttr| a@);
                assert(mid =~= old_map + seq![
                    XmlAttrS {
                        name: s@.subrange(q as int, ne as int),
                        value: s@.subrange(v + 1 as int, e as int),
                    },
                ]);
                match spec_parse_attrs(s@, p as int) {
                    Option::Some(rest) => {
                        let tail = spec_parse_attrs(s@, e + 1 as int)->Some_0;
                        assert(old_map + (seq![
                            XmlAttrS {
                                name: s@.subrange(q as int, ne as int),
                                value: s@.subrange(v + 1 as int, e as int),
                            },
                        ] + tail) =~= mid + tail);
                    },
                    Option::None => {},
                }
            }
            ok
        },
    }
}

/// The tag in `content`, the text between `<` and `>`.
fn parse_tag(content: &[u8]) -> (r: Option<XmlTag>)
    ensures
        match r {
            Some(t) => spec_parse_tag(content@) == Some(t@),
            None => spec_parse_tag(content@) is None,
        },
{
    let ne = exec_name_end(content, 0);
    let name = slice_to_vec(vstd::slice::slice_subrange(content, 0, ne));
    let mut attrs: Vec<XmlAttr> = Vec::new();
    let ok = parse_attrs_from(content, ne, &mut attrs);
    if ok {
        proof {
            assert(Seq::<XmlAttrS>::empty() + spec_parse_attrs(content@, ne as int)->Some_0
                =~= spec_parse_attrs(content@, ne as int)->Some_0);
        }
        Some(XmlTag { name, attrs })
    } else {
        None
    }
}

/// Value of the last attribute named `name`, the one a reader that
/// overwrites earlier occurrences ends up with.
pub open spec fn last_attr(attrs: Seq<XmlAttrS>, name: Seq<u8>) -> Option<Seq<u8>>
    decreases attrs.len(),
{
    if attrs.len() == 0 {
        None
    } else if attrs.last().name == name {
        Some(attrs.last().value)
    } else {
        last_attr(attrs.drop_last(), name)
    }
}

/// Value of the first attribute named `name`.
pub open spec fn first_attr(attrs: Seq<XmlAttrS>, name: Seq<u8>) -> Option<Seq<u8>>
    decreases attrs.len(),
{
    if attrs.len() == 0 {
        None
    } else if attrs[0].name == name {
        Some(attrs[0].value)
    } else {
        first_attr(attrs.drop_first(), name)
    }
}

/// The value of the last attribute called `name`, if any.
pub fn get_last_attr(attrs: &Vec<XmlAttr>, name: &str) -> (r: Option<Vec<u8>>)
    requires
        name.is_ascii(),
    ensures
        match r {
            Some(v) => last_attr(attrs@.map_values(|a: XmlAttr| a@), lit_bytes(name)) == Some(v@),
            None => last_attr(attrs@.map_values(|a: XmlAttr| a@), lit_bytes(name)) is None,
        },
{
    let ghost all = attrs@.map_values(|a: XmlAttr| a@);
    proof {
        assert(all.subrange(0, all.len() as int) =~= all);
    }
    let mut i: usize = attrs.len();
    while i > 0
        invariant
            name.is_ascii(),
            i <= attrs@.len(),
            all == attrs@.map_values(|a: XmlAttr| a@),
            last_attr(all, lit_bytes(name)) == last_attr(
                all.subrange(0, i as int),
                lit_bytes(name),
            ),
        decreases i,
    {
        i = i - 1;
        proof {
            assert(all.subrange(0, i + 1 as int).last() == all[i as int]);
            assert(all.subrange(0, i + 1 as int).drop_last() =~= all.subrange(0, i as int));
        }
        if crate::bytestr::bytes_eq_str(attrs[i].name.as_slice(), name) {
            return Some(crate::bytestr::clone_bytes(&attrs[i].value));
        }
    }
    proof {
        assert(all.subrange(0, 0) =~= Seq::<XmlAttrS>::empty());
    }
    None
}

/// The value of the first attribute called `name`, if any.
pub fn get_first_attr(attrs: &Vec<XmlAttr>, name: &str) -> (r: Option<Vec<u8>>)
    requires
        name.is_ascii(),
    ensures
        match r {
            Some(v) => first_attr(attrs@.map_values(|a: XmlAttr| a@), lit_bytes(name)) == Some(v@),
            None => first_attr(attrs@.map_values(|a: XmlAttr| a@), lit_bytes(name)) is None,
        },
{
    let ghost all = attrs@.map_values(|a: XmlAttr| a@);
    proof {
        assert(all.subrange(0, all.len() as int) =~= all);
    }
    let mut i: usize = 0;
    while i < attrs.len()
        invariant
            name.is_ascii(),
            i <= attrs@.len(),
            all == attrs@.map_values(|a: XmlAttr| a@),
            first_attr(all, lit_bytes(name)) == first_attr(
                all.subrange(i as int, all.len() as int),
                lit_bytes(name),
            ),
        decreases attrs@.len() - i,
    {
        proof {
            assert(all.subrange(i as int, all.len() as int)[0] == all[i as int]);
            assert(all.subrange(i as int, all.len() as int).drop_first() =~= all.subrange(
                i + 1 as int,
                all.len() as int,
            ));
        }
        if crate::bytestr::bytes_eq_str(attrs[i].name.as_slice(), name) {
            return Some(crate::bytestr::clone_bytes(&attrs[i].value));
        }
        i = i + 1;
    }
    proof {
        assert(all.subrange(all.len() as int, all.len() as int) =~= Seq::<XmlAttrS>::empty());
    }
    None
}

/// Scans the event that starts at `pos`.
pub fn next_event(s: &[u8], pos: usize) -> (r: ScanStep)
    ensures
        r@ == spec_next_event(s@, pos as int),
        match r {
            ScanStep::Event(_, p2) => pos < p2 <= s@.len(),
            ScanStep::Skip(p2) => pos < p2 <= s@.len(),
            _ => true,
        },
{
    proof {
        lemma_next_event_advances(s@, pos as int);
        reveal_strlit("-->");
        reveal_strlit("?>");
        broadcast use vstd::string::is_ascii_spec_bytes;

        assert("-->".is_ascii());
        assert("?>".is_ascii());
        assert("-->".spec_bytes() =~= lit_bytes("-->"));
        assert("?>".spec_bytes() =~= lit_bytes("?>"));
    }
    if pos >= s.len() {
        return ScanStep::Eof;
    }
    if s[pos] == 0x3c {
        if pos + 1 >= s.len() {
            return ScanStep::Failed;
        }
        let c = s[pos + 1];
        if c == 0x21 {
            if s.len() - pos > 3 && s[pos + 2] == 0x2d && s[pos + 3] == 0x2d {
                match find_pattern(s, "-->".as_bytes(), pos + 4) {
                    Some(i) => ScanStep::Skip(i + 3),
                    None => ScanStep::Failed,
                }
            } else {
                match exec_find_byte(s, pos + 2, 0x3e) {
                    Some(i) => ScanStep::Skip(i + 1),
                    None => ScanStep::Failed,
                }
            }
        } else if c == 0x3f {
            match find_pattern(s, "?>".as_bytes(), pos + 2) {
                Some(i) => ScanStep::Skip(i + 2),
                None => ScanStep::Failed,
            }
        } else if c == 0x2f {
            match exec_find_byte(s, pos + 2, 0x3e) {
                Some(i) => {
                    proof {
                        lemma_find_byte_props(s@, pos + 2 as int, 0x3e);
                    }
                    let name = trim_slice(vstd::slice::slice_subrange(s, pos + 2, i));
                    ScanStep::Event(XmlEvent::End(name), i + 1)
                },
                None => ScanStep::Failed,
            }
        } else {
            match exec_find_byte(s, pos + 1, 0x3e) {
                None => ScanStep::Failed,
                Some(i) => {
                    proof {
                        lemma_find_byte_props(s@, pos + 1 as int, 0x3e);
                    }
                    let inner = vstd::slice::slice_subrange(s, pos + 1, i);
                    if inner.len() > 0 && inner[inner.len() - 1] == 0x2f {
                        let stripped = vstd::slice::slice_subrange(inner, 0, inner.len() - 1);
                        proof {
                            assert(stripped@ =~= inner@.drop_last());
                        }
                        match parse_tag(stripped) {
                            Some(tag) => ScanStep::Event(XmlEvent::Empty(tag), i + 1),
                            None => ScanStep::Failed,
                        }
                    } else {
                        match parse_tag(inner) {
                            Some(tag) => ScanStep::Event(XmlEvent::Start(tag), i + 1),
                            None => ScanStep::Failed,
                        }
                    }
                },
            }
        }
    } else {
        let end = match exec_find_byte(s, pos, 0x3c) {
            Some(i) => {
                proof {
                    lemma_find_byte_props(s@, pos as int, 0x3c);
                }
                i
            },
            None => s.len(),
        };
        let t = trim_slice(vstd::slice::slice_subrange(s, pos, end));
        if t.len() == 0 {
            ScanStep::Skip(end)
        } else {
            ScanStep::Event(XmlEvent::Text(t), end)
        }
    }
}


/// `find_byte` finds exactly the first position that holds the byte.
pub proof fn lemma_find_byte_witness(s: Seq<u8>, p: int, b: u8, idx: int)
    requires
        0 <= p <= idx < s.len(),
        s[idx] == b,
        forall|j: int| p <= j < idx ==> s[j] != b,
    ensures
        find_byte(s, p, b) == Some(idx),
    decreases idx - p,
{
    if p < idx {
        lemma_find_byte_witness(s, p + 1, b, idx);
    }
}

} // verus!
