//! Byte-level text utilities shared by the parsers and emitters: ASCII case
//! folding, substring search, trimming, and numeric parsing / formatting.

use vstd::prelude::*;

verus! {

use vstd::slice::slice_to_vec;
use vstd::string::StringSliceAdditionalSpecFns;
use vstd::utf8::*;

/// ASCII whitespace as the XML and YAML layers treat it.
pub open spec fn is_ws(b: u8) -> bool {
    b == 0x20 || b == 0x09 || b == 0x0a || b == 0x0d
}

/// One byte folded to ASCII upper case.
pub open spec fn upper_byte(b: u8) -> u8 {
    if 0x61 <= b <= 0x7a {
        (b - 0x20) as u8
    } else {
        b
    }
}

/// One byte folded to ASCII lower case.
pub open spec fn lower_byte(b: u8) -> u8 {
    if 0x41 <= b <= 0x5a {
        (b + 0x20) as u8
    } else {
        b
    }
}

pub open spec fn upper_seq(s: Seq<u8>) -> Seq<u8> {
    s.map_values(|b: u8| upper_byte(b))
}

pub open spec fn lower_seq(s: Seq<u8>) -> Seq<u8> {
    s.map_values(|b: u8| lower_byte(b))
}

/// The bytes of an ASCII string literal, for use in contracts.
pub open spec fn lit_bytes(s: &str) -> Seq<u8> {
    s@.map_values(|c: char| c as u8)
}

pub fn byte_is_ws(b: u8) -> (r: bool)
    ensures
        r == is_ws(b),
{
    b == 0x20 || b == 0x09 || b == 0x0a || b == 0x0d
}

pub fn to_upper(b: u8) -> (r: u8)
    ensures
        r == upper_byte(b),
{
    if 0x61 <= b && b <= 0x7a {
        b - 0x20
    } else {
        b
    }
}

pub fn to_lower(b: u8) -> (r: u8)
    ensures
        r == lower_byte(b),
{
    if 0x41 <= b && b <= 0x5a {
        b + 0x20
    } else {
        b
    }
}

/// Upper-cased copy of a byte string.
pub fn upper_vec(s: &[u8]) -> (r: Vec<u8>)
    ensures
        r@ == upper_seq(s@),
{
    let mut out: Vec<u8> = Vec::new();
    let mut i: usize = 0;
    while i < s.len()
        invariant
            i <= s.len(),
            out@ == upper_seq(s@.subrange(0, i as int)),
        decreases s.len() - i,
    {
        out.push(to_upper(s[i]));
        proof {
            assert(upper_seq(s@.subrange(0, i + 1 as int)) =~= upper_seq(
                s@.subrange(0, i as int),
            ).push(upper_byte(s@[i as int])));
        }
        i = i + 1;
    }
    proof {
        assert(s@.subrange(0, s@.len() as int) =~= s@);
    }
    out
}

/// Lower-cased copy of a byte string.
pub fn lower_vec(s: &[u8]) -> (r: Vec<u8>)
    ensures
        r@ == lower_seq(s@),
{
    let mut out: Vec<u8> = Vec::new();
    let mut i: usize = 0;
    while i < s.len()
        invariant
            i <= s.len(),
            out@ == lower_seq(s@.subrange(0, i as int)),
        decreases s.len() - i,
    {
        out.push(to_lower(s[i]));
        proof {
            assert(lower_seq(s@.subrange(0, i + 1 as int)) =~= lower_seq(
                s@.subrange(0, i as int),
            ).push(lower_byte(s@[i as int])));
        }
        i = i + 1;
    }
    proof {
        assert(s@.subrange(0, s@.len() as int) =~= s@);
    }
    out
}

/// Whether two byte strings are equal.
pub fn bytes_eq(a: &[u8], b: &[u8]) -> (r: bool)
    ensures
        r == (a@ == b@),
{
    if a.len() != b.len() {
        proof {
            assert(a@.len() != b@.len());
        }
        return false;
    }
    let mut i: usize = 0;
    while i < a.len()
        invariant
            i <= a.len(),
            a@.len() == b@.len(),
            forall|j: int| 0 <= j < i ==> a@[j] == b@[j],
        decreases a.len() - i,
    {
        if a[i] != b[i] {
            return false;
        }
        i = i + 1;
    }
    proof {
        assert(a@ =~= b@);
    }
    true
}

/// Whether the byte string equals the bytes of an ASCII string literal.
pub fn bytes_eq_str(a: &[u8], s: &str) -> (r: bool)
    requires
        s.is_ascii(),
    ensures
        r == (a@ == lit_bytes(s)),
{
    proof {
        broadcast use vstd::string::is_ascii_spec_bytes;

        assert(s.spec_bytes() =~= lit_bytes(s));
    }
    bytes_eq(a, s.as_bytes())
}

/// Whether `pat` occurs at position `i` of `hay`.
pub open spec fn occurs_at(hay: Seq<u8>, pat: Seq<u8>, i: int) -> bool {
    0 <= i && i + pat.len() <= hay.len() && hay.subrange(i, i + pat.len()) == pat
}

/// Whether `pat` occurs anywhere in `hay`.
pub open spec fn contains_seq(hay: Seq<u8>, pat: Seq<u8>) -> bool {
    exists|i: int| occurs_at(hay, pat, i)
}

/// First position at or after `from` where `pat` occurs, if any.
pub open spec fn find_at(hay: Seq<u8>, pat: Seq<u8>, from: int) -> Option<int>
    decreases hay.len() - from,
{
    if from < 0 || pat.len() == 0 || from + pat.len() > hay.len() {
        None
    } else if hay.subrange(from, from + pat.len()) == pat {
        Some(from)
    } else {
        find_at(hay, pat, from + 1)
    }
}

proof fn lemma_find_at_props(hay: Seq<u8>, pat: Seq<u8>, from: int)
    requires
        0 <= from,
        pat.len() >= 1,
    ensures
        match find_at(hay, pat, from) {
            Some(i) => occurs_at(hay, pat, i) && from <= i && forall|j: int|
                from <= j < i ==> !occurs_at(hay, pat, j),
            None => forall|j: int| from <= j ==> !occurs_at(hay, pat, j),
        },
    decreases hay.len() - from,
{
    if from + pat.len() > hay.len() {
    } else if hay.subrange(from, from + pat.len()) == pat {
    } else {
        lemma_find_at_props(hay, pat, from + 1);
    }
}

/// Search for `pat` in `hay` starting at `from`; returns the first match.
pub fn find_pattern(hay: &[u8], pat: &[u8], from: usize) -> (r: Option<usize>)
    requires
        pat@.len() >= 1,
    ensures
        match r {
            Some(i) => from <= i && find_at(hay@, pat@, from as int) == Some(i as int),
            None => find_at(hay@, pat@, from as int) is None,
        },
{
    if pat.len() > hay.len() {
        proof {
            lemma_find_at_none_when_short(hay@, pat@, from as int);
        }
        return None;
    }
    let last = hay.len() - pat.len();
    let mut i: usize = from;
    while i <= last
        invariant
            from <= i,
            pat@.len() >= 1,
            pat@.len() <= hay@.len(),
            hay@.len() <= usize::MAX,
            last == hay@.len() - pat@.len(),
            find_at(hay@, pat@, from as int) == find_at(hay@, pat@, i as int),
        decreases last + 1 - i,
    {
        assert(i + pat@.len() <= hay@.len());
        let piece = vstd::slice::slice_subrange(hay, i, i + pat.len());
        if bytes_eq(piece, pat) {
            proof {
                assert(find_at(hay@, pat@, i as int) == Some(i as int));
            }
            return Some(i);
        }
        proof {
            assert(find_at(hay@, pat@, i as int) == find_at(hay@, pat@, i + 1 as int));
        }
        i = i + 1;
    }
    proof {
        assert(find_at(hay@, pat@, i as int) is None);
    }
    None
}

proof fn lemma_find_at_none_when_short(hay: Seq<u8>, pat: Seq<u8>, from: int)
    requires
        pat.len() > hay.len(),
        0 <= from,
    ensures
        find_at(hay, pat, from) is None,
    decreases hay.len() - from,
{
    if from + pat.len() <= hay.len() {
    } else {
    }
}

/// Whether `hay` contains `pat`, by linear search.
pub fn contains_pattern(hay: &[u8], pat: &[u8]) -> (r: bool)
    requires
        pat@.len() >= 1,
    ensures
        r == contains_seq(hay@, pat@),
{
    let found = find_pattern(hay, pat, 0);
    proof {
        lemma_find_at_props(hay@, pat@, 0);
        if found is Some {
            assert(occurs_at(hay@, pat@, found->0 as int));
        } else {
            assert(forall|j: int| !occurs_at(hay@, pat@, j)) by {
                assert forall|j: int| !occurs_at(hay@, pat@, j) by {
                    if 0 <= j {
                        assert(!occurs_at(hay@, pat@, j));
                    }
                }
            }
        }
    }
    found.is_some()
}

/// `s` with leading ASCII whitespace removed.
pub open spec fn trim_left(s: Seq<u8>) -> Seq<u8>
    decreases s.len(),
{
    if s.len() > 0 && is_ws(s[0]) {
        trim_left(s.drop_first())
    } else {
        s
    }
}

/// `s` with trailing ASCII whitespace removed.
pub open spec fn trim_right(s: Seq<u8>) -> Seq<u8>
    decreases s.len(),
{
    if s.len() > 0 && is_ws(s.last()) {
        trim_right(s.drop_last())
    } else {
        s
    }
}

/// `s` with whitespace removed on both sides.
pub open spec fn trim_seq(s: Seq<u8>) -> Seq<u8> {
    trim_right(trim_left(s))
}

proof fn lemma_trim_left_range(s: Seq<u8>, a: int)
    requires
        0 <= a <= s.len(),
        forall|j: int| 0 <= j < a ==> is_ws(s[j]),
        a < s.len() ==> !is_ws(s[a]),
    ensures
        trim_left(s) == s.subrange(a, s.len() as int),
    decreases a,
{
    if a == 0 {
        assert(s.subrange(0, s.len() as int) =~= s);
    } else {
        assert(is_ws(s[0]));
        lemma_trim_left_range(s.drop_first(), a - 1);
        assert(s.drop_first().subrange(a - 1, s.drop_first().len() as int) =~= s.subrange(
            a,
            s.len() as int,
        ));
    }
}

proof fn lemma_trim_right_range(s: Seq<u8>, b: int)
    requires
        0 <= b <= s.len(),
        forall|j: int| b <= j < s.len() ==> is_ws(s[j]),
        b > 0 ==> !is_ws(s[b - 1]),
    ensures
        trim_right(s) == s.subrange(0, b),
    decreases s.len() - b,
{
    if b == s.len() {
        assert(s.subrange(0, s.len() as int) =~= s);
    } else {
        assert(is_ws(s.last()));
        lemma_trim_right_range(s.drop_last(), b);
        assert(s.drop_last().subrange(0, b) =~= s.subrange(0, b));
    }
}

/// Copy of `s` with surrounding ASCII whitespace removed.
pub fn trim_slice(s: &[u8]) -> (r: Vec<u8>)
    ensures
        r@ == trim_seq(s@),
{
    let mut a: usize = 0;
    while a < s.len() && byte_is_ws(s[a])
        invariant
            a <= s@.len(),
            forall|j: int| 0 <= j < a ==> is_ws(s@[j]),
        decreases s@.len() - a,
    {
        a = a + 1;
    }
    proof {
        lemma_trim_left_range(s@, a as int);
    }
    let mut b: usize = s.len();
    while b > a && byte_is_ws(s[b - 1])
        invariant
            a <= b <= s@.len(),
            forall|j: int| b <= j < s@.len() ==> is_ws(s@[j]),
        decreases b,
    {
        b = b - 1;
    }
    let ghost left = s@.subrange(a as int, s@.len() as int);
    proof {
        assert forall|j: int| b - a <= j < left.len() implies is_ws(left[j]) by {
            assert(left[j] == s@[j + a]);
        }
        if b > a {
            assert(left[b - a - 1] == s@[b - 1]);
        }
        lemma_trim_right_range(left, b - a);
        assert(left.subrange(0, b - a) =~= s@.subrange(a as int, b as int));
    }
    slice_to_vec(vstd::slice::slice_subrange(s, a, b))
}

/// Numeric value of an ASCII digit under the given radix, if it is one.
pub open spec fn digit_val(b: u8, radix: int) -> Option<int> {
    let v = if 0x30 <= b <= 0x39 {
        (b - 0x30) as int
    } else if 0x61 <= b <= 0x66 {
        b - 0x61 + 10
    } else if 0x41 <= b <= 0x46 {
        b - 0x41 + 10
    } else {
        99
    };
    if v < radix {
        Some(v)
    } else {
        None
    }
}

/// Digits folded left to right onto `acc`; `None` when a byte is not a digit.
pub open spec fn fold_digits(s: Seq<u8>, radix: int, acc: int) -> Option<int>
    decreases s.len(),
{
    if s.len() == 0 {
        Some(acc)
    } else {
        match digit_val(s[0], radix) {
            Option::None => None,
            Option::Some(d) => fold_digits(s.drop_first(), radix, acc * radix + d),
        }
    }
}

/// Unbounded value of a digit string, with one optional leading `+`,
/// as `u64::from_str_radix` reads it; `None` when malformed.
pub open spec fn parse_radix(s: Seq<u8>, radix: int) -> Option<int> {
    let t = if s.len() > 0 && s[0] == 0x2b {
        s.drop_first()
    } else {
        s
    };
    if t.len() == 0 {
        None
    } else {
        fold_digits(t, radix, 0)
    }
}

/// Value of a trimmed numeral: `0x`/`0X` prefix selects base 16, else base 10.
/// `None` on a malformed numeral or one above `u64::MAX`.
pub open spec fn spec_parse_hex_or_dec(s: Seq<u8>) -> Option<u64> {
    let t = trim_seq(s);
    let parsed = if t.len() >= 2 && t[0] == 0x30 && (t[1] == 0x78 || t[1] == 0x58) {
        parse_radix(t.subrange(2, t.len() as int), 16)
    } else {
        parse_radix(t, 10)
    };
    match parsed {
        Option::None => None,
        Option::Some(v) => if v <= u64::MAX {
            Some(v as u64)
        } else {
            None
        },
    }
}

proof fn lemma_fold_digits_ge(s: Seq<u8>, radix: int, acc: int)
    requires
        radix >= 2,
        acc >= 0,
    ensures
        match fold_digits(s, radix, acc) {
            Option::Some(v) => v >= acc,
            Option::None => true,
        },
    decreases s.len(),
{
    if s.len() > 0 {
        match digit_val(s[0], radix) {
            Option::None => {}
            Option::Some(d) => {
                assert(acc * radix + d >= acc) by (nonlinear_arith)
                    requires
                        acc >= 0,
                        radix >= 2,
                        d >= 0,
                ;
                lemma_fold_digits_ge(s.drop_first(), radix, acc * radix + d);
            }
        }
    }
}

fn exec_digit_val(b: u8, radix: u64) -> (r: Option<u64>)
    requires
        radix == 10 || radix == 16,
    ensures
        match r {
            Some(v) => digit_val(b, radix as int) == Some(v as int) && v < radix,
            None => digit_val(b, radix as int) is None,
        },
{
    let v: u64 = if 0x30 <= b && b <= 0x39 {
        (b - 0x30) as u64
    } else if 0x61 <= b && b <= 0x66 {
        (b - 0x61) as u64 + 10
    } else if 0x41 <= b && b <= 0x46 {
        (b - 0x41) as u64 + 10
    } else {
        99
    };
    if v < radix {
        Some(v)
    } else {
        None
    }
}

/// Digits of `s` read under `radix`, with bounds checking against `u64`.
fn parse_digits_u64(s: &[u8], radix: u64) -> (r: Option<u64>)
    requires
        radix == 10 || radix == 16,
    ensures
        match r {
            Some(v) => parse_radix(s@, radix as int) == Some(v as int),
            None => match parse_radix(s@, radix as int) {
                Option::Some(v) => v > u64::MAX,
                Option::None => true,
            },
        },
{
    let mut i: usize = 0;
    if s.len() > 0 && s[0] == 0x2b {
        i = 1;
    }
    let ghost t = if s@.len() > 0 && s@[0] == 0x2b {
        s@.drop_first()
    } else {
        s@
    };
    proof {
        assert(t =~= s@.subrange(i as int, s@.len() as int));
    }
    if i >= s.len() {
        return None;
    }
    let mut acc: u64 = 0;
    let ghost mut acc_big: int = 0;
    let mut overflow = false;
    while i < s.len()
        invariant
            radix == 10 || radix == 16,
            i <= s@.len(),
            acc_big >= 0,
            t.len() > 0,
            parse_radix(s@, radix as int) == fold_digits(t, radix as int, 0),
            fold_digits(t, radix as int, 0) == fold_digits(
                s@.subrange(i as int, s@.len() as int),
                radix as int,
                acc_big,
            ),
            if overflow {
                acc_big > u64::MAX
            } else {
                acc == acc_big
            },
        decreases s@.len() - i,
    {
        let ghost rest = s@.subrange(i as int, s@.len() as int);
        match exec_digit_val(s[i], radix) {
            None => {
                proof {
                    assert(rest[0] == s@[i as int]);
                }
                return None;
            },
            Some(d) => {
                proof {
                    assert(rest[0] == s@[i as int]);
                    assert(rest.drop_first() =~= s@.subrange(i + 1 as int, s@.len() as int));
                }
                let ghost new_big = acc_big * (radix as int) + d as int;
                proof {
                    assert(new_big >= acc_big) by (nonlinear_arith)
                        requires
                            acc_big >= 0,
                            radix >= 2,
                            d >= 0,
                            new_big == acc_big * (radix as int) + d,
                    ;
                }
                if overflow {
                } else if acc > (u64::MAX - d) / radix {
                    overflow = true;
                    proof {
                        assert(acc_big * (radix as int) + d > u64::MAX) by (nonlinear_arith)
                            requires
                                acc_big == acc,
                                acc > (u64::MAX - d) / (radix as int),
                                radix == 10 || radix == 16,
                                0 <= d < radix,
                        ;
                    }
                } else {
                    proof {
                        assert(acc * (radix as int) + d <= u64::MAX) by (nonlinear_arith)
                            requires
                                acc <= (u64::MAX - d) / (radix as int),
                                radix == 10 || radix == 16,
                                0 <= d < radix,
                        ;
                    }
                    acc = acc * radix + d;
                }
                proof {
                    acc_big = new_big;
                }
            },
        }
        i = i + 1;
    }
    proof {
        assert(s@.subrange(s@.len() as int, s@.len() as int) =~= Seq::<u8>::empty());
    }
    if overflow {
        None
    } else {
        Some(acc)
    }
}

/// `0x`-prefixed hex or decimal value of a numeral with surrounding
/// whitespace tolerated; `None` when malformed or out of `u64` range.
pub fn parse_hex_or_dec_bytes(s: &[u8]) -> (r: Option<u64>)
    ensures
        r == spec_parse_hex_or_dec(s@),
{
    let t = trim_slice(s);
    if t.len() >= 2 && t[0] == 0x30 && (t[1] == 0x78 || t[1] == 0x58) {
        let rest = vstd::slice::slice_subrange(t.as_slice(), 2, t.len());
        let r = parse_digits_u64(rest, 16);
        proof {
            if parse_radix(t@.subrange(2, t@.len() as int), 16) is Some {
                lemma_fold_digits_ge_zero(t@.subrange(2, t@.len() as int), 16);
            }
        }
        r
    } else {
        let r = parse_digits_u64(t.as_slice(), 10);
        proof {
            if parse_radix(t@, 10) is Some {
                lemma_fold_digits_ge_zero(t@, 10);
            }
        }
        r
    }
}

proof fn lemma_fold_digits_ge_zero(s: Seq<u8>, radix: int)
    requires
        radix >= 2,
    ensures
        match parse_radix(s, radix) {
            Option::Some(v) => v >= 0,
            Option::None => true,
        },
{
    let t = if s.len() > 0 && s[0] == 0x2b {
        s.drop_first()
    } else {
        s
    };
    lemma_fold_digits_ge(t, radix, 0);
}

/// Decimal digits of `n`, most significant first.
pub open spec fn dec_repr(n: int) -> Seq<u8>
    decreases n,
{
    if n <= 9 {
        seq![(0x30 + if n >= 0 { n } else { 0 }) as u8]
    } else {
        dec_repr(n / 10).push((0x30 + n % 10) as u8)
    }
}

/// Lower-case hex digits of `n`, most significant first, no prefix.
pub open spec fn hex_repr(n: int) -> Seq<u8>
    decreases n,
{
    let d = if n >= 0 { n % 16 } else { 0 };
    let digit = (if d <= 9 { 0x30 + d } else { 0x61 + d - 10 }) as u8;
    if n <= 15 {
        seq![digit]
    } else {
        hex_repr(n / 16).push(digit)
    }
}

/// Appends the decimal digits of `n`.
pub fn push_dec_u64(out: &mut Vec<u8>, n: u64)
    ensures
        final(out)@ == old(out)@ + dec_repr(n as int),
    decreases n,
{
    if n <= 9 {
        out.push(0x30 + n as u8);
    } else {
        push_dec_u64(out, n / 10);
        out.push(0x30 + (n % 10) as u8);
    }
}

/// Appends the lower-case hex digits of `n`, without a prefix.
pub fn push_hex_u64(out: &mut Vec<u8>, n: u64)
    ensures
        final(out)@ == old(out)@ + hex_repr(n as int),
    decreases n,
{
    let d = (n % 16) as u8;
    let digit: u8 = if d <= 9 {
        0x30 + d
    } else {
        0x61 + d - 10
    };
    if n <= 15 {
        out.push(digit);
    } else {
        push_hex_u64(out, n / 16);
        out.push(digit);
    }
}

/// Hex digits of `n` left-padded with zeros to at least `w` digits.
pub open spec fn hex_repr_pad(n: int, w: int) -> Seq<u8> {
    let digits = hex_repr(n);
    if digits.len() >= w {
        digits
    } else {
        Seq::new((w - digits.len()) as nat, |i: int| 0x30u8) + digits
    }
}

/// Appends the hex digits of `n` padded to at least 4 digits, as `{:04x}`.
pub fn push_hex_u64_pad4(out: &mut Vec<u8>, n: u64)
    ensures
        final(out)@ == old(out)@ + hex_repr_pad(n as int, 4),
{
    let mut digits: Vec<u8> = Vec::new();
    push_hex_u64(&mut digits, n);
    let mut pad: usize = 0;
    let needed = if digits.len() >= 4 {
        0
    } else {
        4 - digits.len()
    };
    while pad < needed
        invariant
            needed + digits@.len() >= 4,
            digits@.len() >= 1,
            needed <= 4,
            pad <= needed,
            out@ == old(out)@ + Seq::new(pad as nat, |i: int| 0x30u8),
        decreases needed - pad,
    {
        out.push(0x30);
        proof {
            assert(old(out)@ + Seq::new((pad + 1) as nat, |i: int| 0x30u8) =~= (old(out)@
                + Seq::new(pad as nat, |i: int| 0x30u8)).push(0x30));
        }
        pad = pad + 1;
    }
    let mut i: usize = 0;
    while i < digits.len()
        invariant
            i <= digits@.len(),
            out@ == old(out)@ + Seq::new(needed as nat, |j: int| 0x30u8) + digits@.subrange(
                0,
                i as int,
            ),
        decreases digits@.len() - i,
    {
        out.push(digits[i]);
        proof {
            assert(old(out)@ + Seq::new(needed as nat, |j: int| 0x30u8) + digits@.subrange(
                0,
                i + 1 as int,
            ) =~= (old(out)@ + Seq::new(needed as nat, |j: int| 0x30u8) + digits@.subrange(
                0,
                i as int,
            )).push(digits@[i as int]));
        }
        i = i + 1;
    }
    proof {
        assert(digits@.subrange(0, digits@.len() as int) =~= digits@);
        if digits@.len() >= 4 {
            assert(old(out)@ + Seq::new(0nat, |j: int| 0x30u8) + digits@ =~= old(out)@
                + hex_repr_pad(n as int, 4));
        } else {
            assert(old(out)@ + Seq::new(needed as nat, |j: int| 0x30u8) + digits@ =~= old(out)@
                + hex_repr_pad(n as int, 4));
        }
    }
}

/// Appends the bytes of an ASCII string literal.
pub fn push_str_bytes(out: &mut Vec<u8>, s: &str)
    requires
        s.is_ascii(),
    ensures
        final(out)@ == old(out)@ + lit_bytes(s),
{
    proof {
        broadcast use vstd::string::is_ascii_spec_bytes;

        assert(s.spec_bytes() =~= lit_bytes(s));
    }
    let b = s.as_bytes();
    let mut i: usize = 0;
    while i < b.len()
        invariant
            i <= b@.len(),
            out@ == old(out)@ + b@.subrange(0, i as int),
        decreases b@.len() - i,
    {
        out.push(b[i]);
        proof {
            assert(old(out)@ + b@.subrange(0, i + 1 as int) =~= (old(out)@ + b@.subrange(
                0,
                i as int,
            )).push(b@[i as int]));
        }
        i = i + 1;
    }
    proof {
        assert(b@.subrange(0, b@.len() as int) =~= b@);
    }
}

/// Appends all bytes of `piece`.
pub fn push_bytes(out: &mut Vec<u8>, piece: &[u8])
    ensures
        final(out)@ == old(out)@ + piece@,
{
    let mut i: usize = 0;
    while i < piece.len()
        invariant
            i <= piece@.len(),
            out@ == old(out)@ + piece@.subrange(0, i as int),
        decreases piece@.len() - i,
    {
        out.push(piece[i]);
        proof {
            assert(old(out)@ + piece@.subrange(0, i + 1 as int) =~= (old(out)@ + piece@.subrange(
                0,
                i as int,
            )).push(piece@[i as int]));
        }
        i = i + 1;
    }
    proof {
        assert(piece@.subrange(0, piece@.len() as int) =~= piece@);
    }
}

/// What `String::from_utf8_lossy` returns for the given bytes; a function
/// of the bytes alone.
pub uninterp spec fn lossy_of(b: Seq<u8>) -> Seq<char>;

/// Relies on String::from_utf8_lossy: valid UTF-8 decodes unchanged, and
/// the result depends on the bytes alone.
#[verifier::external_body]
pub fn bytes_to_string(b: &[u8]) -> (r: String)
    ensures
        r@ == lossy_of(b@),
        vstd::utf8::valid_utf8(b@) ==> r@ == vstd::utf8::decode_utf8(b@),
{
    String::from_utf8_lossy(b).into_owned()
}

/// A string is empty exactly when its UTF-8 bytes are.
pub proof fn lemma_encode_utf8_empty(s: Seq<char>)
    ensures
        (encode_utf8(s).len() == 0) <==> (s.len() == 0),
{
    if s.len() > 0 {
        assert(encode_scalar(s[0] as u32).len() >= 1);
        assert(encode_utf8(s).len() >= 1);
    } else {
        assert(encode_utf8(s) =~= Seq::<u8>::empty());
    }
}

/// A copy of the byte vector.
pub fn clone_bytes(v: &Vec<u8>) -> (r: Vec<u8>)
    ensures
        r@ == v@,
{
    slice_to_vec(v.as_slice())
}

/// Whether the upper-cased `hay` contains the bytes of the ASCII literal `pat`.
pub fn upper_contains(hay_upper: &Vec<u8>, pat: &str) -> (r: bool)
    requires
        pat.is_ascii(),
        pat@.len() >= 1,
    ensures
        r == contains_seq(hay_upper@, lit_bytes(pat)),
{
    proof {
        broadcast use vstd::string::is_ascii_spec_bytes;

        assert(pat.spec_bytes() =~= lit_bytes(pat));
    }
    contains_pattern(hay_upper.as_slice(), pat.as_bytes())
}

} // verus!
