//! Parsing of the HTTP `Range` request header (RFC 7233 syntax): either a
//! list of byte sub-ranges (`bytes=0-1023,2048-`) or a unit not registered
//! at IANA together with its raw range set.

use vstd::prelude::*;
use vstd::string::StrSliceExecFns;

verus! {

/// One byte sub-range: a closed interval, everything from a position, or
/// the final stretch of a given length.
#[derive(Clone, Copy, Debug, PartialEq, Eq, Structural)]
pub enum ByteRangeSpec {
    /// All bytes between two positions, inclusive (`x-y`).
    FromTo(u64, u64),
    /// All bytes starting from a position (`x-`).
    AllFrom(u64),
    /// The last so-many bytes (`-x`).
    Last(u64),
}

/// A parsed `Range` header value.
#[derive(Clone, Debug, PartialEq, Eq)]
pub enum Range {
    /// A byte range list.
    Bytes(Vec<ByteRangeSpec>),
    /// A custom range: unit not registered at IANA, with its raw range
    /// set.
    Unregistered(String, String),
}

/// Model of [`Range`].
#[verifier::ext_equal]
pub enum RangeS {
    Bytes(Seq<ByteRangeSpec>),
    Unregistered(Seq<char>, Seq<char>),
}

impl View for Range {
    type V = RangeS;

    open spec fn view(&self) -> RangeS {
        match self {
            Range::Bytes(v) => RangeS::Bytes(v@),
            Range::Unregistered(unit, set) => RangeS::Unregistered(unit@, set@),
        }
    }
}

// ---------------------------------------------------------------------------
// Character classes
// ---------------------------------------------------------------------------
/// A decimal digit.
pub open spec fn spec_is_digit(c: char) -> bool {
    48 <= c as u32 && c as u32 <= 57
}

/// A Unicode whitespace character (the `White_Space` property, as used by
/// string trimming).
pub open spec fn spec_is_ws(c: char) -> bool {
    let u = c as u32;
    u == 0x9 || u == 0xA || u == 0xB || u == 0xC || u == 0xD || u == 0x20 || u == 0x85
        || u == 0xA0 || u == 0x1680 || (0x2000 <= u && u <= 0x200A) || u == 0x2028 || u == 0x2029
        || u == 0x202F || u == 0x205F || u == 0x3000
}

fn is_ws(c: char) -> (b: bool)
    ensures
        b == spec_is_ws(c),
{
    let u = c as u32;
    u == 0x9 || u == 0xA || u == 0xB || u == 0xC || u == 0xD || u == 0x20 || u == 0x85
        || u == 0xA0 || u == 0x1680 || (0x2000 <= u && u <= 0x200A) || u == 0x2028 || u == 0x2029
        || u == 0x202F || u == 0x205F || u == 0x3000
}

// ---------------------------------------------------------------------------
// Locating a separator
// ---------------------------------------------------------------------------
/// The position of the first occurrence of a character, if any.
pub open spec fn spec_find(s: Seq<char>, c: char) -> Option<int>
    decreases s.len(),
{
    if s.len() == 0 {
        None
    } else if s[0] == c {
        Some(0)
    } else {
        match spec_find(s.drop_first(), c) {
            Some(i) => Some(i + 1),
            None => None,
        }
    }
}

/// What [`spec_find`] returns: the first position holding the character,
/// or nothing when the character does not occur.
pub proof fn lemma_find_spec(s: Seq<char>, c: char)
    ensures
        match spec_find(s, c) {
            Some(i) => 0 <= i < s.len() && s[i] == c && forall|j: int| 0 <= j < i ==> s[j] != c,
            None => forall|j: int| 0 <= j < s.len() ==> s[j] != c,
        },
    decreases s.len(),
{
    if s.len() == 0 {
    } else if s[0] == c {
    } else {
        lemma_find_spec(s.drop_first(), c);
        match spec_find(s.drop_first(), c) {
            Some(i) => {
                assert forall|j: int| 0 <= j < i + 1 implies s[j] != c by {
                    if j > 0 {
                        assert(s.drop_first()[j - 1] != c);
                    }
                }
            },
            None => {
                assert forall|j: int| 0 <= j < s.len() implies s[j] != c by {
                    if j > 0 {
                        assert(s.drop_first()[j - 1] != c);
                    }
                }
            },
        }
    }
}

fn find_char(s: &str, c: char) -> (r: Option<usize>)
    ensures
        match r {
            Some(i) => i < s@.len() && s@[i as int] == c && spec_find(s@, c) == Some(i as int),
            None => spec_find(s@, c) is None,
        },
{
    proof {
        lemma_find_spec(s@, c);
    }
    let n = s.unicode_len();
    let mut i: usize = 0;
    while i < n
        invariant
            n == s@.len(),
            i <= n,
            forall|j: int| 0 <= j < i ==> s@[j] != c,
        decreases n - i,
    {
        if s.get_char(i) == c {
            proof {
                lemma_find_spec(s@, c);
                assert(spec_find(s@, c) matches Some(k) && k == i) by {
                    match spec_find(s@, c) {
                        Some(k) => {
                            if k < i {
                                assert(s@[k] != c);
                            }
                            if k > i {
                                assert(s@[i as int] != c);
                            }
                        },
                        None => {
                            assert(s@[i as int] != c);
                        },
                    }
                }
            }
            return Some(i);
        }
        i += 1;
    }
    proof {
        lemma_find_spec(s@, c);
        match spec_find(s@, c) {
            Some(k) => {
                assert(s@[k] != c);
            },
            None => {},
        }
    }
    None
}

// ---------------------------------------------------------------------------
// Unsigned numerals
// ---------------------------------------------------------------------------
/// The numeric value of a digit string, most significant digit first.
pub open spec fn spec_digits_value(s: Seq<char>) -> nat
    decreases s.len(),
{
    if s.len() == 0 {
        0
    } else {
        spec_digits_value(s.drop_last()) * 10 + (s.last() as u32 - 48) as nat
    }
}

/// The digit part of a numeral: an optional leading plus sign is not part
/// of the value.
pub open spec fn spec_numeral_digits(s: Seq<char>) -> Seq<char> {
    if s.len() > 0 && s[0] == '+' {
        s.drop_first()
    } else {
        s
    }
}

/// Whether a string is a well-formed unsigned numeral: an optional plus
/// sign followed by one or more decimal digits.
pub open spec fn spec_is_numeral(s: Seq<char>) -> bool {
    let d = spec_numeral_digits(s);
    d.len() > 0 && forall|i: int| 0 <= i < d.len() ==> spec_is_digit(#[trigger] d[i])
}

/// What parsing an unsigned 64-bit numeral yields: the value for a
/// well-formed numeral that fits, nothing otherwise.
pub open spec fn spec_parse_u64(s: Seq<char>) -> Option<u64> {
    if spec_is_numeral(s) && spec_digits_value(spec_numeral_digits(s)) <= u64::MAX {
        Some(spec_digits_value(spec_numeral_digits(s)) as u64)
    } else {
        None
    }
}

/// A digit string's value only grows as more digits are appended.
proof fn lemma_digits_value_prefix(s: Seq<char>, j: int)
    requires
        0 <= j <= s.len(),
    ensures
        spec_digits_value(s.subrange(0, j)) <= spec_digits_value(s),
    decreases s.len() - j,
{
    if j == s.len() {
        assert(s.subrange(0, j) =~= s);
    } else {
        lemma_digits_value_prefix(s, j + 1);
        let p = s.subrange(0, j + 1);
        assert(p.drop_last() =~= s.subrange(0, j));
        assert(spec_digits_value(p) == spec_digits_value(s.subrange(0, j)) * 10 + (p.last()
            as u32 - 48) as nat);
        assert(spec_digits_value(s.subrange(0, j)) * 10 >= spec_digits_value(s.subrange(0, j)))
            by (nonlinear_arith);
    }
}

/// Parses an unsigned 64-bit numeral: an optional plus sign followed by
/// decimal digits, rejecting values over `u64::MAX`.
pub fn parse_u64(s: &str) -> (r: Option<u64>)
    ensures
        r == spec_parse_u64(s@),
{
    let n = s.unicode_len();
    if n == 0 {
        return None;
    }
    let start: usize = if s.get_char(0) == '+' {
        1
    } else {
        0
    };
    let ghost digits = spec_numeral_digits(s@);
    proof {
        assert(digits =~= s@.subrange(start as int, n as int));
    }
    if start == n {
        return None;
    }
    let mut acc: u64 = 0;
    let mut i: usize = start;
    while i < n
        invariant
            n == s@.len(),
            start <= i <= n,
            digits == spec_numeral_digits(s@),
            digits == s@.subrange(start as int, n as int),
            start == 1 ==> s@.len() > 0 && s@[0] == '+',
            start == 0 || start == 1,
            forall|j: int| start <= j < i ==> spec_is_digit(#[trigger] s@[j]),
            acc == spec_digits_value(s@.subrange(start as int, i as int)),
        decreases n - i,
    {
        let c = s.get_char(i);
        let u = c as u32;
        if u < 48 || u > 57 {
            proof {
                assert(spec_numeral_digits(s@) == digits);
                assert(0 <= i as int - start);
                assert(i as int - start < digits.len());
                assert(digits[i - start as int] == s@[i as int]);
                assert(!spec_is_digit(digits[i - start as int]));
                assert(!spec_is_numeral(s@));
            }
            return None;
        }
        let d: u64 = (u - 48) as u64;
        if acc > (u64::MAX - d) / 10 {
            proof {
                let p = s@.subrange(start as int, i as int + 1);
                assert(p.drop_last() =~= s@.subrange(start as int, i as int));
                assert(p.last() == s@[i as int]);
                assert(spec_digits_value(p) == acc * 10 + d);
                assert(acc * 10 + d > u64::MAX) by (nonlinear_arith)
                    requires
                        acc > (u64::MAX - d) / 10,
                        d <= 9,
                        acc <= u64::MAX,
                ;
                if spec_is_numeral(s@) {
                    lemma_digits_value_prefix(digits, i - start as int + 1);
                    assert(digits.subrange(0, i - start as int + 1) =~= p);
                }
            }
            return None;
        }
        proof {
            let p = s@.subrange(start as int, i as int + 1);
            assert(p.drop_last() =~= s@.subrange(start as int, i as int));
            assert(p.last() == s@[i as int]);
            assert(acc * 10 + d <= u64::MAX) by (nonlinear_arith)
                requires
                    acc <= (u64::MAX - d) / 10,
                    d <= 9,
            ;
        }
        acc = acc * 10 + d;
        i += 1;
    }
    proof {
        assert(digits =~= s@.subrange(start as int, n as int));
        assert(forall|j: int| 0 <= j < digits.len() ==> spec_is_digit(#[trigger] digits[j]));
        assert(spec_is_numeral(s@));
    }
    Some(acc)
}

// ---------------------------------------------------------------------------
// Trimming
// ---------------------------------------------------------------------------
/// A string without its leading whitespace.
pub open spec fn spec_trim_start(s: Seq<char>) -> Seq<char>
    decreases s.len(),
{
    if s.len() > 0 && spec_is_ws(s[0]) {
        spec_trim_start(s.drop_first())
    } else {
        s
    }
}

/// A string without its trailing whitespace.
pub open spec fn spec_trim_end(s: Seq<char>) -> Seq<char>
    decreases s.len(),
{
    if s.len() > 0 && spec_is_ws(s.last()) {
        spec_trim_end(s.drop_last())
    } else {
        s
    }
}

/// A string without its leading and trailing whitespace.
pub open spec fn spec_trim(s: Seq<char>) -> Seq<char> {
    spec_trim_end(spec_trim_start(s))
}

fn trim_str<'a>(s: &'a str) -> (r: &'a str)
    ensures
        r@ == spec_trim(s@),
{
    let n = s.unicode_len();
    proof {
        assert(s@.subrange(0, n as int) =~= s@);
    }
    let mut a: usize = 0;
    while a < n && is_ws(s.get_char(a))
        invariant
            n == s@.len(),
            a <= n,
            spec_trim_start(s@) == spec_trim_start(s@.subrange(a as int, n as int)),
        decreases n - a,
    {
        proof {
            let cur = s@.subrange(a as int, n as int);
            assert(cur.drop_first() =~= s@.subrange(a as int + 1, n as int));
        }
        a += 1;
    }
    proof {
        let cur = s@.subrange(a as int, n as int);
        assert(spec_trim_start(cur) == cur);
        assert(spec_trim_start(s@) == s@.subrange(a as int, n as int));
    }
    let mut b: usize = n;
    while b > a && is_ws(s.get_char(b - 1))
        invariant
            n == s@.len(),
            a <= b <= n,
            spec_trim_start(s@) == s@.subrange(a as int, n as int),
            spec_trim_end(s@.subrange(a as int, n as int)) == spec_trim_end(
                s@.subrange(a as int, b as int),
            ),
        decreases b,
    {
        proof {
            let cur = s@.subrange(a as int, b as int);
            assert(cur.last() == s@[b as int - 1]);
            assert(cur.drop_last() =~= s@.subrange(a as int, b as int - 1));
        }
        b -= 1;
    }
    proof {
        let cur = s@.subrange(a as int, b as int);
        if cur.len() > 0 {
            assert(cur.last() == s@[b as int - 1]);
        }
        assert(spec_trim_end(cur) == cur);
    }
    s.substring_char(a, b)
}

// ---------------------------------------------------------------------------
// Byte range specs
// ---------------------------------------------------------------------------
/// What parsing one byte sub-range yields, with the exact rejection text
/// for each malformed shape.
pub open spec fn spec_byte_range_from_str(s: Seq<char>) -> Result<ByteRangeSpec, Seq<char>> {
    match spec_find(s, '-') {
        None => Err("Invalid byte range"@),
        Some(i) => {
            let start = s.subrange(0, i);
            let end = s.subrange(i + 1, s.len() as int);
            if start.len() == 0 {
                match spec_parse_u64(end) {
                    Some(v) => Ok(ByteRangeSpec::Last(v)),
                    None => Err("Invalid last byte position"@),
                }
            } else if end.len() == 0 {
                match spec_parse_u64(start) {
                    Some(v) => Ok(ByteRangeSpec::AllFrom(v)),
                    None => Err("Invalid first byte position"@),
                }
            } else {
                match (spec_parse_u64(start), spec_parse_u64(end)) {
                    (Some(a), Some(b)) => {
                        if a <= b {
                            Ok(ByteRangeSpec::FromTo(a, b))
                        } else {
                            Err("Invalid byte range"@)
                        }
                    },
                    _ => Err("Invalid byte range"@),
                }
            }
        },
    }
}

impl ByteRangeSpec {
    /// Parses one byte sub-range (`x-y`, `x-` or `-y`).
    pub fn from_str(s: &str) -> (r: Result<ByteRangeSpec, String>)
        ensures
            match spec_byte_range_from_str(s@) {
                Ok(b) => r matches Ok(rb) && rb == b,
                Err(m) => r matches Err(e) && e@ == m,
            },
    {
        let n = s.unicode_len();
        match find_char(s, '-') {
            None => Err(String::from_str("Invalid byte range")),
            Some(i) => {
                let start = s.substring_char(0, i);
                let end = s.substring_char(i + 1, n);
                if start.unicode_len() == 0 {
                    match parse_u64(end) {
                        Some(v) => Ok(ByteRangeSpec::Last(v)),
                        None => Err(String::from_str("Invalid last byte position")),
                    }
                } else if end.unicode_len() == 0 {
                    match parse_u64(start) {
                        Some(v) => Ok(ByteRangeSpec::AllFrom(v)),
                        None => Err(String::from_str("Invalid first byte position")),
                    }
                } else {
                    let a = parse_u64(start);
                    let b = parse_u64(end);
                    match (a, b) {
                        (Some(av), Some(bv)) => {
                            if av <= bv {
                                Ok(ByteRangeSpec::FromTo(av, bv))
                            } else {
                                Err(String::from_str("Invalid byte range"))
                            }
                        },
                        _ => Err(String::from_str("Invalid byte range")),
                    }
                }
            },
        }
    }

    /// Renders the sub-range in header syntax.
    pub fn display(&self) -> (r: String)
        ensures
            r@ == spec_byte_range_display(*self),
    {
        match self {
            ByteRangeSpec::FromTo(from, to) => {
                let mut s = crate::numfmt::u64_to_dec(*from);
                s.append("-");
                let t = crate::numfmt::u64_to_dec(*to);
                s.append(t.as_str());
                proof {
                    assert(s@ =~= spec_byte_range_display(*self));
                }
                s
            },
            ByteRangeSpec::Last(pos) => {
                let mut s = String::from_str("-");
                let t = crate::numfmt::u64_to_dec(*pos);
                s.append(t.as_str());
                proof {
                    assert(s@ =~= spec_byte_range_display(*self));
                }
                s
            },
            ByteRangeSpec::AllFrom(pos) => {
                let mut s = crate::numfmt::u64_to_dec(*pos);
                s.append("-");
                proof {
                    assert(s@ =~= spec_byte_range_display(*self));
                }
                s
            },
        }
    }
}

/// How a byte sub-range is rendered: `x-y`, `-x`, or `x-`.
pub open spec fn spec_byte_range_display(b: ByteRangeSpec) -> Seq<char> {
    match b {
        ByteRangeSpec::FromTo(from, to) => crate::numfmt::spec_dec_nat(from as nat) + "-"@
            + crate::numfmt::spec_dec_nat(to as nat),
        ByteRangeSpec::Last(pos) => "-"@ + crate::numfmt::spec_dec_nat(pos as nat),
        ByteRangeSpec::AllFrom(pos) => crate::numfmt::spec_dec_nat(pos as nat) + "-"@,
    }
}

// ---------------------------------------------------------------------------
// Comma-delimited lists
// ---------------------------------------------------------------------------
/// What one comma-separated piece contributes: nothing when it trims to
/// empty or fails to parse, the parsed sub-range otherwise.
pub open spec fn spec_piece(p: Seq<char>) -> Seq<ByteRangeSpec> {
    let t = spec_trim(p);
    if t.len() == 0 {
        seq![]
    } else {
        match spec_byte_range_from_str(t) {
            Ok(b) => seq![b],
            Err(_) => seq![],
        }
    }
}

/// The sub-ranges of a comma-separated list: each piece is trimmed, empty
/// pieces are skipped, and unparsable pieces are dropped.
pub open spec fn spec_from_comma_delimited(s: Seq<char>) -> Seq<ByteRangeSpec>
    decreases s.len(),
{
    match spec_find(s, ',') {
        None => spec_piece(s),
        Some(i) => {
            if 0 <= i < s.len() {
                spec_piece(s.subrange(0, i)) + spec_from_comma_delimited(
                    s.subrange(i + 1, s.len() as int),
                )
            } else {
                spec_piece(s)
            }
        },
    }
}

fn handle_piece(out: &mut Vec<ByteRangeSpec>, piece: &str)
    ensures
        final(out)@ == old(out)@ + spec_piece(piece@),
{
    let ghost prev = out@;
    let t = trim_str(piece);
    if t.unicode_len() == 0 {
        proof {
            assert(out@ =~= prev + spec_piece(piece@));
        }
        return;
    }
    match ByteRangeSpec::from_str(t) {
        Ok(b) => {
            out.push(b);
            proof {
                assert(out@ =~= prev + spec_piece(piece@));
            }
        },
        Err(_) => {
            proof {
                assert(out@ =~= prev + spec_piece(piece@));
            }
        },
    }
}

/// Parses a comma-delimited list of byte sub-ranges, keeping the pieces
/// that parse and dropping the rest.
pub fn from_comma_delimited(s: &str) -> (r: Vec<ByteRangeSpec>)
    ensures
        r@ == spec_from_comma_delimited(s@),
{
    let mut out: Vec<ByteRangeSpec> = Vec::new();
    let mut rest: &str = s;
    loop
        invariant
            spec_from_comma_delimited(s@) == out@ + spec_from_comma_delimited(rest@),
        decreases rest@.len(),
    {
        let n = rest.unicode_len();
        match find_char(rest, ',') {
            Some(i) => {
                let piece = rest.substring_char(0, i);
                handle_piece(&mut out, piece);
                let ghost old_rest = rest@;
                rest = rest.substring_char(i + 1, n);
                proof {
                    lemma_find_spec(old_rest, ',');
                    assert(spec_from_comma_delimited(old_rest) == spec_piece(
                        old_rest.subrange(0, i as int),
                    ) + spec_from_comma_delimited(rest@));
                    assert(spec_from_comma_delimited(s@) =~= out@ + spec_from_comma_delimited(
                        rest@,
                    ));
                }
            },
            None => {
                handle_piece(&mut out, rest);
                proof {
                    assert(spec_from_comma_delimited(rest@) == spec_piece(rest@));
                    assert(spec_from_comma_delimited(s@) =~= out@);
                }
                return out;
            },
        }
    }
}

// ---------------------------------------------------------------------------
// The Range header
// ---------------------------------------------------------------------------
/// What parsing a whole `Range` header yields: a byte range list for the
/// `bytes` unit, an unregistered unit with its raw set when both parts are
/// non-empty, and the exact rejection text otherwise.
pub open spec fn spec_range_from_str(s: Seq<char>) -> Result<RangeS, Seq<char>> {
    match spec_find(s, '=') {
        None => Err("Invalid Range header"@),
        Some(i) => {
            let unit = s.subrange(0, i);
            let set = s.subrange(i + 1, s.len() as int);
            if unit == "bytes"@ {
                let ranges = spec_from_comma_delimited(set);
                if ranges.len() == 0 {
                    Err("No ranges found"@)
                } else {
                    Ok(RangeS::Bytes(ranges))
                }
            } else if unit.len() > 0 && set.len() > 0 {
                Ok(RangeS::Unregistered(unit, set))
            } else {
                Err("Invalid Range header"@)
            }
        },
    }
}

impl Range {
    /// Parses a `Range` header value.
    pub fn from_str(s: &str) -> (r: Result<Range, String>)
        ensures
            match spec_range_from_str(s@) {
                Ok(m) => r matches Ok(rg) && rg@ == m,
                Err(m) => r matches Err(e) && e@ == m,
            },
    {
        let n = s.unicode_len();
        match find_char(s, '=') {
            None => Err(String::from_str("Invalid Range header")),
            Some(i) => {
                let unit = s.substring_char(0, i);
                let set = s.substring_char(i + 1, n);
                let unit_owned = unit.to_owned();
                if unit_owned == String::from_str("bytes") {
                    let ranges = from_comma_delimited(set);
                    if ranges.len() == 0 {
                        Err(String::from_str("No ranges found"))
                    } else {
                        Ok(Range::Bytes(ranges))
                    }
                } else if unit.unicode_len() > 0 && set.unicode_len() > 0 {
                    Ok(Range::Unregistered(unit_owned, set.to_owned()))
                } else {
                    Err(String::from_str("Invalid Range header"))
                }
            },
        }
    }
}

} // verus!
