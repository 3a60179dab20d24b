//! Canonical decimal renderings of the numeric values that appear in
//! diagnostic output: unsigned and signed integers and booleans.

use vstd::prelude::*;

verus! {

/// The decimal digit character for `d` (meaningful for `d < 10`).
pub open spec fn spec_digit(d: nat) -> char {
    if d == 0 {
        '0'
    } else if d == 1 {
        '1'
    } else if d == 2 {
        '2'
    } else if d == 3 {
        '3'
    } else if d == 4 {
        '4'
    } else if d == 5 {
        '5'
    } else if d == 6 {
        '6'
    } else if d == 7 {
        '7'
    } else if d == 8 {
        '8'
    } else {
        '9'
    }
}

/// The decimal rendering of a natural number, most significant digit first,
/// without leading zeros (`0` itself renders as "0").
pub open spec fn spec_dec_nat(n: nat) -> Seq<char>
    decreases n,
{
    if n < 10 {
        seq![spec_digit(n)]
    } else {
        spec_dec_nat(n / 10).push(spec_digit(n % 10))
    }
}

/// The decimal rendering of an integer: a minus sign for negative values,
/// then the rendering of the magnitude.
pub open spec fn spec_dec_int(v: int) -> Seq<char> {
    if v >= 0 {
        spec_dec_nat(v as nat)
    } else {
        seq!['-'] + spec_dec_nat((-v) as nat)
    }
}

/// The rendering of a boolean.
pub open spec fn spec_bool_str(b: bool) -> Seq<char> {
    if b {
        "true"@
    } else {
        "false"@
    }
}

fn digit_str(d: u64) -> (s: &'static str)
    requires
        d < 10,
    ensures
        s@ == seq![spec_digit(d as nat)],
{
    proof {
        reveal_strlit("0");
        reveal_strlit("1");
        reveal_strlit("2");
        reveal_strlit("3");
        reveal_strlit("4");
        reveal_strlit("5");
        reveal_strlit("6");
        reveal_strlit("7");
        reveal_strlit("8");
        reveal_strlit("9");
    }
    let s = match d {
        0 => "0",
        1 => "1",
        2 => "2",
        3 => "3",
        4 => "4",
        5 => "5",
        6 => "6",
        7 => "7",
        8 => "8",
        _ => "9",
    };
    proof {
        assert(s@ =~= seq![spec_digit(d as nat)]);
    }
    s
}

/// Renders an unsigned integer in decimal.
pub fn u64_to_dec(n: u64) -> (s: String)
    ensures
        s@ == spec_dec_nat(n as nat),
    decreases n,
{
    if n < 10 {
        String::from_str(digit_str(n))
    } else {
        let mut s = u64_to_dec(n / 10);
        s.append(digit_str(n % 10));
        proof {
            assert(s@ =~= spec_dec_nat(n as nat));
        }
        s
    }
}

/// Renders a signed integer in decimal.
pub fn i64_to_dec(v: i64) -> (s: String)
    ensures
        s@ == spec_dec_int(v as int),
{
    if v >= 0 {
        u64_to_dec(v as u64)
    } else {
        let magnitude: u64 = (-(v as i128)) as u64;
        let mut s = String::from_str("-");
        let m = u64_to_dec(magnitude);
        s.append(m.as_str());
        proof {
            reveal_strlit("-");
            assert(s@ =~= spec_dec_int(v as int));
        }
        s
    }
}

/// Renders a length-limit value in decimal.
pub fn usize_to_dec(n: usize) -> (s: String)
    ensures
        s@ == spec_dec_nat(n as nat),
{
    u64_to_dec(n as u64)
}

/// Renders a boolean as "true" or "false".
pub fn bool_to_str(b: bool) -> (s: String)
    ensures
        s@ == spec_bool_str(b),
{
    if b {
        String::from_str("true")
    } else {
        String::from_str("false")
    }
}

} // verus!
