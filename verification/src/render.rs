use vstd::prelude::*;

verus! {

use vstd::string::StringExecFns;

/// Decimal text for fixed-point values: the digits of a number, and
/// microunit values rendered as signed decimals with six fractional
/// digits.

/// The character for one decimal digit.
pub open spec fn digit_char(n: int) -> char
    recommends
        0 <= n < 10,
{
    if n == 0 {
        '0'
    } else if n == 1 {
        '1'
    } else if n == 2 {
        '2'
    } else if n == 3 {
        '3'
    } else if n == 4 {
        '4'
    } else if n == 5 {
        '5'
    } else if n == 6 {
        '6'
    } else if n == 7 {
        '7'
    } else if n == 8 {
        '8'
    } else {
        '9'
    }
}

/// The decimal digits of a non-negative number, most significant first,
/// without leading zeros.
pub open spec fn dec_digits(n: int) -> Seq<char>
    recommends
        n >= 0,
    decreases n,
{
    if n < 10 {
        seq![digit_char(n)]
    } else {
        dec_digits(n / 10) + seq![digit_char(n % 10)]
    }
}

/// Exactly six decimal digits of a microunit fraction, zero-padded.
pub open spec fn frac6(f: int) -> Seq<char>
    recommends
        0 <= f < 1_000_000,
{
    seq![
        digit_char((f / 100_000) % 10),
        digit_char((f / 10_000) % 10),
        digit_char((f / 1_000) % 10),
        digit_char((f / 100) % 10),
        digit_char((f / 10) % 10),
        digit_char(f % 10),
    ]
}

/// Exactly three decimal digits of a milliunit fraction, zero-padded.
pub open spec fn frac3(f: int) -> Seq<char>
    recommends
        0 <= f < 1_000,
{
    seq![digit_char((f / 100) % 10), digit_char((f / 10) % 10), digit_char(f % 10)]
}

/// A non-negative microunit count as "whole.fractional" text.
pub open spec fn micro_abs_string(u: int) -> Seq<char>
    recommends
        u >= 0,
{
    dec_digits(u / 1_000_000) + "."@ + frac6(u % 1_000_000)
}

/// A microunit value as signed decimal text with six fractional digits.
pub open spec fn micro_string(v: int) -> Seq<char> {
    if v < 0 {
        "-"@ + micro_abs_string(-v)
    } else {
        micro_abs_string(v)
    }
}

/// A non-negative milliunit count as "whole.fractional" text.
pub open spec fn milli_abs_string(u: int) -> Seq<char>
    recommends
        u >= 0,
{
    dec_digits(u / 1_000) + "."@ + frac3(u % 1_000)
}

/// A milliunit value as signed decimal text with three fractional digits.
pub open spec fn milli_string(v: int) -> Seq<char> {
    if v < 0 {
        "-"@ + milli_abs_string(-v)
    } else {
        milli_abs_string(v)
    }
}

/// The character of one digit, as a one-character string slice.
fn digit_str(d: u64) -> (r: &'static str)
    requires
        d < 10,
    ensures
        r@ == seq![digit_char(d as int)],
{
    proof {
        reveal_strlit("0");
        reveal_strlit("1");
        reveal_strlit("2");
        reveal_strlit("3");
        reveal_strlit("4");
        reveal_strlit("5");
        reveal_strlit("6");
        reveal_strlit("7");
        reveal_strlit("8");
        reveal_strlit("9");
    }
    match d {
        0 => "0",
        1 => "1",
        2 => "2",
        3 => "3",
        4 => "4",
        5 => "5",
        6 => "6",
        7 => "7",
        8 => "8",
        _ => "9",
    }
}

/// Appends the decimal digits of `n`, most significant first.
pub(crate) fn push_digits(s: &mut String, n: u64)
    ensures
        final(s)@ == old(s)@ + dec_digits(n as int),
    decreases n,
{
    if n >= 10 {
        push_digits(s, n / 10);
    }
    let d = digit_str(n % 10);
    s.append(d);
    proof {
        assert(s@ =~= old(s)@ + dec_digits(n as int));
    }
}

/// Appends the six zero-padded digits of a microunit fraction.
#[verifier::rlimit(50)]
fn push_frac6(s: &mut String, f: u64)
    requires
        f < 1_000_000,
    ensures
        final(s)@ == old(s)@ + frac6(f as int),
{
    let d5 = digit_str((f / 100_000) % 10);
    s.append(d5);
    let d4 = digit_str((f / 10_000) % 10);
    s.append(d4);
    let d3 = digit_str((f / 1_000) % 10);
    s.append(d3);
    let d2 = digit_str((f / 100) % 10);
    s.append(d2);
    let d1 = digit_str((f / 10) % 10);
    s.append(d1);
    let d0 = digit_str(f % 10);
    s.append(d0);
    proof {
        assert(s@ =~= old(s)@ + frac6(f as int));
    }
}

/// Appends a microunit value as signed decimal text with six fractional
/// digits.
#[verifier::rlimit(50)]
pub(crate) fn push_micro(s: &mut String, v: i64)
    ensures
        final(s)@ == old(s)@ + micro_string(v as int),
{
    let magnitude: u64 = if v < 0 {
        s.append("-");
        (-(v as i128)) as u64
    } else {
        v as u64
    };
    let whole = magnitude / 1_000_000;
    let frac = magnitude % 1_000_000;
    push_digits(s, whole);
    s.append(".");
    push_frac6(s, frac);
    proof {
        assert(s@ =~= old(s)@ + micro_string(v as int));
    }
}

/// Appends the three zero-padded digits of a milliunit fraction.
#[verifier::rlimit(50)]
fn push_frac3(s: &mut String, f: u64)
    requires
        f < 1_000,
    ensures
        final(s)@ == old(s)@ + frac3(f as int),
{
    let d2 = digit_str((f / 100) % 10);
    s.append(d2);
    let d1 = digit_str((f / 10) % 10);
    s.append(d1);
    let d0 = digit_str(f % 10);
    s.append(d0);
    proof {
        assert(s@ =~= old(s)@ + frac3(f as int));
    }
}

/// Appends a milliunit value as signed decimal text with three fractional
/// digits.
#[verifier::rlimit(50)]
pub(crate) fn push_milli(s: &mut String, v: i64)
    ensures
        final(s)@ == old(s)@ + milli_string(v as int),
{
    let magnitude: u64 = if v < 0 {
        s.append("-");
        (-(v as i128)) as u64
    } else {
        v as u64
    };
    let whole = magnitude / 1_000;
    let frac = magnitude % 1_000;
    push_digits(s, whole);
    s.append(".");
    push_frac3(s, frac);
    proof {
        assert(s@ =~= old(s)@ + milli_string(v as int));
    }
}

} // verus!
