//! Rendering of numbers as text, used for findings and identifiers.

use crate::scalar::Scalar;
use vstd::prelude::*;
use vstd::string::StringExecFns;

verus! {

/// The character that writes one digit, for bases up to sixteen.
pub open spec fn digit_char(d: nat) -> char {
    if d == 0 {
        '0'
    } else if d == 1 {
        '1'
    } else if d == 2 {
        '2'
    } else if d == 3 {
        '3'
    } else if d == 4 {
        '4'
    } else if d == 5 {
        '5'
    } else if d == 6 {
        '6'
    } else if d == 7 {
        '7'
    } else if d == 8 {
        '8'
    } else if d == 9 {
        '9'
    } else if d == 10 {
        'a'
    } else if d == 11 {
        'b'
    } else if d == 12 {
        'c'
    } else if d == 13 {
        'd'
    } else if d == 14 {
        'e'
    } else {
        'f'
    }
}

/// Decimal notation of a natural number, without leading zeros.
pub open spec fn decimal(n: nat) -> Seq<char>
    decreases n,
{
    if n < 10 {
        seq![digit_char(n)]
    } else {
        decimal(n / 10).push(digit_char(n % 10))
    }
}

/// The lowest `width` digits of `n` in the given base, most significant first.
pub open spec fn fixed_digits(n: nat, base: nat, width: nat) -> Seq<char>
    decreases width,
{
    if width == 0 || base == 0 {
        Seq::empty()
    } else {
        fixed_digits(n / base, base, (width - 1) as nat).push(digit_char(n % base))
    }
}

/// Sixteen lowercase hexadecimal digits.
pub open spec fn hex16(v: u64) -> Seq<char> {
    fixed_digits(v as nat, 16, 16)
}

/// Notation of a scalar: `NaN`, `inf`, `-inf`, or an optional minus sign,
/// the whole part, a point and six decimals.
pub open spec fn scalar_text(s: Scalar) -> Seq<char> {
    match s {
        Scalar::Nan => seq!['N', 'a', 'N'],
        Scalar::PosInf => seq!['i', 'n', 'f'],
        Scalar::NegInf => seq!['-', 'i', 'n', 'f'],
        Scalar::Finite(v) => {
            let m: nat = if v < 0 { (-v) as nat } else { v as nat };
            let sign: Seq<char> = if v < 0 { seq!['-'] } else { Seq::empty() };
            sign + decimal(m / 1_000_000) + seq!['.'] + fixed_digits(m % 1_000_000, 10, 6)
        },
    }
}

/// One digit as a string slice.
pub fn digit_text(d: u8) -> (r: &'static str)
    requires
        d < 16,
    ensures
        r@ == seq![digit_char(d as nat)],
{
    proof {
        reveal_strlit("0");
        reveal_strlit("1");
        reveal_strlit("2");
        reveal_strlit("3");
        reveal_strlit("4");
        reveal_strlit("5");
        reveal_strlit("6");
        reveal_strlit("7");
        reveal_strlit("8");
        reveal_strlit("9");
        reveal_strlit("a");
        reveal_strlit("b");
        reveal_strlit("c");
        reveal_strlit("d");
        reveal_strlit("e");
        reveal_strlit("f");
    }
    let r = if d == 0 {
        "0"
    } else if d == 1 {
        "1"
    } else if d == 2 {
        "2"
    } else if d == 3 {
        "3"
    } else if d == 4 {
        "4"
    } else if d == 5 {
        "5"
    } else if d == 6 {
        "6"
    } else if d == 7 {
        "7"
    } else if d == 8 {
        "8"
    } else if d == 9 {
        "9"
    } else if d == 10 {
        "a"
    } else if d == 11 {
        "b"
    } else if d == 12 {
        "c"
    } else if d == 13 {
        "d"
    } else if d == 14 {
        "e"
    } else {
        "f"
    };
    assert(r@ =~= seq![digit_char(d as nat)]);
    r
}

/// Appends the decimal notation of `n`.
pub fn push_decimal(out: &mut String, n: u64)
    ensures
        final(out)@ == old(out)@ + decimal(n as nat),
    decreases n,
{
    if n >= 10 {
        push_decimal(out, n / 10);
    }
    out.append(digit_text((n % 10) as u8));
    assert(final(out)@ =~= old(out)@ + decimal(n as nat));
}

/// Appends the lowest `width` digits of `n` in base ten or sixteen.
pub fn push_fixed_digits(out: &mut String, n: u64, base: u64, width: u32)
    requires
        base == 10 || base == 16,
    ensures
        final(out)@ == old(out)@ + fixed_digits(n as nat, base as nat, width as nat),
    decreases width,
{
    if width > 0 {
        push_fixed_digits(out, n / base, base, width - 1);
        out.append(digit_text((n % base) as u8));
    }
    assert(final(out)@ =~= old(out)@ + fixed_digits(n as nat, base as nat, width as nat));
}

/// Sixteen lowercase hexadecimal digits of `v`.
pub fn hex16_string(v: u64) -> (r: String)
    ensures
        r@ == hex16(v),
{
    let mut out = String::new();
    push_fixed_digits(&mut out, v, 16, 16);
    assert(out@ =~= hex16(v));
    out
}

/// Appends the notation of a scalar.
pub fn push_scalar(out: &mut String, s: Scalar)
    ensures
        final(out)@ == old(out)@ + scalar_text(s),
{
    proof {
        reveal_strlit("NaN");
        reveal_strlit("inf");
        reveal_strlit("-inf");
        reveal_strlit("-");
        reveal_strlit(".");
    }
    match s {
        Scalar::Nan => {
            out.append("NaN");
            assert(final(out)@ =~= old(out)@ + scalar_text(s));
        },
        Scalar::PosInf => {
            out.append("inf");
            assert(final(out)@ =~= old(out)@ + scalar_text(s));
        },
        Scalar::NegInf => {
            out.append("-inf");
            assert(final(out)@ =~= old(out)@ + scalar_text(s));
        },
        Scalar::Finite(v) => {
            let m: u64 = if v < 0 {
                (0 - (v as i128)) as u64
            } else {
                v as u64
            };
            if v < 0 {
                out.append("-");
            }
            push_decimal(out, m / 1_000_000);
            out.append(".");
            push_fixed_digits(out, m % 1_000_000, 10, 6);
            assert(final(out)@ =~= old(out)@ + scalar_text(s));
        },
    }
}

} // verus!
