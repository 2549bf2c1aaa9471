//! Text of axis tick labels.
//!
//! A tick value is written with a requested number of decimals, or, when
//! nothing is requested, in a form chosen by its size: scientific notation
//! for very small and very large values, otherwise a few decimals with
//! trailing zeros removed.

use crate::scalar::Scalar;
use crate::text::{decimal, digit_char, digit_text, fixed_digits, push_decimal, push_fixed_digits};
use vstd::prelude::*;
use vstd::string::{StrSliceExecFns, StringExecFns};

verus! {

/// Ten to the power `n`.
pub open spec fn pow10(n: nat) -> nat
    decreases n,
{
    if n == 0 {
        1
    } else {
        10 * pow10((n - 1) as nat)
    }
}

/// Size of a count of units without its sign.
pub open spec fn magnitude_of(v: i64) -> nat {
    if v < 0 {
        (-v) as nat
    } else {
        v as nat
    }
}

/// A minus sign for negative values, nothing otherwise.
pub open spec fn sign_text(v: i64) -> Seq<char> {
    if v < 0 {
        seq!['-']
    } else {
        Seq::empty()
    }
}

/// `m` in multiples of `unit`, rounded to the nearest; a tie goes to the
/// even multiple.
pub open spec fn rounded(m: nat, unit: nat) -> nat
    recommends
        unit > 0,
{
    let q = m / unit;
    let rest = m % unit;
    if 2 * rest > unit || (2 * rest == unit && q % 2 == 1) {
        q + 1
    } else {
        q
    }
}

/// `n` zeros.
pub open spec fn zeros(n: nat) -> Seq<char> {
    Seq::new(n, |i: int| '0')
}

/// Name of a value that is not finite.
pub open spec fn non_finite_text(s: Scalar) -> Seq<char> {
    match s {
        Scalar::PosInf => seq!['i', 'n', 'f'],
        Scalar::NegInf => seq!['-', 'i', 'n', 'f'],
        _ => seq!['N', 'a', 'N'],
    }
}

/// A value with exactly `p` decimals, rounded to the nearest.
pub open spec fn with_precision(s: Scalar, p: nat) -> Seq<char> {
    match s {
        Scalar::Finite(v) => {
            let m = magnitude_of(v);
            if p == 0 {
                sign_text(v) + decimal(rounded(m, 1_000_000))
            } else if p <= 6 {
                let q = rounded(m, pow10((6 - p) as nat));
                sign_text(v) + decimal(q / pow10(p)) + seq!['.'] + fixed_digits(
                    q % pow10(p),
                    10,
                    p,
                )
            } else {
                sign_text(v) + decimal(m / 1_000_000) + seq!['.'] + fixed_digits(
                    m % 1_000_000,
                    10,
                    6,
                ) + zeros((p - 6) as nat)
            }
        },
        _ => non_finite_text(s),
    }
}

/// A fraction of `p` digits without its trailing zeros, keeping one digit at
/// least: the remaining digits as a number, and how many they are.
pub open spec fn trim(f: nat, p: nat) -> (nat, nat)
    decreases p,
{
    if p > 1 && f % 10 == 0 {
        trim(f / 10, (p - 1) as nat)
    } else {
        (f, p)
    }
}

/// A value rounded to `p` decimals, without trailing zeros but with one
/// decimal at least; without decimals at all when `p` is zero.
pub open spec fn trimmed(s: Scalar, p: nat) -> Seq<char> {
    match s {
        Scalar::Finite(v) => {
            let m = magnitude_of(v);
            if p == 0 {
                with_precision(s, 0)
            } else {
                let k: nat = if p <= 6 { p } else { 6 };
                let q = rounded(m, pow10((6 - k) as nat));
                let t = trim(q % pow10(k), k);
                sign_text(v) + decimal(q / pow10(k)) + seq!['.'] + fixed_digits(t.0, 10, t.1)
            }
        },
        _ => non_finite_text(s),
    }
}

/// A value in its shortest form: the whole part, and the decimals that are
/// not zero, if any.
pub open spec fn plain(s: Scalar) -> Seq<char> {
    match s {
        Scalar::Finite(v) => {
            let m = magnitude_of(v);
            if m % 1_000_000 == 0 {
                sign_text(v) + decimal(m / 1_000_000)
            } else {
                let t = trim(m % 1_000_000, 6);
                sign_text(v) + decimal(m / 1_000_000) + seq!['.'] + fixed_digits(t.0, 10, t.1)
            }
        },
        _ => non_finite_text(s),
    }
}

/// Number of decimal digits of `m`; one for zero.
pub open spec fn digit_count(m: nat) -> nat
    decreases m,
{
    if m < 10 {
        1
    } else {
        1 + digit_count(m / 10)
    }
}

/// A value in scientific notation with one decimal in the mantissa: the
/// mantissa, `e`, and the power of ten.
pub open spec fn scientific(s: Scalar) -> Seq<char> {
    match s {
        Scalar::Finite(v) => {
            let m = magnitude_of(v);
            if m == 0 {
                seq!['0', '.', '0', 'e', '0']
            } else {
                let d = digit_count(m);
                let top: nat = if d == 1 {
                    m * 10
                } else {
                    rounded(m, pow10((d - 2) as nat))
                };
                let mantissa: nat = if top == 100 { 10 } else { top };
                let exponent: int = if top == 100 { d - 6 } else { d - 7 };
                sign_text(v) + seq![digit_char(mantissa / 10), '.', digit_char(mantissa % 10), 'e']
                    + (if exponent < 0 {
                    seq!['-'] + decimal((-exponent) as nat)
                } else {
                    decimal(exponent as nat)
                })
            }
        },
        _ => non_finite_text(s),
    }
}

/// The text of a tick value when no format is requested: `0` for zero,
/// scientific notation below a thousandth and from ten thousand on, otherwise
/// three decimals below a tenth, two below ten and one above, trimmed.
pub open spec fn chosen_by_size(s: Scalar) -> Seq<char> {
    match s {
        Scalar::Finite(v) => {
            let m = magnitude_of(v);
            if m == 0 {
                seq!['0']
            } else if m < 1_000 || m >= 10_000_000_000 {
                scientific(s)
            } else if m < 100_000 {
                trimmed(s, 3)
            } else if m < 10_000_000 {
                trimmed(s, 2)
            } else {
                trimmed(s, 1)
            }
        },
        Scalar::Nan => trimmed(s, 1),
        _ => scientific(s),
    }
}

/// Ten to the power `n`, for the few powers that fit a count of units.
fn power_of_ten(n: u32) -> (r: u64)
    requires
        n <= 18,
    ensures
        r == pow10(n as nat),
        r >= 1,
    decreases n,
{
    if n == 0 {
        1
    } else {
        let below = power_of_ten(n - 1);
        proof {
            lemma_pow10_bound((n - 1) as nat);
        }
        10 * below
    }
}

/// Powers of ten grow with the exponent.
pub proof fn lemma_pow10_grows(a: nat, b: nat)
    requires
        a <= b,
    ensures
        1 <= pow10(a) <= pow10(b),
    decreases b,
{
    if b > 0 {
        if a < b {
            lemma_pow10_grows(a, (b - 1) as nat);
        } else {
            lemma_pow10_grows((a - 1) as nat, (b - 1) as nat);
        }
    }
}

/// Powers of ten stay within bounds for small exponents.
pub proof fn lemma_pow10_bound(n: nat)
    ensures
        pow10(n) >= 1,
        n <= 18 ==> pow10(n) <= 1_000_000_000_000_000_000,
        n <= 17 ==> pow10(n) <= 100_000_000_000_000_000,
{
    assert(pow10(18) == 1_000_000_000_000_000_000 && pow10(17) == 100_000_000_000_000_000) by {
        reveal_with_fuel(pow10, 19);
    }
    lemma_pow10_grows(0, n);
    if n <= 18 {
        lemma_pow10_grows(n, 18);
    }
    if n <= 17 {
        lemma_pow10_grows(n, 17);
    }
}

fn unsigned(v: i64) -> (m: u64)
    ensures
        m == magnitude_of(v),
        m <= 0x8000_0000_0000_0000,
{
    if v < 0 {
        (0 - (v as i128)) as u64
    } else {
        v as u64
    }
}

fn round_to(m: u64, unit: u64) -> (q: u64)
    requires
        unit > 0,
        m <= 0x8000_0000_0000_0000,
    ensures
        q == rounded(m as nat, unit as nat),
        q <= m / unit + 1,
{
    let q = m / unit;
    let rest = m % unit;
    assert(q <= m) by (nonlinear_arith)
        requires
            q == m as int / unit as int,
            unit > 0,
            m >= 0,
    ;
    if rest > unit - rest || (rest == unit - rest && q % 2 == 1) {
        q + 1
    } else {
        q
    }
}

fn push_sign(out: &mut String, v: i64)
    ensures
        final(out)@ == old(out)@ + sign_text(v),
{
    if v < 0 {
        proof {
            reveal_strlit("-");
        }
        out.append("-");
        assert(final(out)@ =~= old(out)@ + sign_text(v));
    } else {
        assert(final(out)@ =~= old(out)@ + sign_text(v));
    }
}

fn push_non_finite(out: &mut String, s: Scalar)
    requires
        !s.finite(),
    ensures
        final(out)@ == old(out)@ + non_finite_text(s),
{
    proof {
        reveal_strlit("NaN");
        reveal_strlit("inf");
        reveal_strlit("-inf");
    }
    match s {
        Scalar::PosInf => {
            out.append("inf");
        },
        Scalar::NegInf => {
            out.append("-inf");
        },
        _ => {
            out.append("NaN");
        },
    }
    assert(final(out)@ =~= old(out)@ + non_finite_text(s));
}

fn push_point(out: &mut String)
    ensures
        final(out)@ == old(out)@ + seq!['.'],
{
    proof {
        reveal_strlit(".");
    }
    out.append(".");
    assert(final(out)@ =~= old(out)@ + seq!['.']);
}

fn push_zeros(out: &mut String, n: usize)
    ensures
        final(out)@ == old(out)@ + zeros(n as nat),
{
    let mut i: usize = 0;
    assert(out@ =~= old(out)@ + zeros(0));
    while i < n
        invariant
            i <= n,
            out@ == old(out)@ + zeros(i as nat),
        decreases n - i,
    {
        proof {
            reveal_strlit("0");
        }
        out.append("0");
        i = i + 1;
        assert(out@ =~= old(out)@ + zeros(i as nat));
    }
}

/// Writes a value with exactly `precision` decimals.
pub fn format_fixed(value: Scalar, precision: usize) -> (r: String)
    ensures
        r@ == with_precision(value, precision as nat),
{
    let mut out = String::new();
    match value {
        Scalar::Finite(v) => {
            let m = unsigned(v);
            push_sign(&mut out, v);
            if precision == 0 {
                push_decimal(&mut out, round_to(m, 1_000_000));
            } else if precision <= 6 {
                let unit = power_of_ten(6 - precision as u32);
                let scale = power_of_ten(precision as u32);
                let q = round_to(m, unit);
                push_decimal(&mut out, q / scale);
                push_point(&mut out);
                push_fixed_digits(&mut out, q % scale, 10, precision as u32);
            } else {
                push_decimal(&mut out, m / 1_000_000);
                push_point(&mut out);
                push_fixed_digits(&mut out, m % 1_000_000, 10, 6);
                push_zeros(&mut out, precision - 6);
            }
            assert(out@ =~= with_precision(value, precision as nat));
        },
        _ => {
            push_non_finite(&mut out, value);
            assert(out@ =~= with_precision(value, precision as nat));
        },
    }
    out
}

fn trim_fraction(f: u64, p: u32) -> (r: (u64, u32))
    ensures
        r.0 == trim(f as nat, p as nat).0,
        r.1 == trim(f as nat, p as nat).1,
    decreases p,
{
    if p > 1 && f % 10 == 0 {
        trim_fraction(f / 10, p - 1)
    } else {
        (f, p)
    }
}

/// Format a number with given precision, trimming unnecessary trailing zeros.
pub fn format_trim_zeros(value: Scalar, precision: usize) -> (r: String)
    ensures
        r@ == trimmed(value, precision as nat),
{
    match value {
        Scalar::Finite(v) => {
            if precision == 0 {
                format_fixed(value, 0)
            } else {
                let mut out = String::new();
                let m = unsigned(v);
                let k: u32 = if precision <= 6 { precision as u32 } else { 6 };
                let unit = power_of_ten(6 - k);
                let scale = power_of_ten(k);
                let q = round_to(m, unit);
                let (f, digits) = trim_fraction(q % scale, k);
                push_sign(&mut out, v);
                push_decimal(&mut out, q / scale);
                push_point(&mut out);
                push_fixed_digits(&mut out, f, 10, digits);
                assert(out@ =~= trimmed(value, precision as nat));
                out
            }
        },
        _ => {
            let mut out = String::new();
            push_non_finite(&mut out, value);
            assert(out@ =~= trimmed(value, precision as nat));
            out
        },
    }
}

/// Writes a value in its shortest form.
pub fn format_plain(value: Scalar) -> (r: String)
    ensures
        r@ == plain(value),
{
    let mut out = String::new();
    match value {
        Scalar::Finite(v) => {
            let m = unsigned(v);
            push_sign(&mut out, v);
            push_decimal(&mut out, m / 1_000_000);
            if m % 1_000_000 != 0 {
                let (f, digits) = trim_fraction(m % 1_000_000, 6);
                push_point(&mut out);
                push_fixed_digits(&mut out, f, 10, digits);
            }
            assert(out@ =~= plain(value));
        },
        _ => {
            push_non_finite(&mut out, value);
            assert(out@ =~= plain(value));
        },
    }
    out
}

fn count_digits(m: u64) -> (d: u32)
    ensures
        d == digit_count(m as nat),
        1 <= d <= 20,
        m < 10 <==> d == 1,
    decreases m,
{
    if m < 10 {
        1
    } else {
        let below = count_digits(m / 10);
        proof {
            lemma_digit_count_bound(m as nat);
        }
        1 + below
    }
}

/// A number below ten to the `k` has at most `k` digits.
pub proof fn lemma_digit_count_below(m: nat, k: nat)
    requires
        k >= 1,
        m < pow10(k),
    ensures
        digit_count(m) <= k,
    decreases k,
{
    if m >= 10 {
        if k == 1 {
            assert(pow10(1) == 10) by {
                reveal_with_fuel(pow10, 2);
            }
        } else {
            assert(m / 10 < pow10((k - 1) as nat)) by (nonlinear_arith)
                requires
                    m < 10 * pow10((k - 1) as nat),
            ;
            lemma_digit_count_below(m / 10, (k - 1) as nat);
        }
    }
}

/// A number of units has at most twenty digits.
pub proof fn lemma_digit_count_bound(m: nat)
    requires
        m <= 0xffff_ffff_ffff_ffff,
    ensures
        digit_count(m) <= 20,
        m <= 0x8000_0000_0000_0000 ==> digit_count(m) <= 19,
{
    assert(pow10(20) == 100_000_000_000_000_000_000 && pow10(19) == 10_000_000_000_000_000_000)
        by {
        reveal_with_fuel(pow10, 21);
    }
    lemma_digit_count_below(m, 20);
    if m <= 0x8000_0000_0000_0000 {
        lemma_digit_count_below(m, 19);
    }
}

/// A positive number lies between the powers of ten that its digit count
/// names.
pub proof fn lemma_digit_range(m: nat)
    requires
        m >= 1,
    ensures
        pow10((digit_count(m) - 1) as nat) <= m < pow10(digit_count(m)),
    decreases m,
{
    if m < 10 {
        assert(pow10(1) == 10 && pow10(0) == 1) by {
            reveal_with_fuel(pow10, 2);
        }
    } else {
        lemma_digit_range(m / 10);
        let d = digit_count(m / 10);
        assert(pow10(d) * 10 == pow10(d + 1));
        assert(pow10((d - 1) as nat) * 10 == pow10(d));
    }
}

/// The two leading digits of a number of two or more digits, rounded, lie
/// between ten and a hundred.
pub proof fn lemma_top_two(m: nat)
    requires
        m >= 10,
    ensures
        pow10((digit_count(m) - 2) as nat) >= 1,
        10 <= rounded(m, pow10((digit_count(m) - 2) as nat)) <= 100,
{
    lemma_digit_range(m);
    let d = digit_count(m);
    let unit = pow10((d - 2) as nat);
    lemma_pow10_bound((d - 2) as nat);
    assert(pow10((d - 1) as nat) == 10 * unit);
    assert(pow10(d) == 10 * pow10((d - 1) as nat));
    assert(10 <= m / unit <= 99) by (nonlinear_arith)
        requires
            10 * unit <= m < 100 * unit,
            unit >= 1,
    ;
}

/// Writes a value in scientific notation with one decimal in the mantissa.
pub fn format_scientific(value: Scalar) -> (r: String)
    ensures
        r@ == scientific(value),
{
    let mut out = String::new();
    match value {
        Scalar::Finite(v) => {
            let m = unsigned(v);
            if m == 0 {
                proof {
                    reveal_strlit("0.0e0");
                }
                out.append("0.0e0");
                assert(out@ =~= scientific(value));
            } else {
                let d = count_digits(m);
                proof {
                    lemma_digit_count_bound(m as nat);
                    if m >= 10 {
                        lemma_top_two(m as nat);
                    }
                }
                let top: u64 = if d == 1 {
                    m * 10
                } else {
                    round_to(m, power_of_ten(d - 2))
                };
                let mantissa: u64 = if top == 100 { 10 } else { top };
                let exponent: i64 = if top == 100 { d as i64 - 6 } else { d as i64 - 7 };
                push_sign(&mut out, v);
                let ghost s0 = out@;
                out.append(digit_text((mantissa / 10) as u8));
                push_point(&mut out);
                out.append(digit_text((mantissa % 10) as u8));
                proof {
                    reveal_strlit("e");
                    reveal_strlit("-");
                }
                out.append("e");
                assert(out@ =~= s0 + seq![
                    digit_char((mantissa / 10) as nat),
                    '.',
                    digit_char((mantissa % 10) as nat),
                    'e',
                ]);
                if exponent < 0 {
                    out.append("-");
                    push_decimal(&mut out, (0 - exponent) as u64);
                } else {
                    push_decimal(&mut out, exponent as u64);
                }
                assert(out@ =~= scientific(value));
            }
        },
        _ => {
            push_non_finite(&mut out, value);
            assert(out@ =~= scientific(value));
        },
    }
    out
}

/// Whether a character is one of the ten decimal digits.
pub open spec fn is_digit(c: char) -> bool {
    48 <= c as u32 <= 57
}

/// The number that a sequence of decimal digits writes; zero for none.
pub open spec fn digits_value(d: Seq<char>) -> nat
    decreases d.len(),
{
    if d.len() == 0 {
        0
    } else {
        digits_value(d.drop_last()) * 10 + (d.last() as u32 - 48) as nat
    }
}

/// Every character is a decimal digit.
pub open spec fn all_digits(d: Seq<char>) -> bool {
    forall|i: int| 0 <= i < d.len() ==> is_digit(#[trigger] d[i])
}

/// The count that a text writes: an optional plus sign and then one or more
/// decimal digits, naming a number that fits the machine's counts.
pub open spec fn written_count(t: Seq<char>) -> Option<nat> {
    let d = if t.len() > 0 && t[0] == '+' {
        t.subrange(1, t.len() as int)
    } else {
        t
    };
    if d.len() > 0 && all_digits(d) && digits_value(d) <= usize::MAX {
        Some(digits_value(d))
    } else {
        None
    }
}

/// The number of decimals that a format of the shape `%.Nf` asks for.
pub open spec fn requested_precision(format: Seq<char>) -> Option<nat> {
    if format.len() >= 3 && format[0] == '%' && format[1] == '.' && format.last() == 'f' {
        written_count(format.subrange(2, format.len() - 1))
    } else {
        None
    }
}

/// The text of a tick value. A format that holds a percent sign is followed
/// where it has the shape `%.Nf`, and gives the shortest form otherwise;
/// without such a format the form is chosen by the value's size.
pub open spec fn tick_text(value: Scalar, format: Option<Seq<char>>) -> Seq<char> {
    match format {
        Some(f) => if f.contains('%') {
            match requested_precision(f) {
                Some(p) => with_precision(value, p),
                None => plain(value),
            }
        } else {
            chosen_by_size(value)
        },
        None => chosen_by_size(value),
    }
}

fn has_percent(format: &str) -> (r: bool)
    ensures
        r == format@.contains('%'),
{
    let n = format.unicode_len();
    let mut i: usize = 0;
    while i < n
        invariant
            i <= n,
            n == format@.len(),
            forall|j: int| 0 <= j < i ==> format@[j] != '%',
        decreases n - i,
    {
        if format.get_char(i) == '%' {
            return true;
        }
        i = i + 1;
    }
    false
}

/// Reads the digits of `format` from `from` up to `to`.
fn read_digits(format: &str, from: usize, to: usize) -> (r: Option<usize>)
    requires
        from <= to <= format@.len(),
    ensures
        r == (if all_digits(format@.subrange(from as int, to as int)) && digits_value(
            format@.subrange(from as int, to as int),
        ) <= usize::MAX {
            Some(digits_value(format@.subrange(from as int, to as int)) as usize)
        } else {
            None::<usize>
        }),
{
    let ghost whole = format@.subrange(from as int, to as int);
    let mut value: usize = 0;
    let mut i: usize = from;
    assert(format@.subrange(from as int, from as int) =~= Seq::<char>::empty());
    while i < to
        invariant
            from <= i <= to <= format@.len(),
            whole == format@.subrange(from as int, to as int),
            forall|j: int| from <= j < i ==> is_digit(#[trigger] format@[j]),
            value == digits_value(format@.subrange(from as int, i as int)),
        decreases to - i,
    {
        let c = format.get_char(i);
        let code = c as u32;
        let ghost head = format@.subrange(from as int, i as int);
        let ghost longer = format@.subrange(from as int, i + 1);
        assert(longer.drop_last() =~= head);
        assert(longer.last() == c);
        if code < 48 || code > 57 {
            assert(whole[i - from] == c);
            return None;
        }
        let digit = (code - 48) as usize;
        if value > (usize::MAX - digit) / 10 {
            proof {
                if all_digits(whole) {
                    assert forall|j: int| i + 1 <= j < to implies is_digit(
                        #[trigger] format@[j],
                    ) by {
                        assert(whole[j - from] == format@[j]);
                    }
                    lemma_digits_grow(format@, from as int, i + 1, to as int);
                }
            }
            return None;
        }
        value = value * 10 + digit;
        i = i + 1;
    }
    proof {
        assert forall|j: int| 0 <= j < whole.len() implies is_digit(#[trigger] whole[j]) by {
            assert(whole[j] == format@[from + j]);
        }
    }
    Some(value)
}

/// The value of a run of digits does not shrink when more digits follow.
pub proof fn lemma_digits_grow(s: Seq<char>, from: int, mid: int, to: int)
    requires
        0 <= from <= mid <= to <= s.len(),
        forall|i: int| mid <= i < to ==> is_digit(#[trigger] s[i]),
    ensures
        digits_value(s.subrange(from, mid)) <= digits_value(s.subrange(from, to)),
    decreases to - mid,
{
    if mid < to {
        lemma_digits_grow(s, from, mid, to - 1);
        let longer = s.subrange(from, to);
        assert(longer.drop_last() =~= s.subrange(from, to - 1));
        assert(longer.last() == s[to - 1]);
    }
}

fn read_precision(format: &str) -> (r: Option<usize>)
    ensures
        r == (match requested_precision(format@) {
            Some(p) => Some(p as usize),
            None => None::<usize>,
        }),
        requested_precision(format@) is Some ==> requested_precision(format@)->Some_0
            <= usize::MAX,
{
    let n = format.unicode_len();
    if n < 3 {
        return None;
    }
    if format.get_char(0) != '%' || format.get_char(1) != '.' || format.get_char(n - 1) != 'f' {
        return None;
    }
    let start: usize = if format.get_char(2) == '+' { 3 } else { 2 };
    let ghost t = format@.subrange(2, n - 1);
    let ghost d = if t.len() > 0 && t[0] == '+' {
        t.subrange(1, t.len() as int)
    } else {
        t
    };
    proof {
        if t.len() > 0 {
            assert(t[0] == format@[2]);
        }
        assert(d =~= format@.subrange(start as int, n - 1));
        assert(format@.last() == format@[n - 1]);
        assert(requested_precision(format@) == written_count(t));
    }
    if start >= n - 1 {
        return None;
    }
    read_digits(format, start, n - 1)
}

/// Writes a tick value, following the label format if there is one.
pub fn format_tick_value(value: Scalar, format: &Option<String>) -> (r: String)
    ensures
        r@ == tick_text(
            value,
            match *format {
                Some(f) => Some(f@),
                None => None,
            },
        ),
{
    match format {
        Some(f) => {
            if has_percent(f.as_str()) {
                match read_precision(f.as_str()) {
                    Some(p) => format_fixed(value, p),
                    None => format_plain(value),
                }
            } else {
                format_by_size(value)
            }
        },
        None => format_by_size(value),
    }
}

/// Writes a tick value in the form chosen by its size.
pub fn format_by_size(value: Scalar) -> (r: String)
    ensures
        r@ == chosen_by_size(value),
{
    match value {
        Scalar::Finite(v) => {
            let m = unsigned(v);
            if m == 0 {
                proof {
                    reveal_strlit("0");
                }
                let r = String::from_str("0");
                assert(r@ =~= seq!['0']);
                r
            } else if m < 1_000 || m >= 10_000_000_000 {
                format_scientific(value)
            } else if m < 100_000 {
                format_trim_zeros(value, 3)
            } else if m < 10_000_000 {
                format_trim_zeros(value, 2)
            } else {
                format_trim_zeros(value, 1)
            }
        },
        Scalar::Nan => format_trim_zeros(value, 1),
        _ => format_scientific(value),
    }
}

} // verus!
