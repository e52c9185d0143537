//! Fixed-point numbers in millionths.
//!
//! Importance, confidence, strength, weights and every score of the ranking
//! pipeline are real numbers of modest size. They are held as a signed count
//! of millionths, so that `1.0` is [`SCALE`] and arithmetic is exact integer
//! arithmetic with a stated rounding.

use vstd::prelude::*;
use crate::text::{decimal, digit, digit_char, push_decimal, string_of};

verus! {

/// The number of millionths in one.
pub const SCALE: i64 = 1_000_000;

/// A real number held as a count of millionths.
#[derive(Clone, Copy, Debug, PartialEq, Eq, Structural)]
pub struct Score {
    pub micros: i64,
}

/// The quotient of `p` by a positive `d`, rounded toward zero.
pub open spec fn trunc_div(p: int, d: int) -> int {
    if p >= 0 {
        p / d
    } else {
        -((-p) / d)
    }
}

/// `v` brought into the range of `i64`.
pub open spec fn saturate(v: int) -> int {
    if v < i64::MIN {
        i64::MIN as int
    } else if v > i64::MAX {
        i64::MAX as int
    } else {
        v
    }
}

/// `v` brought into the unit interval `[0, SCALE]`.
pub open spec fn unit(v: int) -> int {
    if v < 0 {
        0
    } else if v > SCALE {
        SCALE as int
    } else {
        v
    }
}

/// The product of two counts of millionths, as a count of millionths.
pub open spec fn mul_micros(a: int, b: int) -> int {
    saturate(trunc_div(a * b, SCALE as int))
}

/// The quotient of two counts of millionths, as a count of millionths.
pub open spec fn div_micros(a: int, b: int) -> int {
    saturate(trunc_div(a * SCALE, b))
}

/// The `width` low decimal digits of `n`, most significant first, padded
/// with zeros.
pub open spec fn padded(n: nat, width: nat) -> Seq<char>
    decreases width,
{
    if width == 0 {
        Seq::empty()
    } else {
        padded(n / 10, (width - 1) as nat).push(digit_char(n % 10))
    }
}

/// `s` without its trailing zeros.
pub open spec fn strip_zeros(s: Seq<char>) -> Seq<char>
    decreases s.len(),
{
    if s.len() > 0 && s.last() == '0' {
        strip_zeros(s.drop_last())
    } else {
        s
    }
}

/// The absolute value of `m`.
pub open spec fn magnitude(m: int) -> nat {
    if m < 0 {
        (-m) as nat
    } else {
        m as nat
    }
}

/// The sign of `m` as text: `-` for a negative number, nothing otherwise.
pub open spec fn sign_text(m: int) -> Seq<char> {
    if m < 0 {
        seq!['-']
    } else {
        Seq::empty()
    }
}

/// The shortest decimal text of `m` millionths: the integer part, and, where
/// the fraction is not zero, a point and the fraction without trailing zeros.
pub open spec fn decimal_text(m: int) -> Seq<char> {
    let a = magnitude(m);
    let whole = sign_text(m) + decimal(a / (SCALE as nat));
    if a % (SCALE as nat) == 0 {
        whole
    } else {
        whole + seq!['.'] + strip_zeros(padded(a % (SCALE as nat), 6))
    }
}

/// The number of hundredths nearest to `a` millionths, halves rounded up.
pub open spec fn hundredths(a: nat) -> nat {
    (a + 5000) / 10000
}

/// The text of `m` millionths with exactly two decimals, rounded to the
/// nearest hundredth (halves away from zero).
pub open spec fn two_decimals_text(m: int) -> Seq<char> {
    let h = hundredths(magnitude(m));
    sign_text(m) + decimal(h / 100) + seq!['.'] + padded(h % 100, 2)
}

impl Score {
    /// The number as a mathematical integer count of millionths.
    pub open spec fn value(self) -> int {
        self.micros as int
    }

    /// Whether the number lies in `[0, 1]`.
    pub open spec fn in_unit(self) -> bool {
        0 <= self.micros <= SCALE
    }

    /// The number of `micros` millionths.
    pub fn from_micros(micros: i64) -> (r: Score)
        ensures
            r.micros == micros,
    {
        Score { micros }
    }

    /// Zero.
    pub fn zero() -> (r: Score)
        ensures
            r.micros == 0,
    {
        Score { micros: 0 }
    }

    /// One.
    pub fn one() -> (r: Score)
        ensures
            r.micros == SCALE,
    {
        Score { micros: SCALE }
    }

    /// `num / den` in millionths, rounded down; zero where `den` is zero.
    pub fn ratio(num: u64, den: u64) -> (r: Score)
        ensures
            den == 0 ==> r.micros == 0,
            den > 0 ==> r.micros == saturate((num as int) * SCALE / (den as int)),
    {
        if den == 0 {
            return Score { micros: 0 };
        }
        let p: u128 = (num as u128) * 1_000_000u128;
        let q: u128 = p / (den as u128);
        if q > i64::MAX as u128 {
            Score { micros: i64::MAX }
        } else {
            Score { micros: q as i64 }
        }
    }

    /// The number brought into `[0, 1]`.
    pub fn clamp_unit(self) -> (r: Score)
        ensures
            r.micros == unit(self.micros as int),
            r.in_unit(),
    {
        if self.micros < 0 {
            Score { micros: 0 }
        } else if self.micros > SCALE {
            Score { micros: SCALE }
        } else {
            self
        }
    }

    /// The sum, held at the ends of the range of `i64`.
    pub fn plus(self, other: Score) -> (r: Score)
        ensures
            r.micros == saturate(self.micros + other.micros),
    {
        let s: i128 = self.micros as i128 + other.micros as i128;
        Score { micros: narrow(s) }
    }

    /// The difference, held at the ends of the range of `i64`.
    pub fn minus(self, other: Score) -> (r: Score)
        ensures
            r.micros == saturate(self.micros - other.micros),
    {
        let s: i128 = self.micros as i128 - other.micros as i128;
        Score { micros: narrow(s) }
    }

    /// The product, rounded toward zero and held at the ends of the range.
    pub fn times(self, other: Score) -> (r: Score)
        ensures
            r.micros == mul_micros(self.micros as int, other.micros as int),
    {
        let a: i128 = self.micros as i128;
        let b: i128 = other.micros as i128;
        assert(-0x4000_0000_0000_0000_0000_0000_0000_0000 <= a * b
            <= 0x4000_0000_0000_0000_0000_0000_0000_0000) by (nonlinear_arith)
            requires
                -0x8000_0000_0000_0000 <= a <= 0x8000_0000_0000_0000,
                -0x8000_0000_0000_0000 <= b <= 0x8000_0000_0000_0000,
        ;
        let p: i128 = a * b;
        let q: i128 = p / 1_000_000i128;
        Score { micros: narrow(q) }
    }

    /// The quotient by a positive number, rounded toward zero and held at
    /// the ends of the range.
    pub fn over(self, other: Score) -> (r: Score)
        requires
            other.micros > 0,
        ensures
            r.micros == div_micros(self.micros as int, other.micros as int),
    {
        let a: i128 = self.micros as i128;
        let p: i128 = a * 1_000_000i128;
        let q: i128 = p / (other.micros as i128);
        Score { micros: narrow(q) }
    }

    /// The larger of two numbers.
    pub fn at_least(self, floor: Score) -> (r: Score)
        ensures
            r.micros == if self.micros >= floor.micros {
                self.micros
            } else {
                floor.micros
            },
    {
        if self.micros >= floor.micros {
            self
        } else {
            floor
        }
    }

    /// The shortest decimal text of the number, such as `0.2`, `-1.5` or `3`.
    pub fn to_decimal_string(self) -> (s: String)
        ensures
            s@ == decimal_text(self.micros as int),
    {
        let mut out: Vec<char> = Vec::new();
        let a: u64 = abs_micros(self.micros);
        if self.micros < 0 {
            out.push('-');
        }
        assert(out@ =~= sign_text(self.micros as int));
        push_decimal(&mut out, a / 1_000_000);
        let frac: u64 = a % 1_000_000;
        if frac != 0 {
            out.push('.');
            let mut digits: Vec<char> = Vec::new();
            push_padded(&mut digits, frac, 6);
            strip_trailing_zeros(&mut digits);
            crate::text::push_chars(&mut out, &digits);
        }
        let s = string_of(&out);
        assert(s@ =~= decimal_text(self.micros as int));
        s
    }

    /// The number with exactly two decimals, such as `0.25` or `-1.20`.
    pub fn to_two_decimals(self) -> (s: String)
        ensures
            s@ == two_decimals_text(self.micros as int),
    {
        let mut out: Vec<char> = Vec::new();
        let a: u64 = abs_micros(self.micros);
        if self.micros < 0 {
            out.push('-');
        }
        assert(out@ =~= sign_text(self.micros as int));
        let h: u64 = (a + 5000) / 10000;
        push_decimal(&mut out, h / 100);
        out.push('.');
        push_padded(&mut out, h % 100, 2);
        let s = string_of(&out);
        assert(s@ =~= two_decimals_text(self.micros as int));
        s
    }
}

/// `v` brought into the range of `i64`.
pub fn narrow(v: i128) -> (r: i64)
    ensures
        r == saturate(v as int),
{
    if v < i64::MIN as i128 {
        i64::MIN
    } else if v > i64::MAX as i128 {
        i64::MAX
    } else {
        v as i64
    }
}

/// The absolute value of `m`.
pub fn abs_micros(m: i64) -> (r: u64)
    ensures
        r == magnitude(m as int),
{
    if m < 0 {
        let w: i128 = -(m as i128);
        w as u64
    } else {
        m as u64
    }
}

/// Appends the `width` low decimal digits of `n` to `out`.
pub fn push_padded(out: &mut Vec<char>, n: u64, width: u8)
    ensures
        final(out)@ == old(out)@ + padded(n as nat, width as nat),
    decreases width,
{
    if width == 0 {
        assert(out@ =~= old(out)@ + padded(n as nat, 0));
    } else {
        push_padded(out, n / 10, width - 1);
        out.push(digit((n % 10) as u8));
        assert(out@ =~= old(out)@ + padded(n as nat, width as nat));
    }
}

/// Removes the trailing zeros of `digits`.
pub fn strip_trailing_zeros(digits: &mut Vec<char>)
    ensures
        final(digits)@ == strip_zeros(old(digits)@),
{
    while digits.len() > 0 && digits[digits.len() - 1] == '0'
        invariant
            strip_zeros(digits@) == strip_zeros(old(digits)@),
        decreases digits.len(),
    {
        let ghost before = digits@;
        digits.pop();
        assert(digits@ =~= before.drop_last());
    }
}

/// Truncating division never moves a number to the other side of a smaller
/// one: it keeps the order of its dividends.
pub proof fn lemma_trunc_div_monotone(p: int, q: int, d: int)
    requires
        d > 0,
        p <= q,
    ensures
        trunc_div(p, d) <= trunc_div(q, d),
{
    if p >= 0 {
        vstd::arithmetic::div_mod::lemma_div_is_ordered(p, q, d);
    } else if q < 0 {
        vstd::arithmetic::div_mod::lemma_div_is_ordered(-q, -p, d);
    } else {
        vstd::arithmetic::div_mod::lemma_div_pos_is_pos(-p, d);
        vstd::arithmetic::div_mod::lemma_div_pos_is_pos(q, d);
    }
}

/// A product with a factor that is not negative keeps the order of the other
/// factor.
pub proof fn lemma_mul_micros_monotone(a1: int, a2: int, b: int)
    requires
        a1 <= a2,
        b >= 0,
    ensures
        mul_micros(a1, b) <= mul_micros(a2, b),
        mul_micros(b, a1) <= mul_micros(b, a2),
{
    assert(a1 * b <= a2 * b) by (nonlinear_arith)
        requires
            a1 <= a2,
            b >= 0,
    ;
    assert(b * a1 == a1 * b && b * a2 == a2 * b) by (nonlinear_arith);
    lemma_trunc_div_monotone(a1 * b, a2 * b, SCALE as int);
}

/// A product of two numbers that are not negative is not negative.
pub proof fn lemma_mul_micros_nonnegative(a: int, b: int)
    requires
        a >= 0,
        b >= 0,
    ensures
        mul_micros(a, b) >= 0,
{
    assert(a * b >= 0) by (nonlinear_arith)
        requires
            a >= 0,
            b >= 0,
    ;
    vstd::arithmetic::div_mod::lemma_div_pos_is_pos(a * b, SCALE as int);
}

/// A product of two numbers of the unit interval lies in the unit
/// interval, and is no more than either factor.
pub proof fn lemma_mul_micros_unit(a: int, b: int)
    requires
        0 <= a <= SCALE,
        0 <= b <= SCALE,
    ensures
        0 <= mul_micros(a, b) <= SCALE,
        mul_micros(a, b) <= a,
        mul_micros(a, b) <= b,
{
    lemma_mul_micros_nonnegative(a, b);
    lemma_mul_micros_monotone(a, SCALE as int, b);
    lemma_mul_micros_monotone(b, SCALE as int, a);
    assert(trunc_div(1_000_000 * b, 1_000_000) == b) by {
        vstd::arithmetic::div_mod::lemma_div_multiples_vanish(b, 1_000_000);
        assert(1_000_000 * b == b * 1_000_000) by (nonlinear_arith);
    }
    assert(trunc_div(a * 1_000_000, 1_000_000) == a) by {
        vstd::arithmetic::div_mod::lemma_div_multiples_vanish(a, 1_000_000);
    }
}

/// A product with zero is zero.
pub proof fn lemma_mul_micros_zero(b: int)
    ensures
        mul_micros(0, b) == 0,
        mul_micros(b, 0) == 0,
{
    assert(0 * b == 0 && b * 0 == 0) by (nonlinear_arith);
}

/// A product of two numbers that are not negative is positive exactly
/// where the exact product is at least one millionth.
pub proof fn lemma_mul_micros_positive(a: int, b: int)
    requires
        a >= 0,
        b >= 0,
    ensures
        mul_micros(a, b) > 0 <==> a * b >= SCALE,
{
    assert(a * b >= 0) by (nonlinear_arith)
        requires
            a >= 0,
            b >= 0,
    ;
    let p = a * b;
    if p >= 1_000_000 {
        vstd::arithmetic::div_mod::lemma_div_is_ordered(1_000_000, p, 1_000_000);
    } else {
        vstd::arithmetic::div_mod::lemma_basic_div(p, 1_000_000);
    }
}

} // verus!
