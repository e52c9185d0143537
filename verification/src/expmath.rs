//! The exponential function and the natural logarithm in fixed point.
//!
//! Arguments and results are counts of millionths. Inside, `e^t` is carried
//! at twelve decimal places: a polynomial of degree twelve on `t / 32`,
//! squared five times. Every step is a sum, a product or a quotient by a
//! positive constant, so every function here keeps (or reverses) the order
//! of its arguments, which is what the decay rules rely on. The logarithm is
//! the inverse of that exponential, found by bisection.

use vstd::prelude::*;
use crate::fixed::SCALE;

verus! {

/// One, at the inner precision of twelve decimal places.
pub const FINE: u128 = 1_000_000_000_000;

/// The largest exponent, in millionths, that [`exp_up`] is asked for.
pub const EXP_LIMIT: u64 = 24_000_000;

/// The exponent, in millionths, from which `e^-x` is less than a millionth.
pub const EXP_CUT: u64 = 14_000_000;

/// The tail `1 + y/k (1 + y/(k+1) (1 + ...))` of the exponential series up
/// to the twelfth term, with `y` and the result at the inner precision.
pub open spec fn series(y: nat, k: nat) -> nat
    decreases 13 - k,
{
    if k > 12 || k == 0 {
        FINE as nat
    } else {
        FINE as nat + (y * series(y, k + 1)) / (k * (FINE as nat))
    }
}

/// The square of a number at the inner precision.
pub open spec fn squared(e: nat) -> nat {
    (e * e) / (FINE as nat)
}

/// `e^t` at the inner precision, for `t` millionths.
pub open spec fn exp_up(t: nat) -> nat {
    squared(squared(squared(squared(squared(series(t * 31250, 1))))))
}

/// `e^-x` in millionths, for `x` millionths.
pub open spec fn exp_down(x: nat) -> nat {
    if x >= EXP_CUT {
        0
    } else {
        1_000_000_000_000_000_000nat / exp_up(x)
    }
}

/// `e^-x` in millionths for any integer `x` of millionths; a negative `x`
/// gives growth, held at `e^24`.
pub open spec fn exp_neg(x: int) -> nat {
    if x >= 0 {
        exp_down(x as nat)
    } else if -x >= EXP_LIMIT {
        exp_up(EXP_LIMIT as nat) / 1_000_000
    } else {
        exp_up((-x) as nat) / 1_000_000
    }
}

/// Whether `t` is the natural logarithm of `n` in millionths: the largest
/// exponent up to [`EXP_LIMIT`] whose exponential does not exceed `n`.
pub open spec fn is_log(n: nat, t: nat) -> bool {
    &&& t <= EXP_LIMIT
    &&& exp_up(t) <= n * (FINE as nat)
    &&& t < EXP_LIMIT ==> exp_up(t + 1) > n * (FINE as nat)
}

/// The natural logarithm of `n >= 1` in millionths.
pub open spec fn log_micros(n: nat) -> nat {
    choose|t: nat| is_log(n, t)
}

/// The series grows with its argument, and is at least one.
pub proof fn lemma_series_monotone(y1: nat, y2: nat, k: nat)
    requires
        y1 <= y2,
    ensures
        series(y1, k) <= series(y2, k),
        series(y1, k) >= FINE,
    decreases 13 - k,
{
    if k > 12 || k == 0 {
    } else {
        lemma_series_monotone(y1, y2, k + 1);
        let h1 = series(y1, k + 1);
        let h2 = series(y2, k + 1);
        assert(y1 * h1 <= y2 * h2) by (nonlinear_arith)
            requires
                y1 <= y2,
                h1 <= h2,
        ;
        let d = k * (FINE as nat);
        assert(d > 0) by (nonlinear_arith)
            requires
                k > 0,
                d == k * (FINE as nat),
        ;
        vstd::arithmetic::div_mod::lemma_div_is_ordered((y1 * h1) as int, (y2 * h2) as int, d as int);
    }
}

/// With `y` at most three quarters, every tail of the series is at most four.
pub proof fn lemma_series_bound(y: nat, k: nat)
    requires
        y <= 750_000_000_000,
    ensures
        series(y, k) <= 4 * FINE,
    decreases 13 - k,
{
    if k > 12 || k == 0 {
    } else {
        lemma_series_bound(y, k + 1);
        let h = series(y, k + 1);
        let d = k * (FINE as nat);
        assert(y * h <= 3_000_000_000_000 * (FINE as nat)) by (nonlinear_arith)
            requires
                y <= 750_000_000_000,
                h <= 4 * FINE,
        ;
        assert(d >= FINE) by (nonlinear_arith)
            requires
                k >= 1,
                d == k * (FINE as nat),
        ;
        vstd::arithmetic::div_mod::lemma_div_is_ordered(
            (y * h) as int,
            (3_000_000_000_000 * (FINE as nat)) as int,
            d as int,
        );
        vstd::arithmetic::div_mod::lemma_div_is_ordered_by_denominator(
            (3_000_000_000_000 * (FINE as nat)) as int,
            FINE as int,
            d as int,
        );
        assert((3_000_000_000_000 * (FINE as nat)) / (FINE as nat) == 3_000_000_000_000) by {
            vstd::arithmetic::div_mod::lemma_div_by_multiple(3_000_000_000_000, FINE as int);
        }
    }
}

/// A square grows with the number squared.
pub proof fn lemma_squared_monotone(e1: nat, e2: nat)
    requires
        e1 <= e2,
    ensures
        squared(e1) <= squared(e2),
{
    assert(e1 * e1 <= e2 * e2) by (nonlinear_arith)
        requires
            e1 <= e2,
    ;
    vstd::arithmetic::div_mod::lemma_div_is_ordered((e1 * e1) as int, (e2 * e2) as int, FINE as int);
}

/// A number at least one has a square at least one, at the inner precision.
pub proof fn lemma_squared_at_least_one(e: nat)
    requires
        e >= FINE,
    ensures
        squared(e) >= FINE,
{
    let f = FINE as nat;
    assert(e * e >= f * f) by (nonlinear_arith)
        requires
            e >= f,
    ;
    vstd::arithmetic::div_mod::lemma_div_is_ordered((f * f) as int, (e * e) as int, f as int);
    vstd::arithmetic::div_mod::lemma_div_by_multiple(f as int, f as int);
}

/// The exponential grows with its exponent.
pub proof fn lemma_exp_up_monotone(t1: nat, t2: nat)
    requires
        t1 <= t2,
    ensures
        exp_up(t1) <= exp_up(t2),
{
    let a0 = series(t1 * 31250, 1);
    let b0 = series(t2 * 31250, 1);
    lemma_series_monotone(t1 * 31250, t2 * 31250, 1);
    lemma_squared_monotone(a0, b0);
    let a1 = squared(a0);
    let b1 = squared(b0);
    lemma_squared_monotone(a1, b1);
    let a2 = squared(a1);
    let b2 = squared(b1);
    lemma_squared_monotone(a2, b2);
    let a3 = squared(a2);
    let b3 = squared(b2);
    lemma_squared_monotone(a3, b3);
    let a4 = squared(a3);
    let b4 = squared(b3);
    lemma_squared_monotone(a4, b4);
}

/// The exponential is at least one.
pub proof fn lemma_exp_up_at_least_one(t: nat)
    ensures
        exp_up(t) >= FINE,
{
    let a0 = series(t * 31250, 1);
    lemma_series_monotone(t * 31250, t * 31250, 1);
    lemma_squared_at_least_one(a0);
    lemma_squared_at_least_one(squared(a0));
    lemma_squared_at_least_one(squared(squared(a0)));
    lemma_squared_at_least_one(squared(squared(squared(a0))));
    lemma_squared_at_least_one(squared(squared(squared(squared(a0)))));
}

/// `e^0` is exactly one.
pub proof fn lemma_exp_up_zero()
    ensures
        exp_up(0) == FINE,
{
    lemma_series_zero(1);
    assert(squared(FINE as nat) == FINE) by {
        vstd::arithmetic::div_mod::lemma_div_by_multiple(FINE as int, FINE as int);
    }
}

/// At zero every tail of the series is exactly one.
pub proof fn lemma_series_zero(k: nat)
    ensures
        series(0, k) == FINE,
    decreases 13 - k,
{
    if k > 12 || k == 0 {
    } else {
        lemma_series_zero(k + 1);
        let h = series(0, k + 1);
        assert(0 * h == 0) by (nonlinear_arith);
        let d = k * (FINE as nat);
        assert(d > 0) by (nonlinear_arith)
            requires
                k > 0,
                d == k * (FINE as nat),
        ;
        assert(0int / (d as int) == 0);
    }
}

/// `e^-x` is at most one, and shrinks as `x` grows.
pub proof fn lemma_exp_down_antitone(x1: nat, x2: nat)
    requires
        x1 <= x2,
    ensures
        exp_down(x2) <= exp_down(x1) <= SCALE,
{
    lemma_exp_up_at_least_one(x1);
    lemma_exp_up_at_least_one(x2);
    lemma_exp_up_monotone(x1, x2);
    let n = 1_000_000_000_000_000_000int;
    vstd::arithmetic::div_mod::lemma_div_is_ordered_by_denominator(
        n,
        FINE as int,
        exp_up(x1) as int,
    );
    assert(n / (FINE as int) == 1_000_000);
    if x2 < EXP_CUT {
        vstd::arithmetic::div_mod::lemma_div_is_ordered_by_denominator(
            n,
            exp_up(x1) as int,
            exp_up(x2) as int,
        );
    } else if x1 < EXP_CUT {
        vstd::arithmetic::div_mod::lemma_div_pos_is_pos(n, exp_up(x1) as int);
    }
}

/// `e^-x` shrinks as `x` grows, over all integers.
pub proof fn lemma_exp_neg_antitone(x1: int, x2: int)
    requires
        x1 <= x2,
    ensures
        exp_neg(x2) <= exp_neg(x1),
{
    if x1 >= 0 {
        lemma_exp_down_antitone(x1 as nat, x2 as nat);
    } else {
        let t1: nat = if -x1 >= EXP_LIMIT {
            EXP_LIMIT as nat
        } else {
            (-x1) as nat
        };
        lemma_exp_up_at_least_one(t1);
        vstd::arithmetic::div_mod::lemma_div_is_ordered(FINE as int, exp_up(t1) as int, 1_000_000);
        assert((FINE as int) / 1_000_000 == 1_000_000);
        if x2 >= 0 {
            lemma_exp_down_antitone(x2 as nat, x2 as nat);
        } else {
            let t2: nat = if -x2 >= EXP_LIMIT {
                EXP_LIMIT as nat
            } else {
                (-x2) as nat
            };
            lemma_exp_up_monotone(t2, t1);
            vstd::arithmetic::div_mod::lemma_div_is_ordered(
                exp_up(t2) as int,
                exp_up(t1) as int,
                1_000_000,
            );
        }
    }
}

/// There is exactly one logarithm of each `n >= 1`.
pub proof fn lemma_log_unique(n: nat, t1: nat, t2: nat)
    requires
        is_log(n, t1),
        is_log(n, t2),
    ensures
        t1 == t2,
{
    if t1 < t2 {
        lemma_exp_up_monotone(t1 + 1, t2);
    } else if t2 < t1 {
        lemma_exp_up_monotone(t2 + 1, t1);
    }
}

/// The logarithm grows with its argument.
pub proof fn lemma_log_monotone(n1: nat, n2: nat)
    requires
        1 <= n1 <= n2,
        exists|t: nat| is_log(n1, t),
        exists|t: nat| is_log(n2, t),
    ensures
        log_micros(n1) <= log_micros(n2),
{
    let t1 = log_micros(n1);
    let t2 = log_micros(n2);
    assert(n1 * (FINE as nat) <= n2 * (FINE as nat)) by (nonlinear_arith)
        requires
            n1 <= n2,
    ;
    if t2 < t1 {
        lemma_exp_up_monotone(t2 + 1, t1);
    }
}

/// One step of the series: `1 + y h / k`.
fn series_step(y: u128, h: u128, k: u128) -> (r: u128)
    requires
        y <= 750_000_000_000,
        h <= 4 * FINE,
        1 <= k <= 12,
    ensures
        r == FINE as nat + (y as nat * h as nat) / (k as nat * (FINE as nat)),
{
    assert(y * h <= 3_000_000_000_000 * FINE) by (nonlinear_arith)
        requires
            y <= 750_000_000_000,
            h <= 4 * FINE,
    ;
    assert(FINE <= k * FINE <= 12 * FINE) by (nonlinear_arith)
        requires
            1 <= k <= 12,
    ;
    let p: u128 = y * h;
    let d: u128 = k * 1_000_000_000_000u128;
    assert((p as int) / (d as int) <= p) by {
        vstd::arithmetic::div_mod::lemma_div_is_ordered_by_denominator(p as int, 1, d as int);
    }
    1_000_000_000_000u128 + p / d
}

/// The exponential series of `y`, at the inner precision.
fn series_of(y: u128) -> (h: u128)
    requires
        y <= 750_000_000_000,
    ensures
        h == series(y as nat, 1),
        FINE <= h <= 4 * FINE,
{
    let mut h: u128 = 1_000_000_000_000u128;
    let mut k: u128 = 12;
    while k >= 1
        invariant
            0 <= k <= 12,
            y <= 750_000_000_000,
            h == series(y as nat, (k + 1) as nat),
        decreases k,
    {
        proof {
            lemma_series_bound(y as nat, (k + 1) as nat);
        }
        h = series_step(y, h, k);
        k = k - 1;
    }
    proof {
        lemma_series_bound(y as nat, 1);
        lemma_series_monotone(y as nat, y as nat, 1);
    }
    h
}

/// The square of `e`, at the inner precision.
fn square_of(e: u128) -> (r: u128)
    requires
        e <= 301_136_149_633_906_514,
    ensures
        r == squared(e as nat),
{
    assert(e * e <= 301_136_149_633_906_514 * 301_136_149_633_906_514) by (nonlinear_arith)
        requires
            e <= 301_136_149_633_906_514,
    ;
    let p: u128 = e * e;
    p / 1_000_000_000_000u128
}

/// The five squares of a number between one and `2.2` stay within these
/// bounds.
pub proof fn lemma_square_chain(e0: nat)
    requires
        e0 <= 2_200_000_000_000,
    ensures
        squared(e0) <= 4_840_000_000_000,
        squared(squared(e0)) <= 23_425_600_000_000,
        squared(squared(squared(e0))) <= 548_758_735_360_000,
        squared(squared(squared(squared(e0)))) <= 301_136_149_633_906_514,
        squared(squared(squared(squared(squared(e0))))) <= 90_682_980_616_334_534_305_786,
{
    let e1 = squared(e0);
    let e2 = squared(e1);
    let e3 = squared(e2);
    let e4 = squared(e3);
    lemma_squared_monotone(e0, 2_200_000_000_000);
    assert(squared(2_200_000_000_000) == 4_840_000_000_000) by (nonlinear_arith);
    lemma_squared_monotone(e1, 4_840_000_000_000);
    assert(squared(4_840_000_000_000) == 23_425_600_000_000) by (nonlinear_arith);
    lemma_squared_monotone(e2, 23_425_600_000_000);
    assert(squared(23_425_600_000_000) == 548_758_735_360_000) by (nonlinear_arith);
    lemma_squared_monotone(e3, 548_758_735_360_000);
    assert(squared(548_758_735_360_000) == 301_136_149_633_906_514) by (nonlinear_arith);
    lemma_squared_monotone(e4, 301_136_149_633_906_514);
    assert(squared(301_136_149_633_906_514) == 90_682_980_616_334_534_305_786)
        by (nonlinear_arith);
}

/// Up to the limit, the exponential fits well within 128 bits.
pub proof fn lemma_exp_up_bound(t: nat)
    requires
        t <= EXP_LIMIT,
    ensures
        exp_up(t) <= 90_682_980_616_334_534_305_786,
{
    lemma_series_monotone(t * 31250, 750_000_000_000, 1);
    lemma_series_limit();
    lemma_square_chain(series(t * 31250, 1));
}

/// `e^t` at twelve decimal places, for `t` millionths up to [`EXP_LIMIT`].
pub fn exp_up_fine(t: u64) -> (e: u128)
    requires
        t <= EXP_LIMIT,
    ensures
        e == exp_up(t as nat),
        FINE <= e <= 90_682_980_616_334_534_305_786,
{
    let y: u128 = (t as u128) * 31250;
    let e0 = series_of(y);
    proof {
        lemma_series_monotone(y as nat, 750_000_000_000, 1);
        lemma_series_limit();
        lemma_square_chain(e0 as nat);
        lemma_exp_up_at_least_one(t as nat);
    }
    let e1 = square_of(e0);
    let e2 = square_of(e1);
    let e3 = square_of(e2);
    let e4 = square_of(e3);
    square_of(e4)
}

/// One unfolding of the series on known numbers.
proof fn lemma_series_step(y: nat, k: nat, next: nat, product: nat, divisor: nat, value: nat)
    requires
        1 <= k <= 12,
        series(y, k + 1) == next,
        product == y * next,
        divisor == k * FINE,
        value == FINE + product / divisor,
    ensures
        series(y, k) == value,
{
}

/// At three quarters the series is below `2.2`.
proof fn lemma_series_limit()
    ensures
        series(750_000_000_000, 1) <= 2_200_000_000_000,
{
    assert(series(750_000_000_000, 13) == FINE);
    lemma_series_step(750_000_000_000, 12, 1_000_000_000_000, 750_000_000_000_000_000_000_000, 12_000_000_000_000, 1_062_500_000_000);
    lemma_series_step(750_000_000_000, 11, 1_062_500_000_000, 796_875_000_000_000_000_000_000, 11_000_000_000_000, 1_072_443_181_818);
    lemma_series_step(750_000_000_000, 10, 1_072_443_181_818, 804_332_386_363_500_000_000_000, 10_000_000_000_000, 1_080_433_238_636);
    lemma_series_step(750_000_000_000, 9, 1_080_433_238_636, 810_324_928_977_000_000_000_000, 9_000_000_000_000, 1_090_036_103_219);
    lemma_series_step(750_000_000_000, 8, 1_090_036_103_219, 817_527_077_414_250_000_000_000, 8_000_000_000_000, 1_102_190_884_676);
    lemma_series_step(750_000_000_000, 7, 1_102_190_884_676, 826_643_163_507_000_000_000_000, 7_000_000_000_000, 1_118_091_880_501);
    lemma_series_step(750_000_000_000, 6, 1_118_091_880_501, 838_568_910_375_750_000_000_000, 6_000_000_000_000, 1_139_761_485_062);
    lemma_series_step(750_000_000_000, 5, 1_139_761_485_062, 854_821_113_796_500_000_000_000, 5_000_000_000_000, 1_170_964_222_759);
    lemma_series_step(750_000_000_000, 4, 1_170_964_222_759, 878_223_167_069_250_000_000_000, 4_000_000_000_000, 1_219_555_791_767);
    lemma_series_step(750_000_000_000, 3, 1_219_555_791_767, 914_666_843_825_250_000_000_000, 3_000_000_000_000, 1_304_888_947_941);
    lemma_series_step(750_000_000_000, 2, 1_304_888_947_941, 978_666_710_955_750_000_000_000, 2_000_000_000_000, 1_489_333_355_477);
    lemma_series_step(750_000_000_000, 1, 1_489_333_355_477, 1_117_000_016_607_750_000_000_000, 1_000_000_000_000, 2_117_000_016_607);
}

/// One squaring on known numbers.
proof fn lemma_squared_value(e: nat, product: nat, value: nat)
    requires
        product == e * e,
        value == product / (FINE as nat),
    ensures
        squared(e) == value,
{
}

/// `e^-1`, to six decimal places.
pub proof fn lemma_exp_down_at_one()
    ensures
        exp_down(1_000_000) == 367_879,
{
    assert(series(31_250_000_000, 13) == FINE);
    lemma_series_step(31_250_000_000, 12, 1_000_000_000_000, 31_250_000_000_000_000_000_000, 12_000_000_000_000, 1_002_604_166_666);
    lemma_series_step(31_250_000_000, 11, 1_002_604_166_666, 31_331_380_208_312_500_000_000, 11_000_000_000_000, 1_002_848_307_291);
    lemma_series_step(31_250_000_000, 10, 1_002_848_307_291, 31_339_009_602_843_750_000_000, 10_000_000_000_000, 1_003_133_900_960);
    lemma_series_step(31_250_000_000, 9, 1_003_133_900_960, 31_347_934_405_000_000_000_000, 9_000_000_000_000, 1_003_483_103_822);
    lemma_series_step(31_250_000_000, 8, 1_003_483_103_822, 31_358_846_994_437_500_000_000, 8_000_000_000_000, 1_003_919_855_874);
    lemma_series_step(31_250_000_000, 7, 1_003_919_855_874, 31_372_495_496_062_500_000_000, 7_000_000_000_000, 1_004_481_785_070);
    lemma_series_step(31_250_000_000, 6, 1_004_481_785_070, 31_390_055_783_437_500_000_000, 6_000_000_000_000, 1_005_231_675_963);
    lemma_series_step(31_250_000_000, 5, 1_005_231_675_963, 31_413_489_873_843_750_000_000, 5_000_000_000_000, 1_006_282_697_974);
    lemma_series_step(31_250_000_000, 4, 1_006_282_697_974, 31_446_334_311_687_500_000_000, 4_000_000_000_000, 1_007_861_583_577);
    lemma_series_step(31_250_000_000, 3, 1_007_861_583_577, 31_495_674_486_781_250_000_000, 3_000_000_000_000, 1_010_498_558_162);
    lemma_series_step(31_250_000_000, 2, 1_010_498_558_162, 31_578_079_942_562_500_000_000, 2_000_000_000_000, 1_015_789_039_971);
    lemma_series_step(31_250_000_000, 1, 1_015_789_039_971, 31_743_407_499_093_750_000_000, 1_000_000_000_000, 1_031_743_407_499);
    lemma_squared_value(1_031_743_407_499, 1_064_494_458_917_647_569_435_001, 1_064_494_458_917);
    lemma_squared_value(1_064_494_458_917, 1_133_148_453_064_996_600_812_889, 1_133_148_453_064);
    lemma_squared_value(1_133_148_453_064, 1_284_025_416_681_336_210_988_096, 1_284_025_416_681);
    lemma_squared_value(1_284_025_416_681, 1_648_721_270_682_815_673_055_761, 1_648_721_270_682);
    lemma_squared_value(1_648_721_270_682, 2_718_281_828_399_268_712_745_124, 2_718_281_828_399);
    assert(1_000_000_000_000_000_000nat / 2_718_281_828_399nat == 367_879);
}

/// `e^-2`, to six decimal places.
pub proof fn lemma_exp_down_at_two()
    ensures
        exp_down(2_000_000) == 135_335,
{
    assert(series(62_500_000_000, 13) == FINE);
    lemma_series_step(62_500_000_000, 12, 1_000_000_000_000, 62_500_000_000_000_000_000_000, 12_000_000_000_000, 1_005_208_333_333);
    lemma_series_step(62_500_000_000, 11, 1_005_208_333_333, 62_825_520_833_312_500_000_000, 11_000_000_000_000, 1_005_711_410_984);
    lemma_series_step(62_500_000_000, 10, 1_005_711_410_984, 62_856_963_186_500_000_000_000, 10_000_000_000_000, 1_006_285_696_318);
    lemma_series_step(62_500_000_000, 9, 1_006_285_696_318, 62_892_856_019_875_000_000_000, 9_000_000_000_000, 1_006_988_095_113);
    lemma_series_step(62_500_000_000, 8, 1_006_988_095_113, 62_936_755_944_562_500_000_000, 8_000_000_000_000, 1_007_867_094_493);
    lemma_series_step(62_500_000_000, 7, 1_007_867_094_493, 62_991_693_405_812_500_000_000, 7_000_000_000_000, 1_008_998_813_343);
    lemma_series_step(62_500_000_000, 6, 1_008_998_813_343, 63_062_425_833_937_500_000_000, 6_000_000_000_000, 1_010_510_404_305);
    lemma_series_step(62_500_000_000, 5, 1_010_510_404_305, 63_156_900_269_062_500_000_000, 5_000_000_000_000, 1_012_631_380_053);
    lemma_series_step(62_500_000_000, 4, 1_012_631_380_053, 63_289_461_253_312_500_000_000, 4_000_000_000_000, 1_015_822_365_313);
    lemma_series_step(62_500_000_000, 3, 1_015_822_365_313, 63_488_897_832_062_500_000_000, 3_000_000_000_000, 1_021_162_965_944);
    lemma_series_step(62_500_000_000, 2, 1_021_162_965_944, 63_822_685_371_500_000_000_000, 2_000_000_000_000, 1_031_911_342_685);
    lemma_series_step(62_500_000_000, 1, 1_031_911_342_685, 64_494_458_917_812_500_000_000, 1_000_000_000_000, 1_064_494_458_917);
    lemma_squared_value(1_064_494_458_917, 1_133_148_453_064_996_600_812_889, 1_133_148_453_064);
    lemma_squared_value(1_133_148_453_064, 1_284_025_416_681_336_210_988_096, 1_284_025_416_681);
    lemma_squared_value(1_284_025_416_681, 1_648_721_270_682_815_673_055_761, 1_648_721_270_682);
    lemma_squared_value(1_648_721_270_682, 2_718_281_828_399_268_712_745_124, 2_718_281_828_399);
    lemma_squared_value(2_718_281_828_399, 7_389_056_098_604_210_482_903_201, 7_389_056_098_604);
    assert(1_000_000_000_000_000_000nat / 7_389_056_098_604nat == 135_335);
}

/// `e^-x` in millionths, for `x` millionths.
pub fn exp_down_micros(x: u64) -> (r: u64)
    ensures
        r == exp_down(x as nat),
        r <= SCALE,
{
    proof {
        lemma_exp_down_antitone(x as nat, x as nat);
    }
    if x >= EXP_CUT {
        0
    } else {
        let e = exp_up_fine(x);
        let q: u128 = 1_000_000_000_000_000_000u128 / e;
        q as u64
    }
}

/// `e^-x` in millionths for `x` millionths of either sign.
pub fn exp_neg_micros(x: i64) -> (r: u64)
    ensures
        r == exp_neg(x as int),
{
    if x >= 0 {
        exp_down_micros(x as u64)
    } else {
        let t: u64 = if x <= -24_000_000 {
            24_000_000
        } else {
            (-x) as u64
        };
        let e = exp_up_fine(t);
        let q: u128 = e / 1_000_000u128;
        q as u64
    }
}

/// The natural logarithm of `n >= 1` in millionths.
pub fn log_of(n: u64) -> (r: u64)
    requires
        n >= 1,
    ensures
        is_log(n as nat, r as nat),
        r == log_micros(n as nat),
{
    let bound: u128 = (n as u128) * 1_000_000_000_000u128;
    let mut lo: u64 = 0;
    let mut hi: u64 = 24_000_000;
    proof {
        lemma_exp_up_zero();
    }
    if exp_up_fine(hi) <= bound {
        proof {
            lemma_log_is(n as nat, hi as nat);
        }
        return hi;
    }
    while hi - lo > 1
        invariant
            lo < hi <= EXP_LIMIT,
            bound == n * FINE,
            exp_up(lo as nat) <= bound,
            exp_up(hi as nat) > bound,
        decreases hi - lo,
    {
        let mid: u64 = lo + (hi - lo) / 2;
        if exp_up_fine(mid) <= bound {
            lo = mid;
        } else {
            hi = mid;
        }
    }
    proof {
        lemma_log_is(n as nat, lo as nat);
    }
    lo
}

/// A number that meets the definition of the logarithm is the logarithm.
pub proof fn lemma_log_is(n: nat, t: nat)
    requires
        is_log(n, t),
    ensures
        log_micros(n) == t,
{
    lemma_log_unique(n, t, log_micros(n));
}

/// `e^-x` in millionths stays below `2^63`, whatever the sign of `x`.
pub proof fn lemma_exp_neg_bound(x: int)
    ensures
        exp_neg(x) <= 90_682_980_616_334_534,
{
    if x >= 0 {
        lemma_exp_down_antitone(x as nat, x as nat);
    } else {
        let t: nat = if -x >= EXP_LIMIT {
            EXP_LIMIT as nat
        } else {
            (-x) as nat
        };
        lemma_exp_up_bound(t);
        vstd::arithmetic::div_mod::lemma_div_is_ordered(
            exp_up(t) as int,
            90_682_980_616_334_534_305_786,
            1_000_000,
        );
    }
}

/// Every `n >= 1` has a logarithm.
pub proof fn lemma_log_exists(n: nat)
    requires
        n >= 1,
    ensures
        is_log(n, log_micros(n)),
{
    lemma_exp_up_zero();
    assert(FINE <= n * (FINE as nat)) by (nonlinear_arith)
        requires
            n >= 1,
    ;
    lemma_log_search(n, 0);
}

/// From an exponent whose exponential does not exceed `n`, a logarithm of
/// `n` is found by going up.
proof fn lemma_log_search(n: nat, t: nat)
    requires
        t <= EXP_LIMIT,
        exp_up(t) <= n * (FINE as nat),
    ensures
        is_log(n, log_micros(n)),
    decreases EXP_LIMIT - t,
{
    if t == EXP_LIMIT || exp_up(t + 1) > n * (FINE as nat) {
        assert(is_log(n, t));
    } else {
        lemma_log_search(n, t + 1);
    }
}

/// The series is at least `1 + y`.
pub proof fn lemma_series_above_line(y: nat)
    ensures
        series(y, 1) >= FINE + y,
{
    lemma_series_monotone(y, y, 2);
    let h = series(y, 2);
    assert(y * h >= y * (FINE as nat)) by (nonlinear_arith)
        requires
            h >= FINE,
    ;
    vstd::arithmetic::div_mod::lemma_div_is_ordered(
        (y * (FINE as nat)) as int,
        (y * h) as int,
        FINE as int,
    );
    vstd::arithmetic::div_mod::lemma_div_by_multiple(y as int, FINE as int);
    assert(1 * (FINE as nat) == FINE);
}

/// The square of a number that is at least `1 + d` is at least `1 + 2d`.
pub proof fn lemma_squared_above_line(e: nat, d: nat)
    requires
        e >= FINE + d,
    ensures
        squared(e) >= FINE + 2 * d,
{
    let f = FINE as nat;
    assert(e * e >= (f + 2 * d) * f) by (nonlinear_arith)
        requires
            e >= f + d,
    ;
    vstd::arithmetic::div_mod::lemma_div_is_ordered(
        ((f + 2 * d) * f) as int,
        (e * e) as int,
        f as int,
    );
    vstd::arithmetic::div_mod::lemma_div_by_multiple((f + 2 * d) as int, f as int);
}

/// The exponential lies above its tangent at zero: `e^t >= 1 + t`.
pub proof fn lemma_exp_up_above_line(t: nat)
    ensures
        exp_up(t) >= FINE + t * 1_000_000,
{
    let y = t * 31250;
    let e0 = series(y, 1);
    lemma_series_above_line(y);
    lemma_squared_above_line(e0, y);
    lemma_squared_above_line(squared(e0), 2 * y);
    lemma_squared_above_line(squared(squared(e0)), 4 * y);
    lemma_squared_above_line(squared(squared(squared(e0))), 8 * y);
    lemma_squared_above_line(squared(squared(squared(squared(e0)))), 16 * y);
}

/// The decay lies below the hyperbola: `e^-x <= 1 / (1 + x)`.
pub proof fn lemma_exp_down_below_hyperbola(x: nat)
    ensures
        exp_down(x) * (1_000_000 + x) <= 1_000_000_000_000,
{
    if x < EXP_CUT {
        lemma_exp_up_above_line(x);
        let e = exp_up(x);
        let n = 1_000_000_000_000_000_000int;
        let q = n / (e as int);
        vstd::arithmetic::div_mod::lemma_fundamental_div_mod(n, e as int);
        vstd::arithmetic::div_mod::lemma_mod_bound(n, e as int);
        vstd::arithmetic::div_mod::lemma_div_pos_is_pos(n, e as int);
        assert(q * e <= n) by (nonlinear_arith)
            requires
                n == e * q + n % (e as int),
                0 <= n % (e as int),
        ;
        assert(q * ((1_000_000 + x) * 1_000_000) <= q * e) by (nonlinear_arith)
            requires
                e >= (1_000_000 + x) * 1_000_000,
                q >= 0,
        ;
        assert(q * ((1_000_000 + x) * 1_000_000) == (q * (1_000_000 + x)) * 1_000_000)
            by (nonlinear_arith);
    }
}

} // verus!
