//! The self-test movement: a slow triangle wave on each channel.

use vstd::prelude::*;

use crate::servo::{INPUT_MAX, INPUT_MIN};

verus! {

/// The period of each channel's wave. They share few factors, so that the four
/// waves together take days to repeat.
pub const SWEEP_PERIODS_MS: [u64; 4] = [3_700, 5_100, 4_300, 6_100];

/// How high a triangle wave of period `period` stands at the phase `p`, in
/// thousandths: up from 0 to 1000 in the first half, and down again after it.
pub open spec fn wave_height(p: int, period: int) -> int {
    let half = period / 2;
    if p < half {
        p * 1000 / half
    } else {
        1000 - (p - half) * 1000 / half
    }
}

/// The input that a triangle wave of period `period` gives at the time `t`.
pub open spec fn sweep_value(t: int, period: int) -> int {
    INPUT_MIN + (INPUT_MAX - INPUT_MIN) * wave_height(t % period, period) / 1000
}

/// Whether the arithmetic for the time `t` stays within 64 bits.
pub open spec fn sweep_admits(t: int, period: int) -> bool {
    let p = t % period;
    let half = period / 2;
    &&& period >= 2
    &&& (if p < half {
        p
    } else {
        p - half
    }) * 1000 <= i64::MAX
}

/// The inputs of the four channels at the time `t`.
pub open spec fn sweep_inputs(t: int) -> Seq<int> {
    Seq::new(4, |i: int| sweep_value(t, SWEEP_PERIODS_MS@[i] as int))
}

/// The height of the wave is a height.
proof fn lemma_height_range(p: int, period: int)
    requires
        period >= 2,
        0 <= p < period,
    ensures
        0 <= wave_height(p, period) <= 1000,
{
    let half = period / 2;
    if p < half {
        lemma_share(p, half);
    } else {
        lemma_share(p - half, half);
    }
}

/// A part of a whole is between 0 and 1000 thousandths of it.
proof fn lemma_share(part: int, whole: int)
    requires
        0 <= part <= whole,
        whole > 0,
    ensures
        0 <= part * 1000 / whole <= 1000,
        part == 0 ==> part * 1000 / whole == 0,
        part == whole ==> part * 1000 / whole == 1000,
{
    assert(0 <= part * 1000 / whole <= 1000) by (nonlinear_arith)
        requires
            0 <= part <= whole,
            whole > 0,
    ;
    assert(part == 0 ==> part * 1000 / whole == 0) by (nonlinear_arith)
        requires
            whole > 0,
    ;
    assert(part == whole ==> part * 1000 / whole == 1000) by (nonlinear_arith)
        requires
            whole > 0,
    ;
}

/// Triangle wave from `INPUT_MIN` to `INPUT_MAX` and back over `period_ms`.
pub fn sweep_axis(t_ms: u64, period_ms: u64) -> (r: i32)
    requires
        sweep_admits(t_ms as int, period_ms as int),
    ensures
        r == sweep_value(t_ms as int, period_ms as int),
{
    let p: u64 = t_ms % period_ms;
    let half: u64 = period_ms / 2;
    proof {
        lemma_height_range(p as int, period_ms as int);
        if p >= half {
            lemma_share(p - half, half as int);
        }
    }
    let height: i64 = if p < half {
        (p as i64) * 1000 / (half as i64)
    } else {
        1000 - ((p - half) as i64) * 1000 / (half as i64)
    };
    let span: i64 = (INPUT_MAX - INPUT_MIN) as i64;
    INPUT_MIN + (span * height / 1000) as i32
}

/// The inputs of the four channels after `uptime_ms`.
pub fn sweep_targets(uptime_ms: u64) -> (r: [i32; 4])
    ensures
        r@.map_values(|v: i32| v as int) == sweep_inputs(uptime_ms as int),
{
    let r: [i32; 4] = [
        sweep_axis(uptime_ms, SWEEP_PERIODS_MS[0]),
        sweep_axis(uptime_ms, SWEEP_PERIODS_MS[1]),
        sweep_axis(uptime_ms, SWEEP_PERIODS_MS[2]),
        sweep_axis(uptime_ms, SWEEP_PERIODS_MS[3]),
    ];
    assert(r@.map_values(|v: i32| v as int) == sweep_inputs(uptime_ms as int));
    r
}

/// The wave never leaves the range of inputs that move a servo.
pub proof fn sweep_within_range(t: int, period: int)
    requires
        period >= 2,
    ensures
        INPUT_MIN <= sweep_value(t, period) <= INPUT_MAX,
{
    lemma_height_range(t % period, period);
}

/// The wave starts at its least value and stands at its greatest after half a
/// period.
pub proof fn sweep_spans_range(period: int)
    requires
        period >= 2,
    ensures
        sweep_value(0, period) == INPUT_MIN,
        sweep_value(period / 2, period) == INPUT_MAX,
{
    lemma_share(0, period / 2);
    lemma_top(period / 2, period);
}

/// The wave repeats after each period.
pub proof fn sweep_repeats(t: int, period: int, k: int)
    requires
        period >= 2,
    ensures
        sweep_value(t + k * period, period) == sweep_value(t, period),
{
    vstd::arithmetic::div_mod::lemma_mod_multiples_vanish(k, t, period);
    assert(period * k + t == t + k * period) by (nonlinear_arith);
}

/// The wave never falls up to the middle of its period and never rises from
/// there on.
pub proof fn sweep_rises_and_falls(t: int, u: int, period: int)
    requires
        period >= 2,
        0 <= t <= u < period,
    ensures
        u <= period / 2 ==> sweep_value(t, period) <= sweep_value(u, period),
        t >= period / 2 ==> sweep_value(u, period) <= sweep_value(t, period),
{
    let half = period / 2;
    vstd::arithmetic::div_mod::lemma_small_mod(t as nat, period as nat);
    vstd::arithmetic::div_mod::lemma_small_mod(u as nat, period as nat);
    vstd::arithmetic::div_mod::lemma_div_is_ordered(t * 1000, u * 1000, half);
    vstd::arithmetic::div_mod::lemma_div_is_ordered(
        (t - half) * 1000,
        (u - half) * 1000,
        half,
    );
    if u == half {
        lemma_top(u, period);
        sweep_within_range(t, period);
    }
}

/// The wave stands at its greatest value from half its period on, for as long
/// as the way down rounds to nothing.
proof fn lemma_top(p: int, period: int)
    requires
        period >= 2,
        0 <= p < period,
    ensures
        sweep_value(p, period) == INPUT_MAX <==> period / 2 <= p && (p - period / 2) * 1000
            < period / 2,
{
    let half = period / 2;
    vstd::arithmetic::div_mod::lemma_small_mod(p as nat, period as nat);
    lemma_height_range(p, period);
    if p < half {
        assert(p * 1000 / half < 1000) by (nonlinear_arith)
            requires
                0 <= p < half,
        ;
    } else {
        let q = p - half;
        assert(q * 1000 / half == 0 <==> q * 1000 < half) by (nonlinear_arith)
            requires
                half > 0,
                q >= 0,
        ;
    }
}

/// The wave repeats after nothing but whole periods: any other delay shows at
/// some time.
pub proof fn sweep_repeats_only_so(d: int, period: int) -> (t: int)
    requires
        period >= 2,
        d % period != 0,
    ensures
        0 <= t < period,
        sweep_value(t + d, period) != sweep_value(t, period),
{
    let half = period / 2;
    let k = d / period;
    let d0 = d % period;
    vstd::arithmetic::div_mod::lemma_fundamental_div_mod(d, period);
    assert(d == d0 + k * period) by (nonlinear_arith)
        requires
            d == period * k + d0,
    ;
    let t = if d0 * 1000 < half {
        half - 1
    } else {
        half
    };
    sweep_repeats(t + d0, period, k);
    assert(t + d == t + d0 + k * period);
    lemma_top(t, period);
    if t + d0 < period {
        lemma_top(t + d0, period);
    } else {
        sweep_repeats(t + d0 - period, period, 1);
        lemma_top(t + d0 - period, period);
    }
    t
}

/// The time after which all four waves together repeat, in milliseconds: more
/// than five days.
pub open spec fn full_cycle_ms() -> int {
    494_960_100
}

/// A multiple of two numbers without a common factor is one of their product.
proof fn lemma_product_divides(k: int, m: int, n: int, x: int, y: int)
    requires
        m > 0,
        n > 0,
        k % m == 0,
        k % n == 0,
        m * x + n * y == 1,
    ensures
        k % (m * n) == 0,
{
    let a = k / m;
    let b = k / n;
    vstd::arithmetic::div_mod::lemma_fundamental_div_mod(k, m);
    vstd::arithmetic::div_mod::lemma_fundamental_div_mod(k, n);
    let c = b * x + a * y;
    assert(k == c * (m * n)) by (nonlinear_arith)
        requires
            k == m * a,
            k == n * b,
            m * x + n * y == 1,
            c == b * x + a * y,
    {
        assert(k == k * (m * x + n * y));
        assert(k * (m * x) == (n * b) * (m * x));
        assert(k * (n * y) == (m * a) * (n * y));
        assert((n * b) * (m * x) == (b * x) * (m * n));
        assert((m * a) * (n * y) == (a * y) * (m * n));
    }
    assert(m * n > 0) by (nonlinear_arith)
        requires
            m > 0,
            n > 0,
    ;
    vstd::arithmetic::div_mod::lemma_mod_multiples_basic(c, m * n);
}

/// A multiple of a hundred times `m` is a hundred times a multiple of `m`.
proof fn lemma_hundredth(d: int, m: int)
    requires
        m > 0,
        d % (100 * m) == 0,
    ensures
        d == 100 * (d / 100),
        (d / 100) % m == 0,
{
    let a = d / (100 * m);
    vstd::arithmetic::div_mod::lemma_fundamental_div_mod(d, 100 * m);
    assert(d == 100 * (a * m)) by (nonlinear_arith)
        requires
            d == 100 * m * a,
    ;
    vstd::arithmetic::div_mod::lemma_mod_multiples_basic(a, m);
}

/// The full cycle divides what all four periods divide.
proof fn lemma_common_multiple(d: int)
    requires
        d % 3_700 == 0,
        d % 5_100 == 0,
        d % 4_300 == 0,
        d % 6_100 == 0,
    ensures
        d % full_cycle_ms() == 0,
{
    let h = d / 100;
    lemma_hundredth(d, 37);
    lemma_hundredth(d, 51);
    lemma_hundredth(d, 43);
    lemma_hundredth(d, 61);
    lemma_product_divides(h, 37, 51, -11, 8);
    lemma_product_divides(h, 1_887, 43, 17, -746);
    lemma_product_divides(h, 81_141, 61, -11, 14_632);
    vstd::arithmetic::div_mod::lemma_fundamental_div_mod(h, 4_949_601);
    vstd::arithmetic::div_mod::lemma_mod_multiples_basic(h / 4_949_601, 494_960_100);
}

/// All four waves repeat after the full cycle.
proof fn lemma_full_cycle(t: int, d: int)
    requires
        d % full_cycle_ms() == 0,
    ensures
        sweep_inputs(t + d) == sweep_inputs(t),
{
    let k = d / full_cycle_ms();
    vstd::arithmetic::div_mod::lemma_fundamental_div_mod(d, full_cycle_ms());
    sweep_repeats(t, 3_700, k * 133_773);
    sweep_repeats(t, 5_100, k * 97_051);
    sweep_repeats(t, 4_300, k * 115_107);
    sweep_repeats(t, 6_100, k * 81_141);
    assert(sweep_inputs(t + d) == sweep_inputs(t));
}

/// The self-test as a whole repeats after its full cycle, and after no shorter
/// time: any other delay shows on some channel at some time.
pub proof fn self_test_repeats_after_days(d: int)
    ensures
        d % full_cycle_ms() == 0 ==> forall|t: int| #[trigger]
            sweep_inputs(t + d) == sweep_inputs(t),
        d % full_cycle_ms() != 0 ==> exists|t: int|
            t >= 0 && #[trigger] sweep_inputs(t + d) != sweep_inputs(t),
{
    if d % full_cycle_ms() == 0 {
        assert forall|t: int| #[trigger] sweep_inputs(t + d) == sweep_inputs(t) by {
            lemma_full_cycle(t, d);
        }
    } else {
        if d % 3_700 == 0 && d % 5_100 == 0 && d % 4_300 == 0 {
            if d % 6_100 == 0 {
                lemma_common_multiple(d);
            }
        }
        let i: int = if d % 3_700 != 0 {
            0
        } else if d % 5_100 != 0 {
            1
        } else if d % 4_300 != 0 {
            2
        } else {
            3
        };
        let t = sweep_repeats_only_so(d, SWEEP_PERIODS_MS@[i] as int);
        assert(sweep_inputs(t + d)[i] != sweep_inputs(t)[i]);
    }
}

/// The wave by whole numbers alone: `h` thousandths of its height are reached at
/// the phase `p`, the same share of 1000 as `p` is of half the period, rounded
/// down, on the way up; on the way down as many have been lost. The value is the
/// same share of the way from 256 to 768, rounded down.
pub proof fn wave_by_thousandths(k: int, p: int, period: int) -> (h: int)
    requires
        period >= 2,
        0 <= p < period,
    ensures
        ({
            let half = period / 2;
            let value = sweep_value(k * period + p, period);
            &&& p < half ==> h * half <= 1000 * p < (h + 1) * half
            &&& p >= half ==> (1000 - h) * half <= 1000 * (p - half) < (1001 - h) * half
            &&& 1000 * (value - 256) <= 512 * h < 1000 * (value - 255)
        }),
{
    let half = period / 2;
    let h = wave_height(p, period);
    sweep_repeats(p, period, k);
    vstd::arithmetic::div_mod::lemma_small_mod(p as nat, period as nat);
    lemma_height_range(p, period);
    if p < half {
        lemma_rounded(p * 1000, half);
    } else {
        lemma_rounded((p - half) * 1000, half);
        let lost = (p - half) * 1000 / half;
        assert(lost == 1000 - h);
    }
    h
}

/// Rounding down leaves out less than one.
proof fn lemma_rounded(a: int, b: int)
    requires
        b > 0,
    ensures
        (a / b) * b <= a < (a / b + 1) * b,
{
    vstd::arithmetic::div_mod::lemma_fundamental_div_mod(a, b);
    let q = a / b;
    assert(b * q == q * b) by (nonlinear_arith);
    assert((q + 1) * b == q * b + b) by (nonlinear_arith);
}

/// The wave is straight: on the way up it lies less than two steps below the
/// line from 256 to 768, and on the way down less than one step from the line
/// back.
pub proof fn wave_is_straight(k: int, p: int, period: int)
    requires
        period >= 2,
        0 <= p < period,
    ensures
        ({
            let half = period / 2;
            let value = sweep_value(k * period + p, period);
            &&& p < half ==> (value - 256) * half <= 512 * p < (value - 254) * half
            &&& p >= half ==> 512 * (p - half) - half < (768 - value) * half < 512 * (p - half)
                + half
        }),
{
    let half = period / 2;
    let value = sweep_value(k * period + p, period);
    let h = wave_by_thousandths(k, p, period);
    if p < half {
        lemma_rise(value, h, p, half);
    } else {
        lemma_fall(value, h, p - half, half);
    }
}

proof fn lemma_rise(value: int, h: int, p: int, half: int)
    requires
        half > 0,
        h * half <= 1000 * p < (h + 1) * half,
        1000 * (value - 256) <= 512 * h < 1000 * (value - 255),
    ensures
        (value - 256) * half <= 512 * p < (value - 254) * half,
{
    let x = value - 256;
    assert(1000 * (x * half) <= 512 * (h * half)) by (nonlinear_arith)
        requires
            1000 * x <= 512 * h,
            half > 0,
    ;
    assert(512 * (h * half) + half <= 1000 * (x * half) + 1000 * half) by (nonlinear_arith)
        requires
            512 * h + 1 <= 1000 * x + 1000,
            half > 0,
    ;
    assert((h + 1) * half == h * half + half) by (nonlinear_arith);
    assert((x + 2) * half == x * half + 2 * half) by (nonlinear_arith);
}

proof fn lemma_fall(value: int, h: int, q: int, half: int)
    requires
        half > 0,
        (1000 - h) * half <= 1000 * q < (1001 - h) * half,
        1000 * (value - 256) <= 512 * h < 1000 * (value - 255),
    ensures
        512 * q - half < (768 - value) * half < 512 * q + half,
{
    let x = 768 - value;
    let g = 1000 - h;
    assert(512 * (g * half) <= 1000 * (x * half)) by (nonlinear_arith)
        requires
            512 * g <= 1000 * x,
            half > 0,
    ;
    assert(1000 * (x * half) + half <= 512 * (g * half) + 1000 * half) by (nonlinear_arith)
        requires
            1000 * x + 1 <= 512 * g + 1000,
            half > 0,
    ;
    assert((g + 1) * half == g * half + half) by (nonlinear_arith);
}

/// The wave walks: with a period of two seconds or more it moves by at most two
/// steps in a millisecond.
pub proof fn wave_walks(t: int, period: int)
    requires
        period >= 2000,
    ensures
        -2 <= sweep_value(t + 1, period) - sweep_value(t, period) <= 2,
{
    let half = period / 2;
    let (k, p) = (t / period, t % period);
    vstd::arithmetic::div_mod::lemma_fundamental_div_mod(t, period);
    assert(t == k * period + p) by (nonlinear_arith)
        requires
            t == period * k + p,
    ;
    let a = sweep_value(t, period);
    let b = sweep_value(t + 1, period);
    wave_is_straight(k, p, period);
    if p + 1 < period {
        assert(t + 1 == k * period + (p + 1));
        wave_is_straight(k, p + 1, period);
    } else {
        assert(t + 1 == (k + 1) * period + 0) by (nonlinear_arith)
            requires
                t == k * period + p,
                p + 1 == period,
        ;
        wave_is_straight(k + 1, 0, period);
    }
    if p + 1 < half {
        assert(-3 < b - a < 3) by (nonlinear_arith)
            requires
                half >= 1000,
                (a - 256) * half <= 512 * p < (a - 254) * half,
                (b - 256) * half <= 512 * (p + 1) < (b - 254) * half,
        ;
    } else if p + 1 == half {
        assert(-3 < b - a < 3) by (nonlinear_arith)
            requires
                half >= 1000,
                (a - 256) * half <= 512 * p < (a - 254) * half,
                p + 1 == half,
                -half < (768 - b) * half < half,
        ;
    } else if p + 1 < period {
        assert(-3 < b - a < 3) by (nonlinear_arith)
            requires
                half >= 1000,
                512 * (p - half) - half < (768 - a) * half < 512 * (p - half) + half,
                512 * (p + 1 - half) - half < (768 - b) * half < 512 * (p + 1 - half) + half,
        ;
    } else {
        sweep_within_range(t, period);
        sweep_within_range(t + 1, period);
        assert(a < 259) by (nonlinear_arith)
            requires
                half >= 1000,
                p >= 2 * half - 1,
                512 * (p - half) - half < (768 - a) * half,
        ;
        assert(-1 < b - 256 < 1) by (nonlinear_arith)
            requires
                half >= 1000,
                (b - 256) * half <= 0 < (b - 254) * half,
                b >= 256,
        ;
    }
}

/// Each channel of the self-test runs through a wave of its own period.
pub proof fn channels_have_their_periods(t: int)
    ensures
        sweep_inputs(t).len() == 4,
        sweep_inputs(t)[0] == sweep_value(t, 3_700),
        sweep_inputs(t)[1] == sweep_value(t, 5_100),
        sweep_inputs(t)[2] == sweep_value(t, 4_300),
        sweep_inputs(t)[3] == sweep_value(t, 6_100),
{
}

/// A wave can be followed at every time where its period has a middle and is
/// shorter than some 290,000 years.
pub proof fn ordinary_periods_take_every_time(t: int, period: int)
    requires
        2 <= period <= 9_223_372_036_854_775,
    ensures
        sweep_admits(t, period),
{
}

} // verus!
