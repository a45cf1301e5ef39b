//! Frame-rate-independent smoothing.
//!
//! The smoothing law is exponential: over elapsed time `dt` a quantity keeps
//! the fraction `exp(-rate * dt)` of its distance to its resting value. The
//! fraction is computed in fixed point by converting `rate * dt` to a
//! base-two exponent, rounded to the nearest raw step, then splitting it
//! into whole and fractional bits and multiplying precomputed fractional
//! powers of two. The returned fraction always lies in `[0, SCALE]`,
//! equals `SCALE` exactly when no time passed, and drops strictly below
//! `SCALE` whenever `rate * dt` is at least one raw step; rounding the
//! exponent makes one half-life at rate `ln 2` keep exactly one half.

use vstd::prelude::*;

verus! {

use crate::fixed::SCALE;
use crate::fixed::FX_LIM;
use crate::fixed::RATE_LIM;
use crate::fixed::DT_LIM;
use crate::fixed::in_lim;
use crate::fixed::fx_abs;
use crate::fixed::mul_down;
use crate::fixed::fx_mul;
use crate::fixed::lemma_div_tz_bounds;
use crate::fixed::lemma_mul_down_fraction;
use crate::fixed::lemma_mul_down_strict;
use crate::fixed::lemma_mul_down_one;

/// log2(e) in fixed point: the factor that turns `rate * dt` into a
/// base-two exponent.
pub const LOG2_E: i64 = 94548;

/// `2^(-t / SCALE)` in fixed point, for thresholds `t` that are powers of
/// two up to `SCALE / 2`.
pub open spec fn frac_factor_spec(t: int) -> int {
    if t == 32768 {
        46341
    } else if t == 16384 {
        55109
    } else if t == 8192 {
        60097
    } else if t == 4096 {
        62757
    } else if t == 2048 {
        64132
    } else if t == 1024 {
        64830
    } else if t == 512 {
        65182
    } else if t == 256 {
        65359
    } else if t == 128 {
        65447
    } else if t == 64 {
        65492
    } else if t == 32 {
        65514
    } else if t == 16 {
        65525
    } else if t == 8 {
        65530
    } else if t == 4 {
        65533
    } else {
        65535
    }
}

fn frac_factor(t: u64) -> (r: u64)
    ensures
        r == frac_factor_spec(t as int),
        46341 <= r < 65536,
{
    if t == 32768 {
        46341
    } else if t == 16384 {
        55109
    } else if t == 8192 {
        60097
    } else if t == 4096 {
        62757
    } else if t == 2048 {
        64132
    } else if t == 1024 {
        64830
    } else if t == 512 {
        65182
    } else if t == 256 {
        65359
    } else if t == 128 {
        65447
    } else if t == 64 {
        65492
    } else if t == 32 {
        65514
    } else if t == 16 {
        65525
    } else if t == 8 {
        65530
    } else if t == 4 {
        65533
    } else {
        65535
    }
}

/// Applies the fractional powers of two selected by `rem` to `acc`,
/// walking thresholds `t`, `t/2`, ..., `1`.
pub open spec fn pow2_frac_rec(acc: int, rem: int, t: int) -> int
    decreases t,
{
    if t <= 0 {
        acc
    } else if rem >= t {
        pow2_frac_rec(acc * frac_factor_spec(t) / (SCALE as int), rem - t, t / 2)
    } else {
        pow2_frac_rec(acc, rem, t / 2)
    }
}

/// Halves `acc` for each whole unit of the exponent.
pub open spec fn halve_rec(acc: int, n: int) -> int
    decreases n,
{
    if n <= 0 {
        acc
    } else {
        halve_rec(acc / 2, n - 1)
    }
}

/// The decay fraction `exp(-x)` in fixed point, for `x >= 0`: the
/// base-two exponent `x * log2(e)` is rounded to the nearest raw step.
pub open spec fn exp_neg_spec(x: int) -> int {
    let y = (x * LOG2_E + 32768) / (SCALE as int);
    let n = y / (SCALE as int);
    let g = y % (SCALE as int);
    if n >= 17 {
        0
    } else {
        halve_rec(pow2_frac_rec(SCALE as int, g, 32768), n)
    }
}

proof fn lemma_halve_rec_bounds(acc: int, n: int)
    requires
        0 <= acc,
    ensures
        0 <= halve_rec(acc, n) <= acc,
        n >= 1 ==> halve_rec(acc, n) <= acc / 2,
    decreases n,
{
    if n >= 1 {
        lemma_halve_rec_bounds(acc / 2, n - 1);
    }
}

/// The fractional product stays within `[0, acc]`, reaches at most one
/// step under the unit once any factor fires, and is exactly `acc` when
/// none does.
proof fn lemma_pow2_frac_range(acc: int, rem: int, t: int)
    requires
        0 <= acc <= SCALE,
        t == 1 || t == 2 || t == 4 || t == 8 || t == 16 || t == 32 || t == 64 || t == 128
            || t == 256 || t == 512 || t == 1024 || t == 2048 || t == 4096 || t == 8192
            || t == 16384 || t == 32768,
        0 <= rem < 2 * t,
    ensures
        0 <= pow2_frac_rec(acc, rem, t) <= acc,
        rem > 0 ==> pow2_frac_rec(acc, rem, t) <= 65535,
        rem == 0 ==> pow2_frac_rec(acc, rem, t) == acc,
    decreases t,
{
    if rem >= t {
        let f = frac_factor_spec(t);
        let acc2 = acc * f / (SCALE as int);
        assert(0 <= acc * f <= 65536 * 65535) by (nonlinear_arith)
            requires
                0 <= acc <= 65536,
                46341 <= f <= 65535,
        ;
        vstd::arithmetic::div_mod::lemma_div_pos_is_pos(acc * f, SCALE as int);
        vstd::arithmetic::div_mod::lemma_div_is_ordered(acc * f, (65536 * 65535) as int, SCALE as int);
        assert(acc * f <= acc * SCALE) by (nonlinear_arith)
            requires
                0 <= acc,
                f <= SCALE,
        ;
        vstd::arithmetic::div_mod::lemma_div_is_ordered(acc * f, acc * SCALE, SCALE as int);
        assert((acc * SCALE) / (SCALE as int) == acc) by {
            vstd::arithmetic::div_mod::lemma_div_by_multiple(acc, SCALE as int);
        }
        if t > 1 {
            lemma_pow2_frac_range(acc2, rem - t, t / 2);
        } else {
            assert(pow2_frac_rec(acc, rem, 1) == pow2_frac_rec(acc2, rem - 1, 0));
            assert(pow2_frac_rec(acc2, rem - 1, 0) == acc2);
        }
    } else {
        if t > 1 {
            lemma_pow2_frac_range(acc, rem, t / 2);
        } else {
            assert(pow2_frac_rec(acc, rem, 1) == pow2_frac_rec(acc, rem, 0));
            assert(pow2_frac_rec(acc, rem, 0) == acc);
        }
    }
}

/// The decay fraction, at the specification level: always within
/// `[0, SCALE]`, the whole unit exactly at a zero exponent, and
/// strictly below it from one raw step on.
pub proof fn lemma_exp_neg_range(x: int)
    requires
        0 <= x <= FX_LIM,
    ensures
        0 <= exp_neg_spec(x) <= SCALE,
        x == 0 ==> exp_neg_spec(x) == SCALE,
        x >= 1 ==> exp_neg_spec(x) < SCALE,
{
    let y = (x * (LOG2_E as int) + 32768) / (SCALE as int);
    vstd::arithmetic::mul::lemma_mul_nonnegative(x, LOG2_E as int);
    vstd::arithmetic::div_mod::lemma_div_pos_is_pos(x * (LOG2_E as int) + 32768, SCALE as int);
    if x >= 1 {
        vstd::arithmetic::mul::lemma_mul_inequality(1, x, LOG2_E as int);
        vstd::arithmetic::mul::lemma_mul_is_commutative(x, LOG2_E as int);
        vstd::arithmetic::div_mod::lemma_div_is_ordered(
            SCALE as int,
            x * (LOG2_E as int) + 32768,
            SCALE as int,
        );
    }
    let n = y / (SCALE as int);
    let g = y % (SCALE as int);
    vstd::arithmetic::div_mod::lemma_fundamental_div_mod(y, SCALE as int);
    vstd::arithmetic::div_mod::lemma_mod_bound(y, SCALE as int);
    vstd::arithmetic::div_mod::lemma_div_pos_is_pos(y, SCALE as int);
    lemma_pow2_frac_range(SCALE as int, g, 32768);
    let frac = pow2_frac_rec(SCALE as int, g, 32768);
    if n < 17 {
        lemma_halve_rec_bounds(frac, n);
        if x >= 1 {
            if n == 0 && g == 0 {
                assert(y == 0);
            }
        }
    }
}

/// The decay fraction kept after time `dt` at decay rate `x = rate * dt`:
/// always within `[0, SCALE]`, the whole unit exactly when `x == 0`, and
/// strictly less as soon as `x` is a single raw step.
pub fn exp_neg(x: i64) -> (r: i64)
    requires
        0 <= x <= FX_LIM,
    ensures
        r == exp_neg_spec(x as int),
        0 <= r <= SCALE,
        x == 0 ==> r == SCALE,
        x >= 1 ==> r < SCALE,
{
    proof {
        vstd::arithmetic::mul::lemma_mul_nonnegative(x as int, LOG2_E as int);
        vstd::arithmetic::div_mod::lemma_div_pos_is_pos(
            x * (LOG2_E as int) + 32768,
            SCALE as int,
        );
        if x >= 1 {
            vstd::arithmetic::mul::lemma_mul_inequality(1, x as int, LOG2_E as int);
            vstd::arithmetic::mul::lemma_mul_is_commutative(x as int, LOG2_E as int);
            vstd::arithmetic::div_mod::lemma_div_is_ordered(
                SCALE as int,
                x * (LOG2_E as int) + 32768,
                SCALE as int,
            );
        }
        vstd::arithmetic::mul::lemma_mul_upper_bound(
            x as int,
            FX_LIM as int,
            LOG2_E as int,
            LOG2_E as int,
        );
        crate::fixed::lemma_div_tz_bounds(x * (LOG2_E as int) + 32768, SCALE as int);
    }
    let y: i64 = crate::fixed::div_i128((x as i128) * (LOG2_E as i128) + 32768, SCALE);
    let yu: u64 = y as u64;
    let n: u64 = yu / (SCALE as u64);
    let g: u64 = yu % (SCALE as u64);
    let ghost g0 = g as int;
    let mut acc: u64 = SCALE as u64;
    let mut rem: u64 = g;
    let mut t: u64 = 32768;
    while t > 0
        invariant
            0 <= acc <= SCALE,
            t == 0 || t == 1 || t == 2 || t == 4 || t == 8 || t == 16 || t == 32 || t == 64
                || t == 128 || t == 256 || t == 512 || t == 1024 || t == 2048 || t == 4096
                || t == 8192 || t == 16384 || t == 32768,
            t > 0 ==> rem < 2 * t,
            t == 0 ==> rem == 0,
            acc == SCALE ==> rem == g0,
            g0 == 0 ==> acc == SCALE,
            g0 < SCALE,
            rem <= g0,
            pow2_frac_rec(acc as int, rem as int, t as int) == pow2_frac_rec(
                SCALE as int,
                g0,
                32768,
            ),
        decreases t,
    {
        if rem >= t {
            rem = rem - t;
            let f = frac_factor(t);
            proof {
                vstd::arithmetic::mul::lemma_mul_upper_bound(
                    acc as int,
                    SCALE as int,
                    f as int,
                    65535,
                );
                vstd::arithmetic::div_mod::lemma_div_is_ordered(
                    (acc * f) as int,
                    (65536 * 65535) as int,
                    SCALE as int,
                );
                vstd::arithmetic::mul::lemma_mul_nonnegative(acc as int, f as int);
            }
            acc = acc * f / (SCALE as u64);
        }
        t = t / 2;
    }
    if n >= 17 {
        0
    } else {
        let mut i: u64 = n;
        let ghost fracr = acc as int;
        while i > 0
            invariant
                0 <= acc <= SCALE,
                i <= n < 17,
                halve_rec(acc as int, i as int) == halve_rec(fracr, n as int),
                acc == SCALE ==> i == n,
            decreases i,
        {
            acc = acc / 2;
            i = i - 1;
        }
        proof {
            if x >= 1 && acc == SCALE {
                assert(n == 0 && g0 == 0);
                assert(yu >= 1);
                vstd::arithmetic::div_mod::lemma_fundamental_div_mod(yu as int, SCALE as int);
            }
        }
        acc as i64
    }
}

/// The decay rate stored for a smoothing factor: its fixed-point
/// reciprocal, always positive and within the rate range.
pub(crate) fn reciprocal_rate(factor: i64) -> (r: i64)
    requires
        0 < factor <= RATE_LIM,
    ensures
        r == crate::fixed::div_fx_spec(SCALE as int, factor as int),
        0 < r <= RATE_LIM,
{
    proof {
        lemma_div_tz_bounds(SCALE * (SCALE as int), factor as int);
        vstd::arithmetic::div_mod::lemma_div_nonincreasing(SCALE * (SCALE as int), factor as int);
        vstd::arithmetic::div_mod::lemma_div_is_ordered(
            factor as int,
            SCALE * (SCALE as int),
            factor as int,
        );
        vstd::arithmetic::div_mod::lemma_div_by_self(factor as int);
        assert(SCALE * (SCALE as int) == 0x1_0000_0000) by (nonlinear_arith);
    }
    crate::fixed::fx_div(SCALE, factor)
}

/// Moves `current` toward `target` by the exponential smoothing law:
/// the distance left after the step is the decayed fraction of the
/// distance before it. The step never overshoots and never reverses,
/// a zero `dt` leaves `current` untouched, and once `rate * dt` reaches
/// one raw step a nonzero distance strictly shrinks.
pub fn nudge(current: i64, target: i64, rate: i64, dt: i64) -> (r: i64)
    requires
        0 < rate <= RATE_LIM,
        0 <= dt <= DT_LIM,
        in_lim(current as int, FX_LIM as int),
        in_lim(target as int, FX_LIM as int),
    ensures
        r == target + mul_down(current - target, exp_neg_spec(mul_down(rate as int, dt as int))),
        current >= target ==> target <= r <= current,
        current <= target ==> current <= r <= target,
        dt == 0 ==> r == current,
        rate * dt >= SCALE && current != target ==> fx_abs(r - target) <= fx_abs(
            current - target,
        ) - 1,
{
    proof {
        vstd::arithmetic::mul::lemma_mul_nonnegative(rate as int, dt as int);
        vstd::arithmetic::mul::lemma_mul_upper_bound(
            rate as int,
            RATE_LIM as int,
            dt as int,
            DT_LIM as int,
        );
        lemma_div_tz_bounds(rate * dt, SCALE as int);
        if dt == 0 {
            vstd::arithmetic::mul::lemma_mul_by_zero_is_zero(rate as int);
            lemma_mul_down_one((current - target) as int);
        }
        if rate * dt >= SCALE {
            vstd::arithmetic::div_mod::lemma_div_is_ordered(
                SCALE as int,
                rate * dt,
                SCALE as int,
            );
        }
    }
    let x: i64 = fx_mul(rate, dt);
    let q: i64 = exp_neg(x);
    proof {
        lemma_mul_down_fraction((current - target) as int, q as int);
        if q < SCALE && current != target {
            lemma_mul_down_strict((current - target) as int, q as int);
        }
        crate::fixed::lemma_mul_abs_bound(
            (current - target) as int,
            q as int,
            2 * FX_LIM as int,
            SCALE as int,
        );
    }
    let kept: i64 = fx_mul(current - target, q);
    target + kept
}

} // verus!
