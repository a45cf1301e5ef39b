//! Signed fixed-point scalars: an `i64` holds `value * SCALE`.
//!
//! Products and quotients round toward zero, so scaling a value by a
//! fraction in `[0, 1]` never grows its magnitude and never flips its sign.
//! That rounding policy is what the smoothing laws of the crate rest on.

use vstd::prelude::*;

verus! {

use vstd::arithmetic::div_mod::lemma_div_is_ordered;
use vstd::arithmetic::div_mod::lemma_div_pos_is_pos;
use vstd::arithmetic::div_mod::lemma_div_multiples_vanish_fancy;
use vstd::arithmetic::mul::lemma_mul_inequality;

/// One unit, as a raw fixed-point value: 2^16.
pub const SCALE: i64 = 65536;

/// Largest raw magnitude the geometry of the crate works with.
/// Keeps every intermediate product within `i128` and every scaled
/// result within `i64`.
pub const FX_LIM: i64 = 0x2000_0000_0000;

/// Largest raw decay rate the smoothing functions take.
pub const RATE_LIM: i64 = 0x1_0000_0000;

/// Largest raw time step the smoothing functions take.
pub const DT_LIM: i64 = 0x1000_0000;

/// Largest raw sensitivity multiplier a controller takes.
pub const SENS_LIM: i64 = 0x40_0000;

/// Largest accumulated raw input delta a consumption step accepts.
pub const DELTA_LIM: i64 = 0x1000_0000;

/// Magnitude of an integer.
pub open spec fn fx_abs(n: int) -> int {
    if n >= 0 {
        n
    } else {
        -n
    }
}

/// `n` lies within `[-lim, lim]`.
pub open spec fn in_lim(n: int, lim: int) -> bool {
    -lim <= n <= lim
}

/// Quotient of `n` by `d`, rounded toward zero (`d > 0`).
pub open spec fn div_tz(n: int, d: int) -> int
    recommends
        d > 0,
{
    if n >= 0 {
        n / d
    } else {
        -((-n) / d)
    }
}

/// Fixed-point product of raw values `a` and `b`, rounded toward zero.
pub open spec fn mul_down(a: int, b: int) -> int {
    div_tz(a * b, SCALE as int)
}

/// Fixed-point quotient of raw values `a` and `b`, rounded toward zero.
pub open spec fn div_fx_spec(a: int, b: int) -> int
    recommends
        b != 0,
{
    if b >= 0 {
        div_tz(a * SCALE, b)
    } else {
        -div_tz(a * SCALE, -b)
    }
}

/// Rounding toward zero never grows a magnitude: `|n / d| <= |n|` scaled.
pub proof fn lemma_div_tz_bounds(n: int, d: int)
    requires
        d > 0,
    ensures
        n >= 0 ==> 0 <= div_tz(n, d) <= n / d,
        n < 0 ==> n <= -((-n) / d) <= 0,
        fx_abs(div_tz(n, d)) <= fx_abs(n) / d,
{
    if n >= 0 {
        lemma_div_pos_is_pos(n, d);
        lemma_mul_inequality(1, d, n);
        assert(n / d <= n) by {
            vstd::arithmetic::div_mod::lemma_div_nonincreasing(n, d);
        }
    } else {
        lemma_div_pos_is_pos(-n, d);
        assert((-n) / d <= -n) by {
            vstd::arithmetic::div_mod::lemma_div_nonincreasing(-n, d);
        }
    }
}

/// Scaling by a fraction `0 <= q <= SCALE` keeps the result between 0 and
/// the input: the scaled value never grows and never changes sign.
pub proof fn lemma_mul_down_fraction(a: int, q: int)
    requires
        0 <= q <= SCALE,
    ensures
        a >= 0 ==> 0 <= mul_down(a, q) <= a,
        a <= 0 ==> a <= mul_down(a, q) <= 0,
        fx_abs(mul_down(a, q)) <= fx_abs(a),
{
    let s = SCALE as int;
    if a >= 0 {
        vstd::arithmetic::mul::lemma_mul_nonnegative(a, q);
        lemma_div_pos_is_pos(a * q, s);
        assert(a * q <= a * s) by {
            lemma_mul_inequality(q, s, a);
            vstd::arithmetic::mul::lemma_mul_is_commutative(q, a);
            vstd::arithmetic::mul::lemma_mul_is_commutative(s, a);
        }
        lemma_div_is_ordered(a * q, a * s, s);
        assert((a * s) / s == a) by {
            vstd::arithmetic::div_mod::lemma_div_by_multiple(a, s);
        }
    } else {
        let m = -a;
        assert(m * q == -(a * q)) by {
            vstd::arithmetic::mul::lemma_mul_unary_negation(a, q);
        }
        vstd::arithmetic::mul::lemma_mul_nonnegative(m, q);
        lemma_div_pos_is_pos(m * q, s);
        assert(m * q <= m * s) by {
            lemma_mul_inequality(q, s, m);
            vstd::arithmetic::mul::lemma_mul_is_commutative(q, m);
            vstd::arithmetic::mul::lemma_mul_is_commutative(s, m);
        }
        lemma_div_is_ordered(m * q, m * s, s);
        assert((m * s) / s == m) by {
            vstd::arithmetic::div_mod::lemma_div_by_multiple(m, s);
        }
    }
}

/// Scaling a nonzero value by a fraction strictly below one shrinks its
/// magnitude by at least one raw step, so repeated scaling reaches zero.
pub proof fn lemma_mul_down_strict(a: int, q: int)
    requires
        0 <= q < SCALE,
        a != 0,
    ensures
        fx_abs(mul_down(a, q)) <= fx_abs(a) - 1,
{
    let s = SCALE as int;
    let m = fx_abs(a);
    assert(m * q <= m * (s - 1)) by {
        lemma_mul_inequality(q, s - 1, m);
        vstd::arithmetic::mul::lemma_mul_is_commutative(q, m);
        vstd::arithmetic::mul::lemma_mul_is_commutative(s - 1, m);
    }
    assert(m * (s - 1) == (m - 1) * s + (s - m)) by {
        vstd::arithmetic::mul::lemma_mul_is_distributive_sub(m, s, 1);
        vstd::arithmetic::mul::lemma_mul_is_distributive_sub_other_way(s, m, 1);
    }
    if m <= s {
        assert(((m - 1) * s + (s - m)) / s == m - 1) by {
            lemma_div_multiples_vanish_fancy(m - 1, s - m, s);
        }
        lemma_div_is_ordered(m * q, (m - 1) * s + (s - m), s);
    } else {
        assert(m * (s - 1) <= (m - 1) * s + (s - 1)) by {
            assert(m * (s - 1) == (m - 1) * s + (s - m));
        }
        assert(((m - 1) * s + (s - 1)) / s == m - 1) by {
            lemma_div_multiples_vanish_fancy(m - 1, s - 1, s);
        }
        lemma_div_is_ordered(m * q, (m - 1) * s + (s - 1), s);
    }
    if a >= 0 {
        vstd::arithmetic::mul::lemma_mul_nonnegative(a, q);
        lemma_div_pos_is_pos(a * q, s);
    } else {
        assert((-a) * q == -(a * q)) by {
            vstd::arithmetic::mul::lemma_mul_unary_negation(a, q);
        }
        vstd::arithmetic::mul::lemma_mul_nonnegative(m, q);
        lemma_div_pos_is_pos(m * q, s);
    }
}

/// Scaling by the whole unit is exact: `mul_down(a, SCALE) == a`.
pub proof fn lemma_mul_down_one(a: int)
    ensures
        mul_down(a, SCALE as int) == a,
        mul_down(a, 0) == 0,
{
    let s = SCALE as int;
    if a >= 0 {
        assert((a * s) / s == a) by {
            vstd::arithmetic::div_mod::lemma_div_by_multiple(a, s);
        }
    } else {
        assert((-a) * s == -(a * s)) by {
            vstd::arithmetic::mul::lemma_mul_unary_negation(a, s);
        }
        assert(((-a) * s) / s == -a) by {
            vstd::arithmetic::div_mod::lemma_div_by_multiple(-a, s);
        }
    }
    assert(a * 0 == 0) by {
        vstd::arithmetic::mul::lemma_mul_by_zero_is_zero(a);
    }
}

/// `a` scaled by the fraction `q`, `n` times over.
pub open spec fn iter_scale(a: int, q: int, n: nat) -> int
    decreases n,
{
    if n == 0 {
        a
    } else {
        mul_down(iter_scale(a, q, (n - 1) as nat), q)
    }
}

/// Repeated scaling by a fraction strictly below one drains any value to
/// exactly zero: each step keeps the sign and loses at least one raw step
/// of magnitude, so after `|a|` steps nothing is left.
pub proof fn lemma_iter_scale_drains(a: int, q: int, n: nat)
    requires
        0 <= q < SCALE,
    ensures
        iter_scale(a, q, n) == 0 || fx_abs(iter_scale(a, q, n)) <= fx_abs(a) - n,
        n >= fx_abs(a) ==> iter_scale(a, q, n) == 0,
    decreases n,
{
    if n > 0 {
        lemma_iter_scale_drains(a, q, (n - 1) as nat);
        let prev = iter_scale(a, q, (n - 1) as nat);
        if prev == 0 {
            assert(prev * q == 0) by {
                vstd::arithmetic::mul::lemma_mul_basics(q);
            }
            assert(div_tz(0, SCALE as int) == 0) by {
                vstd::arithmetic::div_mod::lemma_div_of0(SCALE as int);
            }
        } else {
            lemma_mul_down_strict(prev, q);
        }
    }
}

/// A product of values bounded in magnitude is bounded by the product of
/// the bounds.
pub proof fn lemma_mul_abs_bound(a: int, b: int, ab: int, bb: int) by (nonlinear_arith)
    requires
        -ab <= a <= ab,
        -bb <= b <= bb,
    ensures
        -(ab * bb) <= a * b <= ab * bb,
{
}

/// Fixed-point product, rounding toward zero.
pub fn fx_mul(a: i64, b: i64) -> (r: i64)
    requires
        in_lim(a * b, 0x4000_0000_0000_0000),
    ensures
        r == mul_down(a as int, b as int),
{
    let p: i128 = (a as i128) * (b as i128);
    if p >= 0 {
        let q: u128 = (p as u128) / (SCALE as u128);
        q as i64
    } else {
        let q: u128 = ((-p) as u128) / (SCALE as u128);
        proof {
            lemma_div_tz_bounds(p as int, SCALE as int);
        }
        -(q as i64)
    }
}

/// Multiplying a truncated quotient back by the divisor lands within one
/// divisor step of the dividend, on the zero side.
pub proof fn lemma_div_tz_mul_back(n: int, d: int)
    requires
        d > 0,
    ensures
        n >= 0 ==> n - d < div_tz(n, d) * d <= n,
        n < 0 ==> n <= div_tz(n, d) * d < n + d,
{
    if n >= 0 {
        vstd::arithmetic::div_mod::lemma_fundamental_div_mod(n, d);
        vstd::arithmetic::div_mod::lemma_mod_bound(n, d);
        vstd::arithmetic::mul::lemma_mul_is_commutative(d, n / d);
    } else {
        vstd::arithmetic::div_mod::lemma_fundamental_div_mod(-n, d);
        vstd::arithmetic::div_mod::lemma_mod_bound(-n, d);
        vstd::arithmetic::mul::lemma_mul_is_commutative(d, (-n) / d);
        assert(div_tz(n, d) * d == -(((-n) / d) * d)) by {
            vstd::arithmetic::mul::lemma_mul_unary_negation((-n) / d, d);
        }
    }
}

/// A quotient whose multiplier is no larger than its divisor cannot grow
/// the scaled value: `|a * num / den| <= |a|`.
pub proof fn lemma_div_tz_ratio(a: int, num: int, den: int)
    requires
        den > 0,
        0 <= num <= den,
    ensures
        fx_abs(div_tz(a * num, den)) <= fx_abs(a),
        a >= 0 ==> 0 <= div_tz(a * num, den) <= a,
        a <= 0 ==> a <= div_tz(a * num, den) <= 0,
{
    let m = fx_abs(a);
    assert(fx_abs(a * num) == m * num) by {
        if a < 0 {
            vstd::arithmetic::mul::lemma_mul_unary_negation(a, num);
        }
        vstd::arithmetic::mul::lemma_mul_nonnegative(m, num);
    }
    assert(m * num <= m * den) by {
        lemma_mul_inequality(num, den, m);
        vstd::arithmetic::mul::lemma_mul_is_commutative(num, m);
        vstd::arithmetic::mul::lemma_mul_is_commutative(den, m);
    }
    lemma_div_is_ordered(m * num, m * den, den);
    assert((m * den) / den == m) by {
        vstd::arithmetic::div_mod::lemma_div_by_multiple(m, den);
    }
    lemma_div_pos_is_pos(m * num, den);
    if a >= 0 {
        assert(div_tz(a * num, den) == (m * num) / den);
    } else {
        assert(a * num <= 0) by {
            vstd::arithmetic::mul::lemma_mul_unary_negation(a, num);
            vstd::arithmetic::mul::lemma_mul_nonnegative(m, num);
        }
    }
}

/// Scales `a` by the exact ratio `num / den`, rounding toward zero.
pub fn mul_div_tz(a: i64, num: i64, den: i64) -> (r: i64)
    requires
        den > 0,
        in_lim(div_tz(a * num, den as int), FX_LIM as int),
    ensures
        r == div_tz(a * num, den as int),
{
    proof {
        lemma_mul_abs_bound(
            a as int,
            num as int,
            0x8000_0000_0000_0000,
            0x8000_0000_0000_0000,
        );
        lemma_div_tz_bounds(a * num, den as int);
    }
    let p: i128 = (a as i128) * (num as i128);
    if p >= 0 {
        let q: u128 = (p as u128) / (den as u128);
        q as i64
    } else {
        let q: u128 = ((-p) as u128) / (den as u128);
        -(q as i64)
    }
}

/// Divides a wide intermediate by a positive divisor, rounding toward
/// zero.
pub fn div_i128(p: i128, d: i64) -> (r: i64)
    requires
        d > 0,
        p > -0x8000_0000_0000_0000_0000_0000_0000_0000,
        in_lim(div_tz(p as int, d as int), 0x7FFF_FFFF_FFFF_FFFF),
    ensures
        r == div_tz(p as int, d as int),
{
    proof {
        lemma_div_tz_bounds(p as int, d as int);
    }
    if p >= 0 {
        let q: u128 = (p as u128) / (d as u128);
        q as i64
    } else {
        let q: u128 = ((-p) as u128) / (d as u128);
        -(q as i64)
    }
}

/// Fixed-point quotient, rounding toward zero.
pub fn fx_div(a: i64, b: i64) -> (r: i64)
    requires
        b != 0,
        in_lim(a as int, FX_LIM as int),
        in_lim(div_fx_spec(a as int, b as int), FX_LIM as int),
    ensures
        r == div_fx_spec(a as int, b as int),
{
    proof {
        lemma_mul_abs_bound(a as int, SCALE as int, 0x8000_0000_0000_0000, 65536);
    }
    let n: i128 = (a as i128) * (SCALE as i128);
    let nm: u128 = if n >= 0 {
        n as u128
    } else {
        (-n) as u128
    };
    let dm: u128 = if b >= 0 {
        b as u128
    } else {
        ((-(b as i128)) as u128)
    };
    let q: u128 = nm / dm;
    let neg: bool = (a >= 0) != (b >= 0);
    proof {
        lemma_div_tz_bounds(n as int, dm as int);
        if a >= 0 {
            vstd::arithmetic::mul::lemma_mul_nonnegative(a as int, SCALE as int);
        } else {
            vstd::arithmetic::mul::lemma_mul_strictly_positive(-(a as int), SCALE as int);
            vstd::arithmetic::mul::lemma_mul_unary_negation(a as int, SCALE as int);
        }
    }
    if neg && a != 0 {
        -(q as i64)
    } else {
        q as i64
    }
}

} // verus!
