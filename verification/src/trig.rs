//! Fixed-point sine and cosine, for turning rotation deltas into
//! quaternions and pitch ranges into their stored cosines.
//!
//! An angle is reduced modulo one turn, folded onto the first quarter,
//! and evaluated there by a truncated Taylor polynomial whose value is
//! clamped into `[0, SCALE]`; the fold then restores the signs. The
//! contracts state the computed value exactly and keep every result
//! within one unit of magnitude.

use vstd::prelude::*;

verus! {

use crate::fixed::SCALE;
use crate::fixed::FX_LIM;
use crate::fixed::in_lim;
use crate::fixed::fx_abs;
use crate::fixed::mul_down;
use crate::fixed::fx_mul;

/// Half a turn, in fixed point.
pub const PI_FX: i64 = 205887;

/// A quarter turn, in fixed point.
pub const HALF_PI_FX: i64 = 102944;

/// A whole turn, in fixed point.
pub const TWO_PI_FX: i64 = 411775;

/// Clamps a raw value into `[0, SCALE]`.
pub open spec fn clamp_unit(v: int) -> int {
    if v < 0 {
        0
    } else if v > SCALE {
        SCALE as int
    } else {
        v
    }
}

/// Cosine on the first quarter turn: a truncated Taylor polynomial,
/// clamped into `[0, SCALE]`.
pub open spec fn cos_q_spec(t: int) -> int {
    let t2 = mul_down(t, t);
    let t4 = mul_down(t2, t2);
    let t6 = mul_down(t4, t2);
    clamp_unit(SCALE - t2 / 2 + t4 / 24 - t6 / 720)
}

/// Sine on the first quarter turn: a truncated Taylor polynomial,
/// clamped into `[0, SCALE]`.
pub open spec fn sin_q_spec(t: int) -> int {
    let t2 = mul_down(t, t);
    let t3 = mul_down(t2, t);
    let t5 = mul_down(t3, t2);
    let t7 = mul_down(t5, t2);
    clamp_unit(t - t3 / 6 + t5 / 120 - t7 / 5040)
}

/// The angle folded onto `[0, TWO_PI_FX)`.
pub open spec fn angle_mod_spec(x: int) -> int {
    fx_abs(x) % (TWO_PI_FX as int)
}

/// Fixed-point cosine of any angle.
pub open spec fn cos_spec(x: int) -> int {
    let m = angle_mod_spec(x);
    if m <= HALF_PI_FX {
        cos_q_spec(m)
    } else if m <= PI_FX {
        -cos_q_spec(PI_FX - m)
    } else if m <= PI_FX + HALF_PI_FX {
        -cos_q_spec(m - PI_FX)
    } else {
        cos_q_spec(TWO_PI_FX - m)
    }
}

/// Fixed-point sine of any angle.
pub open spec fn sin_spec(x: int) -> int {
    let m = angle_mod_spec(x);
    let s = if m <= HALF_PI_FX {
        sin_q_spec(m)
    } else if m <= PI_FX {
        sin_q_spec(PI_FX - m)
    } else if m <= PI_FX + HALF_PI_FX {
        -sin_q_spec(m - PI_FX)
    } else {
        -sin_q_spec(TWO_PI_FX - m)
    };
    if x >= 0 {
        s
    } else {
        -s
    }
}

/// Cosine and sine on the first quarter turn.
fn quarter_cos_sin(t: u64) -> (r: (i64, i64))
    requires
        t <= HALF_PI_FX,
    ensures
        r.0 == cos_q_spec(t as int),
        r.1 == sin_q_spec(t as int),
        0 <= r.0 <= SCALE,
        0 <= r.1 <= SCALE,
{
    proof {
        assert(t * t <= 10597467136) by (nonlinear_arith)
            requires
                0 <= t <= 102944,
        ;
    }
    let t2: u64 = t * t / (SCALE as u64);
    proof {
        vstd::arithmetic::div_mod::lemma_div_is_ordered(t * t, 10597467136, SCALE as int);
        assert(t2 * t <= 16646456576 && t2 * t2 <= 26148183616) by (nonlinear_arith)
            requires
                0 <= t <= 102944,
                0 <= t2 <= 161704,
        ;
    }
    let t3: u64 = t2 * t / (SCALE as u64);
    let t4: u64 = t2 * t2 / (SCALE as u64);
    proof {
        vstd::arithmetic::div_mod::lemma_div_is_ordered(t2 * t, 16646456576, SCALE as int);
        vstd::arithmetic::div_mod::lemma_div_is_ordered(t2 * t2, 26148183616, SCALE as int);
        assert(t3 * t2 <= 41073462816 && t4 * t2 <= 64518117256) by (nonlinear_arith)
            requires
                0 <= t2 <= 161704,
                0 <= t3 <= 254004,
                0 <= t4 <= 398989,
        ;
    }
    let t5: u64 = t3 * t2 / (SCALE as u64);
    let t6: u64 = t4 * t2 / (SCALE as u64);
    proof {
        vstd::arithmetic::div_mod::lemma_div_is_ordered(t3 * t2, 41073462816, SCALE as int);
        assert(t5 * t2 <= 101344909624) by (nonlinear_arith)
            requires
                0 <= t2 <= 161704,
                0 <= t5 <= 626731,
        ;
    }
    let t7: u64 = t5 * t2 / (SCALE as u64);
    proof {
        assert(t2 as int == mul_down(t as int, t as int));
        assert(t3 as int == mul_down(t2 as int, t as int));
        assert(t4 as int == mul_down(t2 as int, t2 as int));
        assert(t5 as int == mul_down(t3 as int, t2 as int));
        assert(t6 as int == mul_down(t4 as int, t2 as int));
        assert(t7 as int == mul_down(t5 as int, t2 as int));
    }
    let c_raw: i64 = SCALE - (t2 / 2) as i64 + (t4 / 24) as i64 - (t6 / 720) as i64;
    let s_raw: i64 = t as i64 - (t3 / 6) as i64 + (t5 / 120) as i64 - (t7 / 5040) as i64;
    let c: i64 = if c_raw < 0 {
        0
    } else if c_raw > SCALE {
        SCALE
    } else {
        c_raw
    };
    let s: i64 = if s_raw < 0 {
        0
    } else if s_raw > SCALE {
        SCALE
    } else {
        s_raw
    };
    (c, s)
}

/// Fixed-point cosine: always within one unit, exactly one unit at zero.
pub fn cos_fx(x: i64) -> (r: i64)
    requires
        in_lim(x as int, FX_LIM as int),
    ensures
        r == cos_spec(x as int),
        -SCALE <= r <= SCALE,
        x == 0 ==> r == SCALE,
{
    let mag: u64 = if x >= 0 {
        x as u64
    } else {
        (-x) as u64
    };
    let m: u64 = mag % (TWO_PI_FX as u64);
    proof {
        if x == 0 {
            vstd::arithmetic::div_mod::lemma_small_mod(0, TWO_PI_FX as nat);
            lemma_quarter_zero();
        }
    }
    if m <= HALF_PI_FX as u64 {
        quarter_cos_sin(m).0
    } else if m <= PI_FX as u64 {
        -quarter_cos_sin(PI_FX as u64 - m).0
    } else if m <= (PI_FX + HALF_PI_FX) as u64 {
        -quarter_cos_sin(m - PI_FX as u64).0
    } else {
        quarter_cos_sin(TWO_PI_FX as u64 - m).0
    }
}

/// Fixed-point sine: always within one unit, zero at zero.
pub fn sin_fx(x: i64) -> (r: i64)
    requires
        in_lim(x as int, FX_LIM as int),
    ensures
        r == sin_spec(x as int),
        -SCALE <= r <= SCALE,
        x == 0 ==> r == 0,
{
    let mag: u64 = if x >= 0 {
        x as u64
    } else {
        (-x) as u64
    };
    let m: u64 = mag % (TWO_PI_FX as u64);
    proof {
        if x == 0 {
            vstd::arithmetic::div_mod::lemma_small_mod(0, TWO_PI_FX as nat);
            lemma_quarter_zero();
        }
    }
    let s: i64 = if m <= HALF_PI_FX as u64 {
        quarter_cos_sin(m).1
    } else if m <= PI_FX as u64 {
        quarter_cos_sin(PI_FX as u64 - m).1
    } else if m <= (PI_FX + HALF_PI_FX) as u64 {
        -quarter_cos_sin(m - PI_FX as u64).1
    } else {
        -quarter_cos_sin(TWO_PI_FX as u64 - m).1
    };
    if x >= 0 {
        s
    } else {
        -s
    }
}

/// At a zero angle the folded results are exact: cosine is one unit,
/// sine is zero.
pub proof fn lemma_trig_zero()
    ensures
        cos_spec(0) == SCALE,
        sin_spec(0) == 0,
{
    vstd::arithmetic::div_mod::lemma_small_mod(0, TWO_PI_FX as nat);
    lemma_quarter_zero();
}

/// At a zero angle the quarter polynomials are exact: cosine is one
/// unit, sine is zero.
proof fn lemma_quarter_zero()
    ensures
        cos_q_spec(0) == SCALE,
        sin_q_spec(0) == 0,
{
    assert(0 * 0 == 0) by (nonlinear_arith);
    vstd::arithmetic::div_mod::lemma_div_of0(SCALE as int);
    vstd::arithmetic::div_mod::lemma_div_of0(2);
    vstd::arithmetic::div_mod::lemma_div_of0(6);
    vstd::arithmetic::div_mod::lemma_div_of0(24);
    vstd::arithmetic::div_mod::lemma_div_of0(120);
    vstd::arithmetic::div_mod::lemma_div_of0(720);
    vstd::arithmetic::div_mod::lemma_div_of0(5040);
}

} // verus!
