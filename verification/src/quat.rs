//! Fixed-point quaternions: camera orientations, their composition, and
//! their action on vectors.
//!
//! Components are fixed-point scalars; a well-formed rotation keeps them
//! near one unit. Composition and rotation divide their integer products
//! back to component scale, rounding toward zero, and the contracts state
//! the computed components exactly.

use vstd::prelude::*;

verus! {

use crate::fixed::SCALE;
use crate::fixed::in_lim;
use crate::fixed::fx_abs;
use crate::fixed::div_tz;
use crate::fixed::mul_down;
use crate::fixed::div_i128;
use crate::fixed::fx_mul;
use crate::fixed::lemma_mul_abs_bound;
use crate::fixed::lemma_div_tz_bounds;
use crate::vec::FxVec3;
use crate::vec::v3_in_lim;

/// A quaternion of fixed-point scalars; `w` is the real part.
#[derive(Clone, Copy, PartialEq, Eq, Structural, Debug)]
pub struct FxQuat {
    pub x: i64,
    pub y: i64,
    pub z: i64,
    pub w: i64,
}

/// Largest component magnitude a rotation may have when handed to a
/// per-tick resolution step: a few units, since a true rotation is a
/// unit quaternion and only rounding drift pushes it off one.
pub const QUAT_LIM: i64 = 0x4_0000;

/// All components of `q` lie within `[-lim, lim]`.
pub open spec fn q_in_lim(q: FxQuat, lim: int) -> bool {
    in_lim(q.x as int, lim) && in_lim(q.y as int, lim) && in_lim(q.z as int, lim) && in_lim(
        q.w as int,
        lim,
    )
}

impl FxQuat {
    /// The identity rotation.
    pub fn identity() -> (r: FxQuat)
        ensures
            r.x == 0 && r.y == 0 && r.z == 0 && r.w == SCALE,
    {
        FxQuat { x: 0, y: 0, z: 0, w: SCALE }
    }
}

/// `x` component of the Hamilton product.
pub open spec fn qmul_x(a: FxQuat, b: FxQuat) -> int {
    div_tz(a.w * b.x + a.x * b.w + a.y * b.z - a.z * b.y, SCALE as int)
}

/// `y` component of the Hamilton product.
pub open spec fn qmul_y(a: FxQuat, b: FxQuat) -> int {
    div_tz(a.w * b.y - a.x * b.z + a.y * b.w + a.z * b.x, SCALE as int)
}

/// `z` component of the Hamilton product.
pub open spec fn qmul_z(a: FxQuat, b: FxQuat) -> int {
    div_tz(a.w * b.z + a.x * b.y - a.y * b.x + a.z * b.w, SCALE as int)
}

/// `w` component of the Hamilton product.
pub open spec fn qmul_w(a: FxQuat, b: FxQuat) -> int {
    div_tz(a.w * b.w - a.x * b.x - a.y * b.y - a.z * b.z, SCALE as int)
}

/// `x` component of `v` rotated by `q`.
pub open spec fn qrot_x(q: FxQuat, v: FxVec3) -> int {
    let cx = q.y * v.z - q.z * v.y;
    let cy = q.z * v.x - q.x * v.z;
    let cz = q.x * v.y - q.y * v.x;
    v.x + div_tz(2 * (q.w * cx + (q.y * cz - q.z * cy)), 0x1_0000_0000)
}

/// `y` component of `v` rotated by `q`.
pub open spec fn qrot_y(q: FxQuat, v: FxVec3) -> int {
    let cx = q.y * v.z - q.z * v.y;
    let cy = q.z * v.x - q.x * v.z;
    let cz = q.x * v.y - q.y * v.x;
    v.y + div_tz(2 * (q.w * cy + (q.z * cx - q.x * cz)), 0x1_0000_0000)
}

/// `z` component of `v` rotated by `q`.
pub open spec fn qrot_z(q: FxQuat, v: FxVec3) -> int {
    let cx = q.y * v.z - q.z * v.y;
    let cy = q.z * v.x - q.x * v.z;
    let cz = q.x * v.y - q.y * v.x;
    v.z + div_tz(2 * (q.w * cz + (q.x * cy - q.y * cx)), 0x1_0000_0000)
}

/// Hamilton product: composes two rotations (`a` applied after `b`).
pub fn quat_mul(a: FxQuat, b: FxQuat) -> (r: FxQuat)
    requires
        q_in_lim(a, 0x400_0000),
        q_in_lim(b, 0x400_0000),
    ensures
        r.x == qmul_x(a, b),
        r.y == qmul_y(a, b),
        r.z == qmul_z(a, b),
        r.w == qmul_w(a, b),
{
    proof {
        lemma_mul_abs_bound(a.w as int, b.x as int, 0x400_0000, 0x400_0000);
        lemma_mul_abs_bound(a.x as int, b.w as int, 0x400_0000, 0x400_0000);
        lemma_mul_abs_bound(a.y as int, b.z as int, 0x400_0000, 0x400_0000);
        lemma_mul_abs_bound(a.z as int, b.y as int, 0x400_0000, 0x400_0000);
        lemma_mul_abs_bound(a.w as int, b.y as int, 0x400_0000, 0x400_0000);
        lemma_mul_abs_bound(a.x as int, b.z as int, 0x400_0000, 0x400_0000);
        lemma_mul_abs_bound(a.y as int, b.w as int, 0x400_0000, 0x400_0000);
        lemma_mul_abs_bound(a.z as int, b.x as int, 0x400_0000, 0x400_0000);
        lemma_mul_abs_bound(a.w as int, b.z as int, 0x400_0000, 0x400_0000);
        lemma_mul_abs_bound(a.x as int, b.y as int, 0x400_0000, 0x400_0000);
        lemma_mul_abs_bound(a.y as int, b.x as int, 0x400_0000, 0x400_0000);
        lemma_mul_abs_bound(a.z as int, b.w as int, 0x400_0000, 0x400_0000);
        lemma_mul_abs_bound(a.w as int, b.w as int, 0x400_0000, 0x400_0000);
        lemma_mul_abs_bound(a.x as int, b.x as int, 0x400_0000, 0x400_0000);
        lemma_mul_abs_bound(a.y as int, b.y as int, 0x400_0000, 0x400_0000);
        lemma_mul_abs_bound(a.z as int, b.z as int, 0x400_0000, 0x400_0000);
        lemma_div_tz_bounds(
            (a.w * b.x + a.x * b.w + a.y * b.z - a.z * b.y) as int,
            SCALE as int,
        );
        lemma_div_tz_bounds(
            (a.w * b.y - a.x * b.z + a.y * b.w + a.z * b.x) as int,
            SCALE as int,
        );
        lemma_div_tz_bounds(
            (a.w * b.z + a.x * b.y - a.y * b.x + a.z * b.w) as int,
            SCALE as int,
        );
        lemma_div_tz_bounds(
            (a.w * b.w - a.x * b.x - a.y * b.y - a.z * b.z) as int,
            SCALE as int,
        );
    }
    let px: i128 = (a.w as i128) * (b.x as i128) + (a.x as i128) * (b.w as i128) + (
    a.y as i128) * (b.z as i128) - (a.z as i128) * (b.y as i128);
    let py: i128 = (a.w as i128) * (b.y as i128) - (a.x as i128) * (b.z as i128) + (
    a.y as i128) * (b.w as i128) + (a.z as i128) * (b.x as i128);
    let pz: i128 = (a.w as i128) * (b.z as i128) + (a.x as i128) * (b.y as i128) - (
    a.y as i128) * (b.x as i128) + (a.z as i128) * (b.w as i128);
    let pw: i128 = (a.w as i128) * (b.w as i128) - (a.x as i128) * (b.x as i128) - (
    a.y as i128) * (b.y as i128) - (a.z as i128) * (b.z as i128);
    FxQuat {
        x: div_i128(px, SCALE),
        y: div_i128(py, SCALE),
        z: div_i128(pz, SCALE),
        w: div_i128(pw, SCALE),
    }
}

/// The Hamilton product of rotations within `la` and `lb` stays within
/// `lr` whenever `4 * la * lb` fits `lr` at scale.
pub proof fn lemma_qmul_in_lim(a: FxQuat, b: FxQuat, la: int, lb: int, lr: int)
    requires
        q_in_lim(a, la),
        q_in_lim(b, lb),
        0 <= la,
        0 <= lb,
        4 * (la * lb) <= lr * SCALE,
        0 <= lr,
    ensures
        in_lim(qmul_x(a, b), lr),
        in_lim(qmul_y(a, b), lr),
        in_lim(qmul_z(a, b), lr),
        in_lim(qmul_w(a, b), lr),
{
    vstd::arithmetic::mul::lemma_mul_nonnegative(la, lb);
    lemma_mul_abs_bound(a.w as int, b.x as int, la, lb);
    lemma_mul_abs_bound(a.x as int, b.w as int, la, lb);
    lemma_mul_abs_bound(a.y as int, b.z as int, la, lb);
    lemma_mul_abs_bound(a.z as int, b.y as int, la, lb);
    lemma_mul_abs_bound(a.w as int, b.y as int, la, lb);
    lemma_mul_abs_bound(a.x as int, b.z as int, la, lb);
    lemma_mul_abs_bound(a.y as int, b.w as int, la, lb);
    lemma_mul_abs_bound(a.z as int, b.x as int, la, lb);
    lemma_mul_abs_bound(a.w as int, b.z as int, la, lb);
    lemma_mul_abs_bound(a.x as int, b.y as int, la, lb);
    lemma_mul_abs_bound(a.y as int, b.x as int, la, lb);
    lemma_mul_abs_bound(a.z as int, b.w as int, la, lb);
    lemma_mul_abs_bound(a.w as int, b.w as int, la, lb);
    lemma_mul_abs_bound(a.x as int, b.x as int, la, lb);
    lemma_mul_abs_bound(a.y as int, b.y as int, la, lb);
    lemma_mul_abs_bound(a.z as int, b.z as int, la, lb);
    let pb = la * lb;
    assert(-4 * pb <= a.w * b.x + a.x * b.w + a.y * b.z - a.z * b.y <= 4 * pb)
        by (nonlinear_arith)
        requires
            -pb <= a.w * b.x <= pb,
            -pb <= a.x * b.w <= pb,
            -pb <= a.y * b.z <= pb,
            -pb <= a.z * b.y <= pb,
    ;
    assert(-4 * pb <= a.w * b.y - a.x * b.z + a.y * b.w + a.z * b.x <= 4 * pb)
        by (nonlinear_arith)
        requires
            -pb <= a.w * b.y <= pb,
            -pb <= a.x * b.z <= pb,
            -pb <= a.y * b.w <= pb,
            -pb <= a.z * b.x <= pb,
    ;
    assert(-4 * pb <= a.w * b.z + a.x * b.y - a.y * b.x + a.z * b.w <= 4 * pb)
        by (nonlinear_arith)
        requires
            -pb <= a.w * b.z <= pb,
            -pb <= a.x * b.y <= pb,
            -pb <= a.y * b.x <= pb,
            -pb <= a.z * b.w <= pb,
    ;
    assert(-4 * pb <= a.w * b.w - a.x * b.x - a.y * b.y - a.z * b.z <= 4 * pb)
        by (nonlinear_arith)
        requires
            -pb <= a.w * b.w <= pb,
            -pb <= a.x * b.x <= pb,
            -pb <= a.y * b.y <= pb,
            -pb <= a.z * b.z <= pb,
    ;
    lemma_qnum_div_lim(a.w * b.x + a.x * b.w + a.y * b.z - a.z * b.y, pb, lr);
    lemma_qnum_div_lim(a.w * b.y - a.x * b.z + a.y * b.w + a.z * b.x, pb, lr);
    lemma_qnum_div_lim(a.w * b.z + a.x * b.y - a.y * b.x + a.z * b.w, pb, lr);
    lemma_qnum_div_lim(a.w * b.w - a.x * b.x - a.y * b.y - a.z * b.z, pb, lr);
}

/// A numerator within four products, divided by the scale, stays within
/// the stated limit.
proof fn lemma_qnum_div_lim(n: int, pb: int, lr: int)
    requires
        -4 * pb <= n <= 4 * pb,
        0 <= pb,
        4 * pb <= lr * SCALE,
        0 <= lr,
    ensures
        in_lim(div_tz(n, SCALE as int), lr),
{
    lemma_div_tz_bounds(n, SCALE as int);
    vstd::arithmetic::div_mod::lemma_div_is_ordered(fx_abs(n), lr * SCALE, SCALE as int);
    assert((lr * SCALE) / (SCALE as int) == lr) by {
        vstd::arithmetic::div_mod::lemma_div_by_multiple(lr, SCALE as int);
    }
}

/// Rotates `v` by the quaternion `q`.
pub fn quat_rotate(q: FxQuat, v: FxVec3) -> (r: FxVec3)
    requires
        q_in_lim(q, 0x80_0000),
        v3_in_lim(v, 0x100_0000_0000),
    ensures
        r.x == qrot_x(q, v),
        r.y == qrot_y(q, v),
        r.z == qrot_z(q, v),
{
    proof {
        lemma_mul_abs_bound(q.y as int, v.z as int, 0x80_0000, 0x100_0000_0000);
        lemma_mul_abs_bound(q.z as int, v.y as int, 0x80_0000, 0x100_0000_0000);
        lemma_mul_abs_bound(q.z as int, v.x as int, 0x80_0000, 0x100_0000_0000);
        lemma_mul_abs_bound(q.x as int, v.z as int, 0x80_0000, 0x100_0000_0000);
        lemma_mul_abs_bound(q.x as int, v.y as int, 0x80_0000, 0x100_0000_0000);
        lemma_mul_abs_bound(q.y as int, v.x as int, 0x80_0000, 0x100_0000_0000);
    }
    let cx: i128 = (q.y as i128) * (v.z as i128) - (q.z as i128) * (v.y as i128);
    let cy: i128 = (q.z as i128) * (v.x as i128) - (q.x as i128) * (v.z as i128);
    let cz: i128 = (q.x as i128) * (v.y as i128) - (q.y as i128) * (v.x as i128);
    proof {
        lemma_mul_abs_bound(q.w as int, cx as int, 0x80_0000, 0x1_0000_0000_0000_0000);
        lemma_mul_abs_bound(q.w as int, cy as int, 0x80_0000, 0x1_0000_0000_0000_0000);
        lemma_mul_abs_bound(q.w as int, cz as int, 0x80_0000, 0x1_0000_0000_0000_0000);
        lemma_mul_abs_bound(q.y as int, cz as int, 0x80_0000, 0x1_0000_0000_0000_0000);
        lemma_mul_abs_bound(q.z as int, cy as int, 0x80_0000, 0x1_0000_0000_0000_0000);
        lemma_mul_abs_bound(q.z as int, cx as int, 0x80_0000, 0x1_0000_0000_0000_0000);
        lemma_mul_abs_bound(q.x as int, cz as int, 0x80_0000, 0x1_0000_0000_0000_0000);
        lemma_mul_abs_bound(q.x as int, cy as int, 0x80_0000, 0x1_0000_0000_0000_0000);
        lemma_mul_abs_bound(q.y as int, cx as int, 0x80_0000, 0x1_0000_0000_0000_0000);
        lemma_rot_term_fits((2 * ((q.w as i128) * cx + ((q.y as i128) * cz - (q.z as i128) * cy))) as int);
        lemma_rot_term_fits((2 * ((q.w as i128) * cy + ((q.z as i128) * cx - (q.x as i128) * cz))) as int);
        lemma_rot_term_fits((2 * ((q.w as i128) * cz + ((q.x as i128) * cy - (q.y as i128) * cx))) as int);
    }
    let dx: i64 = div_i128(
        2 * ((q.w as i128) * cx + ((q.y as i128) * cz - (q.z as i128) * cy)),
        0x1_0000_0000,
    );
    let dy: i64 = div_i128(
        2 * ((q.w as i128) * cy + ((q.z as i128) * cx - (q.x as i128) * cz)),
        0x1_0000_0000,
    );
    let dz: i64 = div_i128(
        2 * ((q.w as i128) * cz + ((q.x as i128) * cy - (q.y as i128) * cx)),
        0x1_0000_0000,
    );
    FxVec3 { x: v.x + dx, y: v.y + dy, z: v.z + dz }
}

/// A rotation displacement numerator of tick magnitude, divided back to
/// scale, fits a machine word.
proof fn lemma_rot_term_fits(n: int)
    requires
        -0x40000000000000000000000 <= n <= 0x40000000000000000000000,
    ensures
        in_lim(div_tz(n, 0x1_0000_0000), 0x400_0000_0000_0000),
        n > -0x8000_0000_0000_0000_0000_0000_0000_0000,
{
    lemma_div_tz_bounds(n, 0x1_0000_0000);
    vstd::arithmetic::div_mod::lemma_div_is_ordered(
        fx_abs(n),
        0x40000000000000000000000,
        0x1_0000_0000,
    );
}

/// A rotation within `lq` moves a vector within `lv` to one within `lv`
/// plus the rotation's reach.
pub proof fn lemma_qrot_in_lim(q: FxQuat, v: FxVec3, lq: int, lv: int, lr: int)
    requires
        q_in_lim(q, lq),
        v3_in_lim(v, lv),
        0 <= lq,
        0 <= lv,
        lv * 0x1_0000_0000 + 12 * ((lq * lq) * lv) <= lr * 0x1_0000_0000,
        0 <= lr,
    ensures
        in_lim(qrot_x(q, v), lr),
        in_lim(qrot_y(q, v), lr),
        in_lim(qrot_z(q, v), lr),
{
    vstd::arithmetic::mul::lemma_mul_nonnegative(lq, lv);
    vstd::arithmetic::mul::lemma_mul_nonnegative(lq, lq);
    vstd::arithmetic::mul::lemma_mul_nonnegative(lq * lq, lv);
    lemma_mul_abs_bound(q.y as int, v.z as int, lq, lv);
    lemma_mul_abs_bound(q.z as int, v.y as int, lq, lv);
    lemma_mul_abs_bound(q.z as int, v.x as int, lq, lv);
    lemma_mul_abs_bound(q.x as int, v.z as int, lq, lv);
    lemma_mul_abs_bound(q.x as int, v.y as int, lq, lv);
    lemma_mul_abs_bound(q.y as int, v.x as int, lq, lv);
    let cx = q.y * v.z - q.z * v.y;
    let cy = q.z * v.x - q.x * v.z;
    let cz = q.x * v.y - q.y * v.x;
    let qb = (lq * lq) * lv;
    assert(-2 * (lq * lv) <= cx <= 2 * (lq * lv) && -2 * (lq * lv) <= cy <= 2 * (lq * lv)
        && -2 * (lq * lv) <= cz <= 2 * (lq * lv)) by (nonlinear_arith)
        requires
            -(lq * lv) <= q.y * v.z <= lq * lv,
            -(lq * lv) <= q.z * v.y <= lq * lv,
            -(lq * lv) <= q.z * v.x <= lq * lv,
            -(lq * lv) <= q.x * v.z <= lq * lv,
            -(lq * lv) <= q.x * v.y <= lq * lv,
            -(lq * lv) <= q.y * v.x <= lq * lv,
            cx == q.y * v.z - q.z * v.y,
            cy == q.z * v.x - q.x * v.z,
            cz == q.x * v.y - q.y * v.x,
    ;
    assert(-2 * qb <= q.w * cx <= 2 * qb && -2 * qb <= q.w * cy <= 2 * qb && -2 * qb <= q.w
        * cz <= 2 * qb && -2 * qb <= q.y * cz <= 2 * qb && -2 * qb <= q.z * cy <= 2 * qb
        && -2 * qb <= q.z * cx <= 2 * qb && -2 * qb <= q.x * cz <= 2 * qb && -2 * qb <= q.x
        * cy <= 2 * qb && -2 * qb <= q.y * cx <= 2 * qb) by (nonlinear_arith)
        requires
            -lq <= q.x <= lq,
            -lq <= q.y <= lq,
            -lq <= q.z <= lq,
            -lq <= q.w <= lq,
            -2 * (lq * lv) <= cx <= 2 * (lq * lv),
            -2 * (lq * lv) <= cy <= 2 * (lq * lv),
            -2 * (lq * lv) <= cz <= 2 * (lq * lv),
            qb == (lq * lq) * lv,
            0 <= lq,
            0 <= lv,
    ;
    assert(-12 * qb <= 2 * (q.w * cx + (q.y * cz - q.z * cy)) <= 12 * qb) by (nonlinear_arith)
        requires
            -2 * qb <= q.w * cx <= 2 * qb,
            -2 * qb <= q.y * cz <= 2 * qb,
            -2 * qb <= q.z * cy <= 2 * qb,
    ;
    assert(-12 * qb <= 2 * (q.w * cy + (q.z * cx - q.x * cz)) <= 12 * qb) by (nonlinear_arith)
        requires
            -2 * qb <= q.w * cy <= 2 * qb,
            -2 * qb <= q.z * cx <= 2 * qb,
            -2 * qb <= q.x * cz <= 2 * qb,
    ;
    assert(-12 * qb <= 2 * (q.w * cz + (q.x * cy - q.y * cx)) <= 12 * qb) by (nonlinear_arith)
        requires
            -2 * qb <= q.w * cz <= 2 * qb,
            -2 * qb <= q.x * cy <= 2 * qb,
            -2 * qb <= q.y * cx <= 2 * qb,
    ;
    lemma_qrot_num_lim(2 * (q.w * cx + (q.y * cz - q.z * cy)), qb, lv, lr);
    lemma_qrot_num_lim(2 * (q.w * cy + (q.z * cx - q.x * cz)), qb, lv, lr);
    lemma_qrot_num_lim(2 * (q.w * cz + (q.x * cy - q.y * cx)), qb, lv, lr);
}

/// The displacement term of a rotation, divided back to scale, keeps the
/// rotated vector within the stated limit.
proof fn lemma_qrot_num_lim(n: int, pb: int, lv: int, lr: int)
    requires
        -12 * pb <= n <= 12 * pb,
        0 <= pb,
        0 <= lv,
        lv * 0x1_0000_0000 + 12 * pb <= lr * 0x1_0000_0000,
        0 <= lr,
    ensures
        fx_abs(div_tz(n, 0x1_0000_0000)) + lv <= lr,
{
    lemma_div_tz_bounds(n, 0x1_0000_0000);
    vstd::arithmetic::div_mod::lemma_div_is_ordered(
        fx_abs(n),
        (lr - lv) * 0x1_0000_0000,
        0x1_0000_0000,
    );
    assert(((lr - lv) * 0x1_0000_0000) / 0x1_0000_0000 == lr - lv) by {
        vstd::arithmetic::div_mod::lemma_div_by_multiple(lr - lv, 0x1_0000_0000);
    }
    assert(lv * 0x1_0000_0000 + 12 * pb <= lr * 0x1_0000_0000 ==> 12 * pb <= (lr - lv)
        * 0x1_0000_0000) by (nonlinear_arith);
}

/// The rotation quaternion for a turn of `angle` about `axis`: the axis
/// scaled by the sine of the half angle, with the cosine as real part.
pub fn from_axis_angle(axis: FxVec3, angle: i64) -> (r: FxQuat)
    requires
        v3_in_lim(axis, 2 * SCALE as int),
        in_lim(angle as int, crate::fixed::FX_LIM as int),
    ensures
        ({
            let half = div_tz(angle as int, 2);
            &&& r.x == mul_down(axis.x as int, crate::trig::sin_spec(half))
            &&& r.y == mul_down(axis.y as int, crate::trig::sin_spec(half))
            &&& r.z == mul_down(axis.z as int, crate::trig::sin_spec(half))
            &&& r.w == crate::trig::cos_spec(half)
        }),
        q_in_lim(r, 2 * SCALE as int),
        angle == 0 ==> r.x == 0 && r.y == 0 && r.z == 0 && r.w == SCALE,
{
    proof {
        lemma_div_tz_bounds(angle as int, 2);
        if angle == 0 {
            vstd::arithmetic::div_mod::lemma_div_of0(2);
        }
    }
    let half: i64 = crate::fixed::mul_div_tz(angle, 1, 2);
    let s: i64 = crate::trig::sin_fx(half);
    let c: i64 = crate::trig::cos_fx(half);
    proof {
        lemma_mul_abs_bound(axis.x as int, s as int, 2 * SCALE as int, SCALE as int);
        lemma_mul_abs_bound(axis.y as int, s as int, 2 * SCALE as int, SCALE as int);
        lemma_mul_abs_bound(axis.z as int, s as int, 2 * SCALE as int, SCALE as int);
        if s >= 0 {
            crate::fixed::lemma_mul_down_fraction(axis.x as int, s as int);
            crate::fixed::lemma_mul_down_fraction(axis.y as int, s as int);
            crate::fixed::lemma_mul_down_fraction(axis.z as int, s as int);
        } else {
            lemma_mul_down_neg_fraction(axis.x as int, s as int);
            lemma_mul_down_neg_fraction(axis.y as int, s as int);
            lemma_mul_down_neg_fraction(axis.z as int, s as int);
        }
        if angle == 0 {
            crate::fixed::lemma_mul_down_one(axis.x as int);
            crate::fixed::lemma_mul_down_one(axis.y as int);
            crate::fixed::lemma_mul_down_one(axis.z as int);
        }
    }
    FxQuat { x: fx_mul(axis.x, s), y: fx_mul(axis.y, s), z: fx_mul(axis.z, s), w: c }
}

/// Scaling by a fraction in `[-SCALE, 0]` also never grows a magnitude.
proof fn lemma_mul_down_neg_fraction(a: int, q: int)
    requires
        -SCALE <= q <= 0,
    ensures
        fx_abs(mul_down(a, q)) <= fx_abs(a),
{
    crate::fixed::lemma_mul_down_fraction(a, -q);
    assert(a * q == -(a * (-q))) by (nonlinear_arith);
    lemma_div_tz_bounds(a * (-q), SCALE as int);
    lemma_div_tz_bounds(a * q, SCALE as int);
}

/// The rotation quaternion for a pitch of `angle` about the local `x`
/// axis.
pub fn from_rotation_x(angle: i64) -> (r: FxQuat)
    requires
        in_lim(angle as int, crate::fixed::FX_LIM as int),
    ensures
        ({
            let half = div_tz(angle as int, 2);
            &&& r.x == crate::trig::sin_spec(half)
            &&& r.y == 0
            &&& r.z == 0
            &&& r.w == crate::trig::cos_spec(half)
        }),
        q_in_lim(r, SCALE as int),
        angle == 0 ==> r.x == 0 && r.y == 0 && r.z == 0 && r.w == SCALE,
{
    proof {
        lemma_div_tz_bounds(angle as int, 2);
        if angle == 0 {
            vstd::arithmetic::div_mod::lemma_div_of0(2);
        }
    }
    let half: i64 = crate::fixed::mul_div_tz(angle, 1, 2);
    FxQuat { x: crate::trig::sin_fx(half), y: 0, z: 0, w: crate::trig::cos_fx(half) }
}

} // verus!
