//! A rigid transform: a translation and a rotation, as the host's scene
//! graph holds them for each entity.

use vstd::prelude::*;

verus! {

use crate::fixed::SCALE;
use crate::fixed::FX_LIM;
use crate::fixed::in_lim;
use crate::fixed::div_tz;
use crate::fixed::mul_down;
use crate::vec::FxVec3;
use crate::vec::v3_in_lim;
use crate::quat::FxQuat;
use crate::quat::q_in_lim;
use crate::quat::qrot_x;
use crate::quat::qrot_y;
use crate::quat::qrot_z;
use crate::quat::qmul_x;
use crate::quat::qmul_y;
use crate::quat::qmul_z;
use crate::quat::qmul_w;
use crate::quat::quat_mul;
use crate::quat::quat_rotate;
use crate::quat::from_axis_angle;
use crate::quat::from_rotation_x;

/// A world-space transform: where an entity sits and how it is turned.
#[derive(Clone, Copy, PartialEq, Eq, Structural, Debug)]
pub struct FxTransform {
    pub translation: FxVec3,
    pub rotation: FxQuat,
}

/// The unit vector along `x`.
pub open spec fn unit_x() -> FxVec3 {
    FxVec3 { x: SCALE, y: 0, z: 0 }
}

/// The unit vector along `y`: the local upward direction.
pub open spec fn unit_y() -> FxVec3 {
    FxVec3 { x: 0, y: SCALE, z: 0 }
}

/// The unit vector along `z`: the local backward direction.
pub open spec fn unit_z() -> FxVec3 {
    FxVec3 { x: 0, y: 0, z: SCALE }
}

/// The rotation quaternion of a turn of `angle` about `axis`, as a value.
pub open spec fn axis_angle_spec(axis: FxVec3, angle: int) -> FxQuat {
    let half = div_tz(angle, 2);
    FxQuat {
        x: mul_down(axis.x as int, crate::trig::sin_spec(half)) as i64,
        y: mul_down(axis.y as int, crate::trig::sin_spec(half)) as i64,
        z: mul_down(axis.z as int, crate::trig::sin_spec(half)) as i64,
        w: crate::trig::cos_spec(half) as i64,
    }
}

/// The rotation quaternion of a pitch of `angle` about the local `x`
/// axis, as a value.
pub open spec fn rot_x_spec(angle: int) -> FxQuat {
    let half = div_tz(angle, 2);
    FxQuat {
        x: crate::trig::sin_spec(half) as i64,
        y: 0,
        z: 0,
        w: crate::trig::cos_spec(half) as i64,
    }
}

/// The quaternion of the rotation whose local axes are the near-unit
/// basis `xa`, `ya`, `za`: the branch keyed on the largest squared
/// component, as is usual for this conversion.
pub open spec fn basis_quat_spec(xa: FxVec3, ya: FxVec3, za: FxVec3) -> FxQuat {
    if za.z <= 0 {
        let dif10 = ya.y - xa.x;
        let omm22 = SCALE - za.z;
        if dif10 <= 0 {
            let f = omm22 - dif10;
            let s = crate::vec::isqrt_spec(f * SCALE);
            FxQuat {
                x: (s / 2) as i64,
                y: div_tz((xa.y + ya.x) * SCALE, 2 * s) as i64,
                z: div_tz((xa.z + za.x) * SCALE, 2 * s) as i64,
                w: div_tz((ya.z - za.y) * SCALE, 2 * s) as i64,
            }
        } else {
            let f = omm22 + dif10;
            let s = crate::vec::isqrt_spec(f * SCALE);
            FxQuat {
                x: div_tz((xa.y + ya.x) * SCALE, 2 * s) as i64,
                y: (s / 2) as i64,
                z: div_tz((ya.z + za.y) * SCALE, 2 * s) as i64,
                w: div_tz((za.x - xa.z) * SCALE, 2 * s) as i64,
            }
        }
    } else {
        let sum10 = ya.y + xa.x;
        let opm22 = SCALE + za.z;
        if sum10 <= 0 {
            let f = opm22 - sum10;
            let s = crate::vec::isqrt_spec(f * SCALE);
            FxQuat {
                x: div_tz((xa.z + za.x) * SCALE, 2 * s) as i64,
                y: div_tz((ya.z + za.y) * SCALE, 2 * s) as i64,
                z: (s / 2) as i64,
                w: div_tz((xa.y - ya.x) * SCALE, 2 * s) as i64,
            }
        } else {
            let f = opm22 + sum10;
            let s = crate::vec::isqrt_spec(f * SCALE);
            FxQuat {
                x: div_tz((ya.z - za.y) * SCALE, 2 * s) as i64,
                y: div_tz((za.x - xa.z) * SCALE, 2 * s) as i64,
                z: div_tz((xa.y - ya.x) * SCALE, 2 * s) as i64,
                w: (s / 2) as i64,
            }
        }
    }
}

/// One component of the conversion: a sum of near-unit entries brought
/// to scale over twice the branch root.
fn basis_comp(a: i64, s: i64) -> (r: i64)
    requires
        in_lim(a as int, 8 * SCALE as int),
        s >= SCALE,
        s <= 4 * SCALE,
    ensures
        r == div_tz(a * SCALE, 2 * s),
        in_lim(r as int, 4 * SCALE as int),
{
    proof {
        crate::fixed::lemma_mul_abs_bound(a as int, SCALE as int, 8 * SCALE as int, SCALE as int);
        crate::fixed::lemma_div_tz_bounds(a * SCALE, 2 * (s as int));
        vstd::arithmetic::div_mod::lemma_div_is_ordered_by_denominator(
            crate::fixed::fx_abs(a * SCALE),
            131072,
            2 * (s as int),
        );
        vstd::arithmetic::div_mod::lemma_div_is_ordered(
            crate::fixed::fx_abs(a * SCALE),
            34359738368,
            131072,
        );
    }
    crate::fixed::mul_div_tz(a, SCALE, 2 * s)
}

/// Converts a near-unit basis to its rotation quaternion.
fn quat_from_basis(xa: FxVec3, ya: FxVec3, za: FxVec3) -> (r: FxQuat)
    requires
        v3_in_lim(xa, 4 * SCALE as int),
        v3_in_lim(ya, 4 * SCALE as int),
        v3_in_lim(za, 4 * SCALE as int),
    ensures
        r == basis_quat_spec(xa, ya, za),
        q_in_lim(r, 4 * SCALE as int),
{
    let f: i64 = if za.z <= 0 {
        let dif10 = ya.y - xa.x;
        let omm22 = SCALE - za.z;
        if dif10 <= 0 {
            omm22 - dif10
        } else {
            omm22 + dif10
        }
    } else {
        let sum10 = ya.y + xa.x;
        let opm22 = SCALE + za.z;
        if sum10 <= 0 {
            opm22 - sum10
        } else {
            opm22 + sum10
        }
    };
    let fs: u128 = (f as u128) * (SCALE as u128);
    let sq: u64 = crate::vec::isqrt(fs);
    proof {
        crate::vec::lemma_isqrt_unique(f * SCALE, sq as int);
        assert(SCALE * (SCALE as int) <= f * SCALE <= 13 * (SCALE * (SCALE as int)))
            by (nonlinear_arith)
            requires
                SCALE <= f <= 13 * SCALE,
        ;
        assert(sq >= SCALE && sq <= 4 * SCALE) by (nonlinear_arith)
            requires
                SCALE * (SCALE as int) <= f * SCALE <= 13 * (SCALE * (SCALE as int)),
                0 <= sq,
                (sq as int) * (sq as int) <= f * SCALE,
                f * SCALE < (sq as int + 1) * (sq as int + 1),
        ;
    }
    let s: i64 = sq as i64;
    let half: i64 = (sq / 2) as i64;
    if za.z <= 0 {
        if ya.y - xa.x <= 0 {
            FxQuat {
                x: half,
                y: basis_comp(xa.y + ya.x, s),
                z: basis_comp(xa.z + za.x, s),
                w: basis_comp(ya.z - za.y, s),
            }
        } else {
            FxQuat {
                x: basis_comp(xa.y + ya.x, s),
                y: half,
                z: basis_comp(ya.z + za.y, s),
                w: basis_comp(za.x - xa.z, s),
            }
        }
    } else {
        if ya.y + xa.x <= 0 {
            FxQuat {
                x: basis_comp(xa.z + za.x, s),
                y: basis_comp(ya.z + za.y, s),
                z: half,
                w: basis_comp(xa.y - ya.x, s),
            }
        } else {
            FxQuat {
                x: basis_comp(ya.z - za.y, s),
                y: basis_comp(za.x - xa.z, s),
                z: basis_comp(xa.y - ya.x, s),
                w: half,
            }
        }
    }
}


/// Whether a vector is exactly zero, through its squared magnitude.
pub proof fn lemma_norm_zero_iff(v: FxVec3)
    ensures
        v3_norm_sq_local(v) >= 0,
        (v3_norm_sq_local(v) == 0) <==> (v.x == 0 && v.y == 0 && v.z == 0),
{
    assert(v3_norm_sq_local(v) == v.x * v.x + v.y * v.y + v.z * v.z);
    assert(v.x * v.x >= 0 && v.y * v.y >= 0 && v.z * v.z >= 0 && (v.x != 0 ==> v.x * v.x > 0)
        && (v.y != 0 ==> v.y * v.y > 0) && (v.z != 0 ==> v.z * v.z > 0) && 0 * 0 == 0)
        by (nonlinear_arith);
}

/// The squared magnitude, restated here for the look-at fold.
pub open spec fn v3_norm_sq_local(v: FxVec3) -> int {
    crate::vec::v3_norm_sq(v)
}

/// The rotation that `look_at` leaves in place: the basis quaternion of
/// the frame whose backward axis points from the target to the
/// transform, or the old rotation where that frame degenerates.
pub open spec fn look_at_spec(t: FxTransform, target: FxVec3, up: FxVec3) -> FxQuat {
    let d = FxVec3 {
        x: (t.translation.x - target.x) as i64,
        y: (t.translation.y - target.y) as i64,
        z: (t.translation.z - target.z) as i64,
    };
    if crate::vec::v3_norm_sq(d) == 0 {
        t.rotation
    } else {
        let len = crate::vec::isqrt_spec(crate::vec::v3_norm_sq(d));
        let back = FxVec3 {
            x: div_tz(d.x * SCALE, len) as i64,
            y: div_tz(d.y * SCALE, len) as i64,
            z: div_tz(d.z * SCALE, len) as i64,
        };
        let rr = FxVec3 {
            x: (up.y * back.z - up.z * back.y) as i64,
            y: (up.z * back.x - up.x * back.z) as i64,
            z: (up.x * back.y - up.y * back.x) as i64,
        };
        if crate::vec::v3_norm_sq(rr) == 0 {
            t.rotation
        } else {
            let rlen = crate::vec::isqrt_spec(crate::vec::v3_norm_sq(rr));
            let right = FxVec3 {
                x: div_tz(rr.x * SCALE, rlen) as i64,
                y: div_tz(rr.y * SCALE, rlen) as i64,
                z: div_tz(rr.z * SCALE, rlen) as i64,
            };
            let upn = FxVec3 {
                x: div_tz(back.y * right.z - back.z * right.y, SCALE as int) as i64,
                y: div_tz(back.z * right.x - back.x * right.z, SCALE as int) as i64,
                z: div_tz(back.x * right.y - back.y * right.x, SCALE as int) as i64,
            };
            basis_quat_spec(right, upn, back)
        }
    }
}

impl FxTransform {
    /// The local `x` axis in world space: the unit `x` vector turned by
    /// the rotation.
    pub fn local_x(&self) -> (r: FxVec3)
        requires
            q_in_lim(self.rotation, 0x80_0000),
        ensures
            r.x == qrot_x(self.rotation, unit_x()),
            r.y == qrot_y(self.rotation, unit_x()),
            r.z == qrot_z(self.rotation, unit_x()),
    {
        quat_rotate(self.rotation, FxVec3 { x: SCALE, y: 0, z: 0 })
    }

    /// The local backward direction in world space: the unit `z` vector
    /// turned by the rotation.
    pub fn back(&self) -> (r: FxVec3)
        requires
            q_in_lim(self.rotation, 0x80_0000),
        ensures
            r.x == qrot_x(self.rotation, unit_z()),
            r.y == qrot_y(self.rotation, unit_z()),
            r.z == qrot_z(self.rotation, unit_z()),
    {
        quat_rotate(self.rotation, FxVec3 { x: 0, y: 0, z: SCALE })
    }

    /// Turns the transform about a world-space axis: the axis-angle
    /// rotation is composed on the world side.
    pub fn rotate_axis(&self, axis: FxVec3, angle: i64) -> (r: FxTransform)
        requires
            v3_in_lim(axis, 2 * SCALE as int),
            in_lim(angle as int, FX_LIM as int),
            q_in_lim(self.rotation, 0x400_0000),
        ensures
            r.translation == self.translation,
            ({
                let q = axis_angle_spec(axis, angle as int);
                &&& r.rotation.x == qmul_x(q, self.rotation)
                &&& r.rotation.y == qmul_y(q, self.rotation)
                &&& r.rotation.z == qmul_z(q, self.rotation)
                &&& r.rotation.w == qmul_w(q, self.rotation)
            }),
    {
        let q = from_axis_angle(axis, angle);
        FxTransform { translation: self.translation, rotation: quat_mul(q, self.rotation) }
    }

    /// Points the transform at `target`, keeping `up` as the upward
    /// reference: the local backward axis faces away from the target and
    /// the basis built from it becomes the new rotation. A degenerate
    /// ask — the transform sitting on the target, or `up` parallel to
    /// the line of sight — leaves the rotation unchanged for this tick.
    pub fn look_at(&self, target: FxVec3, up: FxVec3) -> (r: FxTransform)
        requires
            v3_in_lim(self.translation, 0x100_0000_0000_0000),
            v3_in_lim(target, crate::vec::COORD_LIM as int),
            v3_in_lim(up, 2 * SCALE as int),
        ensures
            r.translation == self.translation,
            r.rotation == look_at_spec(*self, target, up),
    {
        let d = self.translation.minus(target);
        let dsq_zero = d.x == 0 && d.y == 0 && d.z == 0;
        if dsq_zero {
            proof {
                lemma_norm_zero_iff(d);
            }
            return FxTransform { translation: self.translation, rotation: self.rotation };
        }
        proof {
            lemma_norm_zero_iff(d);
        }
        let (back, _dlen) = crate::vec::v3_normalize(d);
        let rr = crate::vec::v3_cross(up, back);
        proof {
            crate::fixed::lemma_mul_abs_bound(up.y as int, back.z as int, 131072, 65536);
            crate::fixed::lemma_mul_abs_bound(up.z as int, back.y as int, 131072, 65536);
            crate::fixed::lemma_mul_abs_bound(up.z as int, back.x as int, 131072, 65536);
            crate::fixed::lemma_mul_abs_bound(up.x as int, back.z as int, 131072, 65536);
            crate::fixed::lemma_mul_abs_bound(up.x as int, back.y as int, 131072, 65536);
            crate::fixed::lemma_mul_abs_bound(up.y as int, back.x as int, 131072, 65536);
        }
        let rr_zero = rr.x == 0 && rr.y == 0 && rr.z == 0;
        if rr_zero {
            proof {
                lemma_norm_zero_iff(rr);
            }
            return FxTransform { translation: self.translation, rotation: self.rotation };
        }
        proof {
            lemma_norm_zero_iff(rr);
        }
        let (right, _rlen) = crate::vec::v3_normalize(rr);
        let un = crate::vec::v3_cross(back, right);
        proof {
            crate::fixed::lemma_mul_abs_bound(back.y as int, right.z as int, 65536, 65536);
            crate::fixed::lemma_mul_abs_bound(back.z as int, right.y as int, 65536, 65536);
            crate::fixed::lemma_mul_abs_bound(back.z as int, right.x as int, 65536, 65536);
            crate::fixed::lemma_mul_abs_bound(back.x as int, right.z as int, 65536, 65536);
            crate::fixed::lemma_mul_abs_bound(back.x as int, right.y as int, 65536, 65536);
            crate::fixed::lemma_mul_abs_bound(back.y as int, right.x as int, 65536, 65536);
            vstd::arithmetic::mul::lemma_mul_basics(un.x as int);
            vstd::arithmetic::mul::lemma_mul_basics(un.y as int);
            vstd::arithmetic::mul::lemma_mul_basics(un.z as int);
            crate::fixed::lemma_div_tz_bounds(un.x as int, SCALE as int);
            crate::fixed::lemma_div_tz_bounds(un.y as int, SCALE as int);
            crate::fixed::lemma_div_tz_bounds(un.z as int, SCALE as int);
            vstd::arithmetic::div_mod::lemma_div_is_ordered(
                crate::fixed::fx_abs(un.x as int),
                0x2_0000_0000,
                SCALE as int,
            );
            vstd::arithmetic::div_mod::lemma_div_is_ordered(
                crate::fixed::fx_abs(un.y as int),
                0x2_0000_0000,
                SCALE as int,
            );
            vstd::arithmetic::div_mod::lemma_div_is_ordered(
                crate::fixed::fx_abs(un.z as int),
                0x2_0000_0000,
                SCALE as int,
            );
        }
        let upn = FxVec3 {
            x: crate::fixed::mul_div_tz(un.x, 1, SCALE),
            y: crate::fixed::mul_div_tz(un.y, 1, SCALE),
            z: crate::fixed::mul_div_tz(un.z, 1, SCALE),
        };
        let rot = quat_from_basis(right, upn, back);
        FxTransform { translation: self.translation, rotation: rot }
    }

    /// Turns the transform about its own local `x` axis: the pitch
    /// rotation is composed on the local side.
    pub fn rotate_local_x(&self, angle: i64) -> (r: FxTransform)
        requires
            in_lim(angle as int, FX_LIM as int),
            q_in_lim(self.rotation, 0x400_0000),
        ensures
            r.translation == self.translation,
            ({
                let q = rot_x_spec(angle as int);
                &&& r.rotation.x == qmul_x(self.rotation, q)
                &&& r.rotation.y == qmul_y(self.rotation, q)
                &&& r.rotation.z == qmul_z(self.rotation, q)
                &&& r.rotation.w == qmul_w(self.rotation, q)
            }),
    {
        let q = from_rotation_x(angle);
        FxTransform { translation: self.translation, rotation: quat_mul(self.rotation, q) }
    }
}

} // verus!
