//! Per-tick resolution for the generalized controller: the consumption
//! stage turns buffered input into motion or rotation increments, and
//! the placement stage writes the camera transform the anchor and view
//! modes dictate.
//!
//! Each function resolves one controller against the transforms the host
//! looked up for it. A missing entity skips the whole controller for the
//! tick — no partial write — and is reported as a recoverable error.

use vstd::prelude::*;

verus! {

use crate::fixed::SCALE;
use crate::fixed::FX_LIM;
use crate::fixed::DT_LIM;
use crate::fixed::DELTA_LIM;
use crate::fixed::in_lim;
use crate::fixed::mul_down;
use crate::fixed::div_tz;
use crate::vec::FxVec2;
use crate::vec::FxVec3;
use crate::vec::v2_in_lim;
use crate::vec::v3_in_lim;
use crate::vec::v3_dot;
use crate::vec::v3_norm_sq;
use crate::vec::isqrt_spec;
use crate::vec::COORD_LIM;
use crate::quat::FxQuat;
use crate::quat::QUAT_LIM;
use crate::quat::q_in_lim;
use crate::quat::qmul_x;
use crate::quat::qmul_y;
use crate::quat::qmul_z;
use crate::quat::qmul_w;
use crate::quat::qrot_x;
use crate::quat::qrot_y;
use crate::quat::qrot_z;
use crate::controller::CameraController;
use crate::controller::CameraBuffer;
use crate::controller::CameraAnchor;
use crate::controller::CameraView;
use crate::controller::DecayRate;
use crate::controller::consumed_step;
use crate::controller::remaining_step;
use crate::controller::can_rotate_pitch_spec;
use crate::transform::FxTransform;
use crate::transform::axis_angle_spec;
use crate::transform::rot_x_spec;
use crate::transform::look_at_spec;
use crate::smooth::exp_neg_spec;
use crate::smooth::nudge;

/// Why a controller was skipped for a tick.
#[derive(Clone, Copy, PartialEq, Eq, Structural, Debug)]
pub enum CameraError {
    /// A referenced camera or target entity no longer exists in the
    /// host's transform store.
    MissingEntity,
}

/// The input consumed this tick, scaled by the sensitivity.
pub open spec fn scaled_delta(b: FxVec2, rate: DecayRate, dt: int, sens: int) -> FxVec2 {
    FxVec2 {
        x: mul_down(consumed_step(b.x as int, rate, dt), sens) as i64,
        y: mul_down(consumed_step(b.y as int, rate, dt), sens) as i64,
    }
}

/// What the buffer holds after the consumption stage.
pub open spec fn buffer_after(b: FxVec2, rate: DecayRate, dt: int) -> FxVec2 {
    FxVec2 {
        x: remaining_step(b.x as int, rate, dt) as i64,
        y: remaining_step(b.y as int, rate, dt) as i64,
    }
}

/// The in-plane axes of the plane anchor, before normalization: the yaw
/// axis rejected from the normal, and their cross product.
pub open spec fn plane_raw_axes(yaw_axis: FxVec3, normal: FxVec3) -> (FxVec3, FxVec3) {
    (
        FxVec3 {
            x: (yaw_axis.x - div_tz(normal.x * v3_dot(yaw_axis, normal), 0x1_0000_0000)) as i64,
            y: (yaw_axis.y - div_tz(normal.y * v3_dot(yaw_axis, normal), 0x1_0000_0000)) as i64,
            z: (yaw_axis.z - div_tz(normal.z * v3_dot(yaw_axis, normal), 0x1_0000_0000)) as i64,
        },
        FxVec3 {
            x: (yaw_axis.y * normal.z - yaw_axis.z * normal.y) as i64,
            y: (yaw_axis.z * normal.x - yaw_axis.x * normal.z) as i64,
            z: (yaw_axis.x * normal.y - yaw_axis.y * normal.x) as i64,
        },
    )
}

/// A vector brought to unit scale by its own length.
pub open spec fn normalized_spec(v: FxVec3) -> FxVec3 {
    let len = isqrt_spec(v3_norm_sq(v));
    FxVec3 {
        x: div_tz(v.x * SCALE, len) as i64,
        y: div_tz(v.y * SCALE, len) as i64,
        z: div_tz(v.z * SCALE, len) as i64,
    }
}

/// The plane anchor's move: the consumed delta mapped onto the two
/// normalized in-plane axes. A yaw axis parallel to the plane normal
/// leaves no in-plane axes, and the move is skipped for the tick.
pub open spec fn plane_step(
    c: CameraController,
    normal: FxVec3,
    cam: FxTransform,
    d: FxVec2,
) -> FxTransform {
    let (rej, crs) = plane_raw_axes(c.yaw_axis, normal);
    if v3_norm_sq(rej) == 0 || v3_norm_sq(crs) == 0 {
        cam
    } else {
        let ly = normalized_spec(rej);
        let lx = normalized_spec(crs);
        FxTransform {
            translation: FxVec3 {
                x: (cam.translation.x + mul_down(ly.x as int, d.y as int) + mul_down(
                    lx.x as int,
                    d.x as int,
                )) as i64,
                y: (cam.translation.y + mul_down(ly.y as int, d.y as int) + mul_down(
                    lx.y as int,
                    d.x as int,
                )) as i64,
                z: (cam.translation.z + mul_down(ly.z as int, d.y as int) + mul_down(
                    lx.z as int,
                    d.x as int,
                )) as i64,
            },
            rotation: cam.rotation,
        }
    }
}

/// The buffer rotation after the yaw increment about the world axis.
pub open spec fn yawed_rotation(yaw_axis: FxVec3, angle: int, rot: FxQuat) -> FxQuat {
    let q = axis_angle_spec(yaw_axis, angle);
    FxQuat {
        x: qmul_x(q, rot) as i64,
        y: qmul_y(q, rot) as i64,
        z: qmul_z(q, rot) as i64,
        w: qmul_w(q, rot) as i64,
    }
}

/// The buffer rotation after the pitch increment about the local
/// lateral axis.
pub open spec fn pitched_rotation(rot: FxQuat, angle: int) -> FxQuat {
    let q = rot_x_spec(angle);
    FxQuat {
        x: qmul_x(rot, q) as i64,
        y: qmul_y(rot, q) as i64,
        z: qmul_z(rot, q) as i64,
        w: qmul_w(rot, q) as i64,
    }
}

/// Consumes the input buffers of one controller for this tick: the
/// plane anchor moves the camera by the consumed translation delta,
/// mapped onto its in-plane axes; every other anchor turns the consumed
/// rotation delta into yaw about the world axis and a pitch gated by
/// the limiter, accumulated into the buffer rotation that the free view
/// writes to the camera. A missing camera entity consumes nothing and
/// reports the skip.
pub fn consume_buffers(
    controller: &CameraController,
    buffer: &mut CameraBuffer,
    camera: Option<&FxTransform>,
    dt: i64,
) -> (r: Result<FxTransform, CameraError>)
    requires
        controller.wf(),
        old(buffer).wf(),
        v2_in_lim(old(buffer).view(), DELTA_LIM as int),
        q_in_lim(old(buffer).rotation, QUAT_LIM as int),
        (camera matches Some(cam) ==> v3_in_lim(cam.translation, COORD_LIM as int) && q_in_lim(
            cam.rotation,
            QUAT_LIM as int,
        )),
        0 <= dt <= DT_LIM,
    ensures
        camera is None ==> r == Result::<FxTransform, CameraError>::Err(
            CameraError::MissingEntity,
        ) && *final(buffer) == *old(buffer),
        (camera matches Some(cam) ==> match controller.anchor {
            CameraAnchor::Plane { normal } => {
                &&& r == Result::<FxTransform, CameraError>::Ok(
                    plane_step(
                        *controller,
                        normal,
                        *cam,
                        scaled_delta(
                            old(buffer).view(),
                            controller.translation_rate(),
                            dt as int,
                            controller.sensitivity as int,
                        ),
                    ),
                )
                &&& final(buffer).view() == buffer_after(
                    old(buffer).view(),
                    controller.translation_rate(),
                    dt as int,
                )
                &&& final(buffer).rotation == old(buffer).rotation
            },
            _ => {
                let d = scaled_delta(
                    old(buffer).view(),
                    controller.rotation_rate(),
                    dt as int,
                    controller.sensitivity as int,
                );
                let y = yawed_rotation(controller.yaw_axis, d.x as int, old(buffer).rotation);
                &&& r == Result::<FxTransform, CameraError>::Ok(*cam)
                &&& final(buffer).view() == buffer_after(
                    old(buffer).view(),
                    controller.rotation_rate(),
                    dt as int,
                )
                &&& final(buffer).rotation == if can_rotate_pitch_spec(
                    controller.pitch_limit(),
                    d.y as int,
                    cam.rotation,
                    controller.yaw_axis,
                ) {
                    pitched_rotation(y, d.y as int)
                } else {
                    y
                }
            },
        }),
        q_in_lim(final(buffer).rotation, 0x80_0000),
        final(buffer).wf(),
{
    let cam = match camera {
        Some(c) => *c,
        None => {
            return Err(CameraError::MissingEntity);
        },
    };
    match controller.anchor {
        CameraAnchor::Plane { normal } => {
            let d = controller.get_translation_delta(buffer, dt);
            let rej = crate::vec::v3_reject(controller.yaw_axis, normal);
            let crs = crate::vec::v3_cross(controller.yaw_axis, normal);
            proof {
                crate::transform::lemma_norm_zero_iff(rej);
                crate::transform::lemma_norm_zero_iff(crs);
                crate::fixed::lemma_mul_abs_bound(
                    controller.yaw_axis.y as int,
                    normal.z as int,
                    131072,
                    131072,
                );
                crate::fixed::lemma_mul_abs_bound(
                    controller.yaw_axis.z as int,
                    normal.y as int,
                    131072,
                    131072,
                );
                crate::fixed::lemma_mul_abs_bound(
                    controller.yaw_axis.z as int,
                    normal.x as int,
                    131072,
                    131072,
                );
                crate::fixed::lemma_mul_abs_bound(
                    controller.yaw_axis.x as int,
                    normal.z as int,
                    131072,
                    131072,
                );
                crate::fixed::lemma_mul_abs_bound(
                    controller.yaw_axis.x as int,
                    normal.y as int,
                    131072,
                    131072,
                );
                crate::fixed::lemma_mul_abs_bound(
                    controller.yaw_axis.y as int,
                    normal.x as int,
                    131072,
                    131072,
                );
            }
            if (rej.x == 0 && rej.y == 0 && rej.z == 0) || (crs.x == 0 && crs.y == 0 && crs.z
                == 0) {
                return Ok(cam);
            }
            let (ly, _ly_len) = crate::vec::v3_normalize(rej);
            let (lxp, _lx_len) = crate::vec::v3_normalize(crs);
            proof {
                lemma_scale_bound(ly.x as int, d.y as int, SCALE as int);
                lemma_scale_bound(ly.y as int, d.y as int, SCALE as int);
                lemma_scale_bound(ly.z as int, d.y as int, SCALE as int);
                lemma_scale_bound(lxp.x as int, d.x as int, SCALE as int);
                lemma_scale_bound(lxp.y as int, d.x as int, SCALE as int);
                lemma_scale_bound(lxp.z as int, d.x as int, SCALE as int);
            }
            let dy_axis = crate::vec::v3_scale(ly, d.y);
            let dx_axis = crate::vec::v3_scale(lxp, d.x);
            let disp = dy_axis.plus(dx_axis);
            Ok(FxTransform { translation: cam.translation.plus(disp), rotation: cam.rotation })
        },
        _ => {
            let d = controller.get_rotation_delta(buffer, dt);
            let yaw_q = crate::quat::from_axis_angle(controller.yaw_axis, d.x);
            proof {
                crate::quat::lemma_qmul_in_lim(
                    crate::transform::axis_angle_spec(controller.yaw_axis, d.x as int),
                    buffer.rotation,
                    2 * SCALE as int,
                    QUAT_LIM as int,
                    0x20_0000,
                );
            }
            buffer.rotation = crate::quat::quat_mul(yaw_q, buffer.rotation);
            if controller.can_rotate_pitch(d.y, cam.rotation) {
                let px = crate::quat::from_rotation_x(d.y);
                proof {
                    crate::quat::lemma_qmul_in_lim(
                        buffer.rotation,
                        crate::transform::rot_x_spec(d.y as int),
                        0x20_0000,
                        SCALE as int,
                        0x80_0000,
                    );
                }
                buffer.rotation = crate::quat::quat_mul(buffer.rotation, px);
            }
            Ok(cam)
        },
    }
}

/// The target point an anchored camera is held to: the controller's
/// translation plus its rotation applied to the configured offset.
pub open spec fn target_point(ct: FxTransform, offset: FxVec3) -> FxVec3 {
    FxVec3 {
        x: (ct.translation.x + qrot_x(ct.rotation, offset)) as i64,
        y: (ct.translation.y + qrot_y(ct.rotation, offset)) as i64,
        z: (ct.translation.z + qrot_z(ct.rotation, offset)) as i64,
    }
}

/// The camera's distance to a point: the integer square root of the
/// squared separation.
pub open spec fn distance_to(a: FxVec3, b: FxVec3) -> int {
    let d = FxVec3 { x: (a.x - b.x) as i64, y: (a.y - b.y) as i64, z: (a.z - b.z) as i64 };
    isqrt_spec(v3_norm_sq(d))
}

/// The follow distance after one tick: nudged toward the goal by the
/// exponential law under a finite rate, snapped to it otherwise.
pub open spec fn smoothed_distance(cur: int, goal: int, rate: DecayRate, dt: int) -> int {
    match rate {
        DecayRate::Finite(rr) => goal + mul_down(cur - goal, exp_neg_spec(mul_down(rr as int, dt))),
        DecayRate::Infinite => goal,
    }
}

/// A camera placed at the given distance behind the target along the
/// placing rotation's backward axis.
pub open spec fn placed_at(rot: FxQuat, dist: int, tt: FxVec3) -> FxVec3 {
    let dv = FxVec3 { x: 0, y: 0, z: dist as i64 };
    FxVec3 {
        x: (qrot_x(rot, dv) + tt.x) as i64,
        y: (qrot_y(rot, dv) + tt.y) as i64,
        z: (qrot_z(rot, dv) + tt.z) as i64,
    }
}

/// The transform the anchor stage leaves: point and orbit anchors place
/// the camera at their smoothed distance behind the target — the point
/// anchor pulls that distance toward zero, the orbit anchor toward its
/// configured radius, and the orbit anchor places along the accumulated
/// buffer rotation — while the panning anchors leave placement to the
/// consumption stage.
pub open spec fn anchor_step(
    c: CameraController,
    buf_rot: FxQuat,
    ct: FxTransform,
    cam: FxTransform,
    dt: int,
) -> FxTransform {
    match c.anchor {
        CameraAnchor::Point => {
            let tt = target_point(ct, c.offset);
            let dist = smoothed_distance(
                distance_to(cam.translation, tt),
                0,
                c.translation_rate(),
                dt,
            );
            FxTransform { translation: placed_at(cam.rotation, dist, tt), rotation: cam.rotation }
        },
        CameraAnchor::Orbit { distance } => {
            let tt = target_point(ct, c.offset);
            let dist = smoothed_distance(
                distance_to(cam.translation, tt),
                distance as int,
                c.translation_rate(),
                dt,
            );
            FxTransform { translation: placed_at(buf_rot, dist, tt), rotation: cam.rotation }
        },
        _ => cam,
    }
}

/// One component's contribution to a normalized dot product deviates
/// from its scaled exact value by less than one divisor step times the
/// component's weight.
proof fn lemma_comp_dot(d: int, vv: int, nn: int, na: int, len: int) by (nonlinear_arith)
    requires
        len >= 1,
        0 <= na,
        -na <= nn <= na,
        -len < d * len - vv * SCALE,
        d * len - vv * SCALE < len,
    ensures
        -((len - 1) * na) <= (d * nn) * len - (vv * nn) * SCALE,
        (d * nn) * len - (vv * nn) * SCALE <= (len - 1) * na,
{
}

/// Dividing a bounded product back out of a scaled inequality.
proof fn lemma_div_out(x: int, len: int, q: int, rem: int, sum: int) by (nonlinear_arith)
    requires
        len >= 1,
        0 <= rem < len,
        sum >= 0,
        q >= 0,
        -(q * len + rem + (len - 1) * sum) <= x * len,
        x * len <= q * len + rem + (len - 1) * sum,
    ensures
        -(q + sum) <= x <= q + sum,
{
}

/// Bringing a vector to unit scale disturbs its dot product with any
/// other vector by less than one rounding step per component: the dot
/// with `n` after normalization is the scaled-down dot before it, give
/// or take the magnitudes of `n`'s components.
pub proof fn lemma_normalized_dot_bound(v: FxVec3, n: FxVec3, b: int)
    requires
        v3_in_lim(v, 0x8000_0000_0000),
        v3_norm_sq(v) > 0,
        crate::fixed::fx_abs(v3_dot(v, n)) <= b,
        0 <= b,
    ensures
        ({
            let len = isqrt_spec(v3_norm_sq(v));
            crate::fixed::fx_abs(v3_dot(normalized_spec(v), n)) <= (SCALE * b) / len
                + crate::fixed::fx_abs(n.x as int) + crate::fixed::fx_abs(n.y as int)
                + crate::fixed::fx_abs(n.z as int)
        }),
{
    let nsq = v3_norm_sq(v);
    crate::vec::lemma_isqrt_spec_bracket(nsq);
    let len = isqrt_spec(nsq);
    if len == 0 {
        assert((0 + 1) * (0 + 1) == 1) by (nonlinear_arith);
        assert(false);
    }
    assert(crate::fixed::fx_abs(v.x as int) <= len && crate::fixed::fx_abs(v.y as int) <= len
        && crate::fixed::fx_abs(v.z as int) <= len) by (nonlinear_arith)
        requires
            len >= 0,
            v.x * v.x + v.y * v.y + v.z * v.z < (len + 1) * (len + 1),
    ;
    crate::fixed::lemma_div_tz_mul_back(v.x * SCALE, len);
    crate::fixed::lemma_div_tz_mul_back(v.y * SCALE, len);
    crate::fixed::lemma_div_tz_mul_back(v.z * SCALE, len);
    crate::fixed::lemma_div_tz_bounds(v.x * SCALE, len);
    crate::fixed::lemma_div_tz_bounds(v.y * SCALE, len);
    crate::fixed::lemma_div_tz_bounds(v.z * SCALE, len);
    let dx = div_tz(v.x * SCALE, len);
    let dy = div_tz(v.y * SCALE, len);
    let dz = div_tz(v.z * SCALE, len);
    assert(crate::fixed::fx_abs(dx) <= SCALE && crate::fixed::fx_abs(dy) <= SCALE
        && crate::fixed::fx_abs(dz) <= SCALE) by (nonlinear_arith)
        requires
            len >= 1,
            crate::fixed::fx_abs(v.x as int) <= len,
            crate::fixed::fx_abs(v.y as int) <= len,
            crate::fixed::fx_abs(v.z as int) <= len,
            -len < dx * len - v.x * SCALE <= 0 || 0 <= dx * len - v.x * SCALE < len,
            -len < dy * len - v.y * SCALE <= 0 || 0 <= dy * len - v.y * SCALE < len,
            -len < dz * len - v.z * SCALE <= 0 || 0 <= dz * len - v.z * SCALE < len,
            SCALE == 65536,
    ;
    let r = normalized_spec(v);
    assert(r.x == dx && r.y == dy && r.z == dz);
    let sum = crate::fixed::fx_abs(n.x as int) + crate::fixed::fx_abs(n.y as int)
        + crate::fixed::fx_abs(n.z as int);
    lemma_comp_dot(dx, v.x as int, n.x as int, crate::fixed::fx_abs(n.x as int), len);
    lemma_comp_dot(dy, v.y as int, n.y as int, crate::fixed::fx_abs(n.y as int), len);
    lemma_comp_dot(dz, v.z as int, n.z as int, crate::fixed::fx_abs(n.z as int), len);
    assert((dx * n.x + dy * n.y + dz * n.z) * len == (dx * n.x) * len + (dy * n.y) * len + (
    dz * n.z) * len) by (nonlinear_arith);
    assert((v.x * n.x + v.y * n.y + v.z * n.z) * SCALE == (v.x * n.x) * SCALE + (v.y * n.y)
        * SCALE + (v.z * n.z) * SCALE) by (nonlinear_arith);
    assert(-(SCALE * b) <= (v.x * n.x + v.y * n.y + v.z * n.z) * SCALE <= SCALE * b)
        by (nonlinear_arith)
        requires
            -b <= v.x * n.x + v.y * n.y + v.z * n.z <= b,
            SCALE == 65536,
    ;
    assert((len - 1) * sum == (len - 1) * crate::fixed::fx_abs(n.x as int) + (len - 1)
        * crate::fixed::fx_abs(n.y as int) + (len - 1) * crate::fixed::fx_abs(n.z as int))
        by (nonlinear_arith)
        requires
            sum == crate::fixed::fx_abs(n.x as int) + crate::fixed::fx_abs(n.y as int)
                + crate::fixed::fx_abs(n.z as int),
    ;
    assert(-(SCALE * b + (len - 1) * sum) <= v3_dot(r, n) * len <= SCALE * b + (len - 1)
        * sum);
    vstd::arithmetic::div_mod::lemma_fundamental_div_mod(SCALE * b, len);
    vstd::arithmetic::div_mod::lemma_mod_bound(SCALE * b, len);
    vstd::arithmetic::div_mod::lemma_div_pos_is_pos(SCALE * b, len);
    vstd::arithmetic::mul::lemma_mul_is_commutative(len, (SCALE * b) / len);
    lemma_div_out(
        v3_dot(r, n),
        len,
        (SCALE * b) / len,
        (SCALE * b) % len,
        sum,
    );
}

/// Law of the plane anchor's geometry: the lateral in-plane axis — the
/// cross product of the yaw axis and the plane normal — is exactly
/// orthogonal to the normal at product scale, and after normalization
/// its dot with the normal stays within one rounding step per
/// component. Any panning displacement along that axis therefore
/// leaves the plane only by rounding.
pub proof fn lemma_plane_lateral_orthogonal(yaw_axis: FxVec3, normal: FxVec3)
    requires
        v3_in_lim(yaw_axis, 2 * SCALE as int),
        v3_in_lim(normal, 2 * SCALE as int),
    ensures
        ({
            let crs = plane_raw_axes(yaw_axis, normal).1;
            &&& v3_dot(crs, normal) == 0
            &&& v3_norm_sq(crs) > 0 ==> crate::fixed::fx_abs(
                v3_dot(normalized_spec(crs), normal),
            ) <= crate::fixed::fx_abs(normal.x as int) + crate::fixed::fx_abs(normal.y as int)
                + crate::fixed::fx_abs(normal.z as int)
        }),
{
    let crs = plane_raw_axes(yaw_axis, normal).1;
    crate::fixed::lemma_mul_abs_bound(yaw_axis.y as int, normal.z as int, 131072, 131072);
    crate::fixed::lemma_mul_abs_bound(yaw_axis.z as int, normal.y as int, 131072, 131072);
    crate::fixed::lemma_mul_abs_bound(yaw_axis.z as int, normal.x as int, 131072, 131072);
    crate::fixed::lemma_mul_abs_bound(yaw_axis.x as int, normal.z as int, 131072, 131072);
    crate::fixed::lemma_mul_abs_bound(yaw_axis.x as int, normal.y as int, 131072, 131072);
    crate::fixed::lemma_mul_abs_bound(yaw_axis.y as int, normal.x as int, 131072, 131072);
    assert(crs.x == yaw_axis.y * normal.z - yaw_axis.z * normal.y);
    assert(crs.y == yaw_axis.z * normal.x - yaw_axis.x * normal.z);
    assert(crs.z == yaw_axis.x * normal.y - yaw_axis.y * normal.x);
    assert(v3_dot(crs, normal) == 0) by (nonlinear_arith)
        requires
            crs.x == yaw_axis.y * normal.z - yaw_axis.z * normal.y,
            crs.y == yaw_axis.z * normal.x - yaw_axis.x * normal.z,
            crs.z == yaw_axis.x * normal.y - yaw_axis.y * normal.x,
            v3_dot(crs, normal) == crs.x * normal.x + crs.y * normal.y + crs.z * normal.z,
    ;
    if v3_norm_sq(crs) > 0 {
        lemma_normalized_dot_bound(crs, normal, 0);
        let len = isqrt_spec(v3_norm_sq(crs));
        crate::vec::lemma_isqrt_spec_bracket(v3_norm_sq(crs));
        if len >= 1 {
            vstd::arithmetic::div_mod::lemma_div_of0(len);
            assert(SCALE * 0 == 0) by (nonlinear_arith);
        } else {
            assert((0 + 1) * (0 + 1) == 1) by (nonlinear_arith);
            assert(false);
        }
    }
}

/// One component's contribution to the rejection's dot product deviates
/// from its exact value by less than one scale step times the
/// component's weight.
proof fn lemma_rej_comp(g: int, nd: int, nn: int, na: int) by (nonlinear_arith)
    requires
        0 <= na,
        -na <= nn <= na,
        -0x1_0000_0000 < g * 0x1_0000_0000 - nd,
        g * 0x1_0000_0000 - nd < 0x1_0000_0000,
    ensures
        -((0x1_0000_0000 - 1) * na) <= (g * nn) * 0x1_0000_0000 - nd * nn,
        (g * nn) * 0x1_0000_0000 - nd * nn <= (0x1_0000_0000 - 1) * na,
{
}

/// Law of the plane anchor's other axis: the yaw axis rejected from the
/// plane normal is orthogonal to the normal up to two effects, each
/// stated exactly — the normal's own departure from unit length, scaled
/// by the yaw-normal alignment, and one rounding step per component.
/// For a unit normal the first term vanishes and only rounding remains.
pub proof fn lemma_plane_rejection_orthogonal(yaw_axis: FxVec3, normal: FxVec3)
    requires
        v3_in_lim(yaw_axis, 2 * SCALE as int),
        v3_in_lim(normal, 2 * SCALE as int),
    ensures
        ({
            let rej = plane_raw_axes(yaw_axis, normal).0;
            let dd = v3_dot(yaw_axis, normal);
            let slack = crate::fixed::fx_abs(dd) * crate::fixed::fx_abs(
                SCALE * (SCALE as int) - v3_norm_sq(normal),
            ) / (SCALE * (SCALE as int));
            crate::fixed::fx_abs(v3_dot(rej, normal)) <= slack + crate::fixed::fx_abs(
                normal.x as int,
            ) + crate::fixed::fx_abs(normal.y as int) + crate::fixed::fx_abs(normal.z as int)
        }),
{
    let s2: int = 0x1_0000_0000;
    assert(SCALE * (SCALE as int) == s2) by (nonlinear_arith)
        requires
            SCALE == 65536,
            s2 == 0x1_0000_0000,
    ;
    let dd = v3_dot(yaw_axis, normal);
    crate::fixed::lemma_mul_abs_bound(yaw_axis.x as int, normal.x as int, 131072, 131072);
    crate::fixed::lemma_mul_abs_bound(yaw_axis.y as int, normal.y as int, 131072, 131072);
    crate::fixed::lemma_mul_abs_bound(yaw_axis.z as int, normal.z as int, 131072, 131072);
    crate::fixed::lemma_mul_abs_bound(normal.x as int, dd, 131072, 0xC_0000_0000);
    crate::fixed::lemma_mul_abs_bound(normal.y as int, dd, 131072, 0xC_0000_0000);
    crate::fixed::lemma_mul_abs_bound(normal.z as int, dd, 131072, 0xC_0000_0000);
    let gx = div_tz(normal.x * dd, s2);
    let gy = div_tz(normal.y * dd, s2);
    let gz = div_tz(normal.z * dd, s2);
    crate::fixed::lemma_div_tz_mul_back(normal.x * dd, s2);
    crate::fixed::lemma_div_tz_mul_back(normal.y * dd, s2);
    crate::fixed::lemma_div_tz_mul_back(normal.z * dd, s2);
    crate::fixed::lemma_div_tz_bounds(normal.x * dd, s2);
    crate::fixed::lemma_div_tz_bounds(normal.y * dd, s2);
    crate::fixed::lemma_div_tz_bounds(normal.z * dd, s2);
    let rej = plane_raw_axes(yaw_axis, normal).0;
    assert(rej.x == yaw_axis.x - gx && rej.y == yaw_axis.y - gy && rej.z == yaw_axis.z - gz);
    lemma_rej_comp(gx, normal.x * dd, normal.x as int, crate::fixed::fx_abs(normal.x as int));
    lemma_rej_comp(gy, normal.y * dd, normal.y as int, crate::fixed::fx_abs(normal.y as int));
    lemma_rej_comp(gz, normal.z * dd, normal.z as int, crate::fixed::fx_abs(normal.z as int));
    let sum = crate::fixed::fx_abs(normal.x as int) + crate::fixed::fx_abs(normal.y as int)
        + crate::fixed::fx_abs(normal.z as int);
    assert((gx * normal.x + gy * normal.y + gz * normal.z) * s2 == (gx * normal.x) * s2 + (gy
        * normal.y) * s2 + (gz * normal.z) * s2) by (nonlinear_arith);
    assert((normal.x * dd) * normal.x + (normal.y * dd) * normal.y + (normal.z * dd) * normal.z
        == dd * v3_norm_sq(normal)) by (nonlinear_arith)
        requires
            v3_norm_sq(normal) == normal.x * normal.x + normal.y * normal.y + normal.z
                * normal.z,
    ;
    assert((s2 - 1) * sum == (s2 - 1) * crate::fixed::fx_abs(normal.x as int) + (s2 - 1)
        * crate::fixed::fx_abs(normal.y as int) + (s2 - 1) * crate::fixed::fx_abs(
        normal.z as int,
    )) by (nonlinear_arith)
        requires
            sum == crate::fixed::fx_abs(normal.x as int) + crate::fixed::fx_abs(
                normal.y as int,
            ) + crate::fixed::fx_abs(normal.z as int),
    ;
    let gsum = gx * normal.x + gy * normal.y + gz * normal.z;
    assert(-((s2 - 1) * sum) <= gsum * s2 - dd * v3_norm_sq(normal) <= (s2 - 1) * sum);
    let slackn = crate::fixed::fx_abs(dd) * crate::fixed::fx_abs(s2 - v3_norm_sq(normal));
    assert(-slackn <= dd * s2 - dd * v3_norm_sq(normal) <= slackn) by (nonlinear_arith)
        requires
            slackn == crate::fixed::fx_abs(dd) * crate::fixed::fx_abs(
                s2 - v3_norm_sq(normal),
            ),
    ;
    assert(v3_dot(rej, normal) == dd - gsum) by (nonlinear_arith)
        requires
            rej.x == yaw_axis.x - gx,
            rej.y == yaw_axis.y - gy,
            rej.z == yaw_axis.z - gz,
            v3_dot(rej, normal) == rej.x * normal.x + rej.y * normal.y + rej.z * normal.z,
            dd == yaw_axis.x * normal.x + yaw_axis.y * normal.y + yaw_axis.z * normal.z,
            gsum == gx * normal.x + gy * normal.y + gz * normal.z,
    ;
    assert((dd - gsum) * s2 == dd * s2 - gsum * s2) by (nonlinear_arith);
    vstd::arithmetic::div_mod::lemma_fundamental_div_mod(slackn, s2);
    vstd::arithmetic::div_mod::lemma_mod_bound(slackn, s2);
    vstd::arithmetic::div_mod::lemma_div_pos_is_pos(slackn, s2);
    vstd::arithmetic::mul::lemma_mul_is_commutative(s2, slackn / s2);
    assert(slackn >= 0) by (nonlinear_arith)
        requires
            slackn == crate::fixed::fx_abs(dd) * crate::fixed::fx_abs(
                s2 - v3_norm_sq(normal),
            ),
    ;
    lemma_div_out(dd - gsum, s2, slackn / s2, slackn % s2, sum);
}

/// Law of the plane anchor, both axes together: after normalization,
/// each in-plane axis meets the configured normal at a dot product
/// bounded by rounding alone for the lateral axis, and by rounding plus
/// the normal's own departure from unit length for the rejected axis.
/// The displacement — any combination of the two axes — therefore
/// leaves the plane only within those tolerances.
pub proof fn lemma_plane_axes_orthogonal(yaw_axis: FxVec3, normal: FxVec3)
    requires
        v3_in_lim(yaw_axis, 2 * SCALE as int),
        v3_in_lim(normal, 2 * SCALE as int),
    ensures
        ({
            let (rej, crs) = plane_raw_axes(yaw_axis, normal);
            let sum = crate::fixed::fx_abs(normal.x as int) + crate::fixed::fx_abs(
                normal.y as int,
            ) + crate::fixed::fx_abs(normal.z as int);
            let slack = crate::fixed::fx_abs(v3_dot(yaw_axis, normal)) * crate::fixed::fx_abs(
                SCALE * (SCALE as int) - v3_norm_sq(normal),
            ) / (SCALE * (SCALE as int));
            &&& (v3_norm_sq(crs) > 0 ==> crate::fixed::fx_abs(
                v3_dot(normalized_spec(crs), normal),
            ) <= sum)
            &&& (v3_norm_sq(rej) > 0 ==> crate::fixed::fx_abs(
                v3_dot(normalized_spec(rej), normal),
            ) <= (SCALE * (slack + sum)) / isqrt_spec(v3_norm_sq(rej)) + sum)
        }),
{
    lemma_plane_lateral_orthogonal(yaw_axis, normal);
    lemma_plane_rejection_orthogonal(yaw_axis, normal);
    let (rej, crs) = plane_raw_axes(yaw_axis, normal);
    let sum = crate::fixed::fx_abs(normal.x as int) + crate::fixed::fx_abs(normal.y as int)
        + crate::fixed::fx_abs(normal.z as int);
    let slack = crate::fixed::fx_abs(v3_dot(yaw_axis, normal)) * crate::fixed::fx_abs(
        SCALE * (SCALE as int) - v3_norm_sq(normal),
    ) / (SCALE * (SCALE as int));
    if v3_norm_sq(rej) > 0 {
        let dd = v3_dot(yaw_axis, normal);
        crate::fixed::lemma_mul_abs_bound(yaw_axis.x as int, normal.x as int, 131072, 131072);
        crate::fixed::lemma_mul_abs_bound(yaw_axis.y as int, normal.y as int, 131072, 131072);
        crate::fixed::lemma_mul_abs_bound(yaw_axis.z as int, normal.z as int, 131072, 131072);
        crate::fixed::lemma_mul_abs_bound(normal.x as int, dd, 131072, 0xC_0000_0000);
        crate::fixed::lemma_mul_abs_bound(normal.y as int, dd, 131072, 0xC_0000_0000);
        crate::fixed::lemma_mul_abs_bound(normal.z as int, dd, 131072, 0xC_0000_0000);
        crate::fixed::lemma_div_tz_bounds(normal.x * dd, 0x1_0000_0000);
        crate::fixed::lemma_div_tz_bounds(normal.y * dd, 0x1_0000_0000);
        crate::fixed::lemma_div_tz_bounds(normal.z * dd, 0x1_0000_0000);
        vstd::arithmetic::div_mod::lemma_div_is_ordered(
            crate::fixed::fx_abs(normal.x * dd),
            0x18_0000_0000_0000,
            0x1_0000_0000,
        );
        vstd::arithmetic::div_mod::lemma_div_is_ordered(
            crate::fixed::fx_abs(normal.y * dd),
            0x18_0000_0000_0000,
            0x1_0000_0000,
        );
        vstd::arithmetic::div_mod::lemma_div_is_ordered(
            crate::fixed::fx_abs(normal.z * dd),
            0x18_0000_0000_0000,
            0x1_0000_0000,
        );
        lemma_normalized_dot_bound(rej, normal, slack + sum);
    }
}

/// Law of the follow distance: under a snap rate the camera's distance
/// to the target reaches the goal in a single tick; under a finite rate
/// a tick replaces the residue `cur - goal` by its decayed fraction, so
/// the residue never grows and never changes sign — no overshoot — and
/// once `rate * dt` amounts to at least one raw step, iterating the
/// tick brings the distance to exactly the goal within `|cur - goal|`
/// ticks.
pub proof fn lemma_follow_converges(cur: int, goal: int, rate: DecayRate, dt: int, n: nat)
    requires
        in_lim(cur, FX_LIM as int),
        in_lim(goal, FX_LIM as int),
        crate::controller::rate_wf(rate),
        0 <= dt <= DT_LIM,
    ensures
        rate is Infinite ==> smoothed_distance(cur, goal, rate, dt) == goal,
        (rate matches DecayRate::Finite(rr) ==> ({
            let q = crate::smooth::exp_neg_spec(mul_down(rr as int, dt));
            &&& smoothed_distance(cur, goal, rate, dt) == goal + mul_down(cur - goal, q)
            &&& crate::fixed::fx_abs(smoothed_distance(cur, goal, rate, dt) - goal)
                <= crate::fixed::fx_abs(cur - goal)
            &&& cur >= goal ==> goal <= smoothed_distance(cur, goal, rate, dt) <= cur
            &&& cur <= goal ==> cur <= smoothed_distance(cur, goal, rate, dt) <= goal
            &&& (rr * dt >= SCALE && n >= crate::fixed::fx_abs(cur - goal))
                ==> goal + crate::fixed::iter_scale(cur - goal, q, n) == goal
        })),
{
    match rate {
        DecayRate::Finite(rr) => {
            crate::fixed::lemma_mul_abs_bound(rr as int, dt, 0x1_0000_0000, 0x1000_0000);
            crate::fixed::lemma_div_tz_bounds(rr * dt, SCALE as int);
            vstd::arithmetic::mul::lemma_mul_nonnegative(rr as int, dt);
            let x = mul_down(rr as int, dt);
            crate::smooth::lemma_exp_neg_range(x);
            let q = crate::smooth::exp_neg_spec(x);
            crate::fixed::lemma_mul_down_fraction(cur - goal, q);
            if rr * dt >= SCALE {
                vstd::arithmetic::div_mod::lemma_div_is_ordered(
                    SCALE as int,
                    rr * dt,
                    SCALE as int,
                );
                crate::fixed::lemma_iter_scale_drains(cur - goal, q, n);
            }
        },
        DecayRate::Infinite => {
        },
    }
}

/// Whether the view stage must resolve a look-at target this tick: a
/// target view asks for one, except under the plane anchor, whose
/// panning defines its own motion and skips the look-at.
pub open spec fn needs_target(c: CameraController) -> bool {
    c.view is Target && !(c.anchor is Plane)
}

/// Writes one controller's camera transform for this tick: the anchor
/// stage places the camera, then the view stage orients it — from the
/// accumulated buffer rotation under the free view, by a look-at toward
/// the target entity under the target view. A missing camera,
/// controller, or needed target entity skips the controller with no
/// partial write.
pub fn update_camera(
    controller: &CameraController,
    buffer: &CameraBuffer,
    controller_transform: Option<&FxTransform>,
    camera: Option<&FxTransform>,
    target: Option<&FxTransform>,
    dt: i64,
) -> (r: Result<FxTransform, CameraError>)
    requires
        controller.wf(),
        q_in_lim(buffer.rotation, 0x80_0000),
        (controller_transform matches Some(t) ==> v3_in_lim(t.translation, COORD_LIM as int)
            && q_in_lim(t.rotation, QUAT_LIM as int)),
        (camera matches Some(t) ==> v3_in_lim(t.translation, COORD_LIM as int) && q_in_lim(
            t.rotation,
            QUAT_LIM as int,
        )),
        (target matches Some(t) ==> v3_in_lim(t.translation, COORD_LIM as int)),
        0 <= dt <= DT_LIM,
    ensures
        camera is None || controller_transform is None ==> r == Result::<
            FxTransform,
            CameraError,
        >::Err(CameraError::MissingEntity),
        (camera matches Some(cam) ==> (controller_transform matches Some(ct) ==> ({
            let mid = anchor_step(*controller, buffer.rotation, *ct, *cam, dt as int);
            &&& (controller.view is Free ==> r == Result::<FxTransform, CameraError>::Ok(
                FxTransform { translation: mid.translation, rotation: buffer.rotation },
            ))
            &&& (controller.view is Target && controller.anchor is Plane ==> r == Result::<
                FxTransform,
                CameraError,
            >::Ok(mid))
            &&& (needs_target(*controller) && target is None ==> r == Result::<
                FxTransform,
                CameraError,
            >::Err(CameraError::MissingEntity))
            &&& (needs_target(*controller) ==> (target matches Some(tg) ==> r == Result::<
                FxTransform,
                CameraError,
            >::Ok(
                FxTransform {
                    translation: mid.translation,
                    rotation: look_at_spec(mid, tg.translation, controller.yaw_axis),
                },
            )))
        }))),
{
    let cam = match camera {
        Some(c) => *c,
        None => {
            return Err(CameraError::MissingEntity);
        },
    };
    let ct = match controller_transform {
        Some(c) => *c,
        None => {
            return Err(CameraError::MissingEntity);
        },
    };
    let mid = match controller.anchor {
        CameraAnchor::Point => {
            let tt = resolve_target_point(&ct, controller.offset);
            let dist = smoothed_follow_distance(
                controller.get_translation_decay_rate(),
                cam.translation,
                tt,
                0,
                dt,
            );
            proof {
                crate::quat::lemma_qrot_in_lim(
                    cam.rotation,
                    (FxVec3 { x: 0, y: 0, z: dist }),
                    QUAT_LIM as int,
                    0x20_0000_0000,
                    FX_LIM as int,
                );
            }
            let pv = crate::quat::quat_rotate(cam.rotation, FxVec3 { x: 0, y: 0, z: dist });
            FxTransform { translation: pv.plus(tt), rotation: cam.rotation }
        },
        CameraAnchor::Orbit { distance } => {
            let tt = resolve_target_point(&ct, controller.offset);
            let dist = smoothed_follow_distance(
                controller.get_translation_decay_rate(),
                cam.translation,
                tt,
                distance,
                dt,
            );
            proof {
                crate::quat::lemma_qrot_in_lim(
                    buffer.rotation,
                    (FxVec3 { x: 0, y: 0, z: dist }),
                    0x80_0000,
                    0x20_0000_0000,
                    0x80_0000_0000_0000,
                );
            }
            let pv = crate::quat::quat_rotate(buffer.rotation, FxVec3 { x: 0, y: 0, z: dist });
            FxTransform { translation: pv.plus(tt), rotation: cam.rotation }
        },
        _ => cam,
    };
    match controller.view {
        CameraView::Free => Ok(
            FxTransform { translation: mid.translation, rotation: buffer.rotation },
        ),
        CameraView::Target(_) => {
            if matches!(controller.anchor, CameraAnchor::Plane { .. }) {
                Ok(mid)
            } else {
                match target {
                    None => Err(CameraError::MissingEntity),
                    Some(tg) => Ok(mid.look_at(tg.translation, controller.yaw_axis)),
                }
            }
        },
    }
}

/// The target point the anchors hold the camera to, with its range
/// established.
pub fn resolve_target_point(ct: &FxTransform, offset: FxVec3) -> (tt: FxVec3)
    requires
        v3_in_lim(ct.translation, COORD_LIM as int),
        q_in_lim(ct.rotation, QUAT_LIM as int),
        v3_in_lim(offset, 0x400_0000),
    ensures
        tt == target_point(*ct, offset),
        v3_in_lim(tt, 0x8_0000_0000),
{
    proof {
        crate::quat::lemma_qrot_in_lim(
            ct.rotation,
            offset,
            QUAT_LIM as int,
            0x400_0000,
            0x4_0000_0000,
        );
    }
    let lo = crate::quat::quat_rotate(ct.rotation, offset);
    ct.translation.plus(lo)
}

/// The distance the camera is held at this tick: the current separation
/// from the target point, smoothed toward the goal.
pub fn smoothed_follow_distance(
    rate: DecayRate,
    cam_translation: FxVec3,
    tt: FxVec3,
    goal: i64,
    dt: i64,
) -> (dist: i64)
    requires
        crate::controller::rate_wf(rate),
        v3_in_lim(cam_translation, COORD_LIM as int),
        v3_in_lim(tt, 0x8_0000_0000),
        0 <= goal <= COORD_LIM,
        0 <= dt <= DT_LIM,
    ensures
        dist == smoothed_distance(distance_to(cam_translation, tt), goal as int, rate, dt as int),
        in_lim(dist as int, 0x20_0000_0000),
{
    match rate {
        DecayRate::Finite(rr) => {
            let cur = crate::vec::v3_distance(cam_translation, tt);
            proof {
                let d = FxVec3 {
                    x: (cam_translation.x - tt.x) as i64,
                    y: (cam_translation.y - tt.y) as i64,
                    z: (cam_translation.z - tt.z) as i64,
                };
                assert(v3_norm_sq(d) <= 0x12C_0000_0000_0000_0000) by (nonlinear_arith)
                    requires
                        v3_in_lim(d, 0xA_0000_0000),
                        v3_norm_sq(d) == d.x * d.x + d.y * d.y + d.z * d.z,
                ;
                assert((cur as int) < 0x20_0000_0000) by (nonlinear_arith)
                    requires
                        cur >= 0,
                        (cur as int) * (cur as int) <= 0x12C_0000_0000_0000_0000,
                ;
            }
            let next = nudge(cur, goal, rr, dt);
            next
        },
        DecayRate::Infinite => goal,
    }
}

/// A product with a unit-scale factor keeps the scale-product within the
/// multiplication range.
proof fn lemma_scale_bound(a: int, d: int, la: int)
    requires
        -la <= a <= la,
        0 <= la <= 0x1000_0000,
        in_lim(d, 0x4_0000_0000),
    ensures
        in_lim(a * d, 0x4000_0000_0000_0000),
        in_lim(mul_down(a, d), 0x4000_0000_0000_0000),
{
    crate::fixed::lemma_mul_abs_bound(a, d, la, 0x4_0000_0000);
    crate::fixed::lemma_div_tz_bounds(a * d, SCALE as int);
    vstd::arithmetic::div_mod::lemma_div_is_ordered(
        crate::fixed::fx_abs(a * d),
        0x4000_0000_0000_0000,
        SCALE as int,
    );
}

} // verus!
