//! The three-axis camera controller: free look with pitch limiting,
//! first-person and follow views, and the obstruction-aware follow
//! distance.
//!
//! The follow view's placement is split in two: the resolution step
//! computes the desired distance and hands back the ray the host may
//! cast against its scene; resolving the optional hit finishes the
//! placement. A host without a ray-cast capability resolves with no
//! hit and gets the unobstructed placement.

use vstd::prelude::*;

verus! {

use crate::fixed::SCALE;
use crate::fixed::FX_LIM;
use crate::fixed::RATE_LIM;
use crate::fixed::DT_LIM;
use crate::fixed::SENS_LIM;
use crate::fixed::DELTA_LIM;
use crate::fixed::in_lim;
use crate::fixed::mul_down;
use crate::fixed::div_fx_spec;
use crate::fixed::div_tz;
use crate::fixed::fx_mul;
use crate::vec::FxVec2;
use crate::vec::FxVec3;
use crate::vec::v2_in_lim;
use crate::vec::v3_in_lim;
use crate::vec::COORD_LIM;
use crate::quat::FxQuat;
use crate::quat::QUAT_LIM;
use crate::quat::q_in_lim;
use crate::quat::quat_mul;
use crate::quat::quat_rotate;
use crate::quat::from_rotation_x;
use crate::quat::qrot_x;
use crate::quat::qrot_y;
use crate::quat::qrot_z;
use crate::controller::DecayRate;
use crate::controller::rate_wf;
use crate::controller::can_rotate_pitch_spec;
use crate::input::DeltaBuffer;
use crate::transform::FxTransform;
use crate::transform::unit_z;
use crate::tick::CameraError;
use crate::tick::scaled_delta;
use crate::tick::buffer_after;
use crate::tick::yawed_rotation;
use crate::tick::pitched_rotation;
use crate::tick::target_point;
use crate::tick::distance_to;
use crate::tick::smoothed_distance;
use crate::tick::placed_at;
use crate::tick::resolve_target_point;
use crate::tick::smoothed_follow_distance;

/// How the three-axis camera views its target.
#[derive(Clone, Copy, PartialEq, Eq, Structural, Debug)]
pub enum CameraView3d {
    /// Disables influence over the camera; another system drives it.
    Manual,
    /// First person: the camera pulled onto the target point.
    Perspective,
    /// The camera follows the target from the given distance, shortened
    /// when scene geometry obstructs the view by at least the back
    /// margin.
    Follow { distance: i64, back_distance: i64 },
}

/// A follow radius and back margin stay within the coordinate range.
pub open spec fn view3d_wf(v: CameraView3d) -> bool {
    match v {
        CameraView3d::Follow { distance, back_distance } => 0 <= distance <= COORD_LIM && 0
            <= back_distance <= COORD_LIM,
        _ => true,
    }
}

/// A camera controller for three-axis control.
pub struct CameraController3d {
    /// Handle of the camera entity being driven.
    pub camera: u64,
    /// View configuration for the camera.
    pub view: CameraView3d,
    /// Multiplier applied to all consumed input.
    pub sensitivity: i64,
    /// World-space offset from the target position.
    pub offset: FxVec3,
    /// Rate at which translation decays with smooth interpolation.
    pub translation_decay_rate: DecayRate,
    /// Rate at which rotation decays with smooth interpolation.
    pub rotation_decay_rate: DecayRate,
    /// World-space axis around which yaw rotation occurs.
    pub yaw_axis: FxVec3,
    /// Optional pitch limit, stored as the cosine of half the range.
    pub pitch_range: Option<i64>,
}

impl CameraController3d {
    /// The configuration stays within the ranges the resolution step
    /// accepts.
    pub open spec fn wf(&self) -> bool {
        &&& rate_wf(self.translation_decay_rate)
        &&& rate_wf(self.rotation_decay_rate)
        &&& 0 <= self.sensitivity <= SENS_LIM
        &&& v3_in_lim(self.offset, 0x400_0000)
        &&& v3_in_lim(self.yaw_axis, 2 * SCALE as int)
        &&& match self.pitch_range {
            Some(l) => in_lim(l as int, SCALE as int),
            None => true,
        }
        &&& view3d_wf(self.view)
    }

    /// Creates a controller with default settings: unit sensitivity, no
    /// offset, no smoothing (instant movement), yaw around the world
    /// `y` axis, and no pitch limits.
    pub fn new(camera: u64, view: CameraView3d) -> (r: Self)
        requires
            view3d_wf(view),
        ensures
            r.camera == camera,
            r.view == view,
            r.sensitivity == SCALE,
            r.offset.x == 0 && r.offset.y == 0 && r.offset.z == 0,
            r.translation_decay_rate == DecayRate::Infinite,
            r.rotation_decay_rate == DecayRate::Infinite,
            r.yaw_axis.x == 0 && r.yaw_axis.y == SCALE && r.yaw_axis.z == 0,
            r.pitch_range is None,
            r.wf(),
    {
        CameraController3d {
            camera,
            view,
            sensitivity: SCALE,
            offset: FxVec3::zero(),
            translation_decay_rate: DecayRate::Infinite,
            rotation_decay_rate: DecayRate::Infinite,
            yaw_axis: FxVec3 { x: 0, y: SCALE, z: 0 },
            pitch_range: None,
        }
    }

    /// Sets the sensitivity multiplier for all movement.
    pub fn with_sensitivity(self, sensitivity: i64) -> (r: Self)
        requires
            0 <= sensitivity <= SENS_LIM,
        ensures
            r == (CameraController3d { sensitivity, ..self }),
            self.wf() ==> r.wf(),
    {
        CameraController3d { sensitivity, ..self }
    }

    /// Sets the world-space offset from the target position.
    pub fn with_offset(self, offset: FxVec3) -> (r: Self)
        requires
            v3_in_lim(offset, 0x400_0000),
        ensures
            r == (CameraController3d { offset, ..self }),
            self.wf() ==> r.wf(),
    {
        CameraController3d { offset, ..self }
    }

    /// Sets the smoothing factor for both translation and rotation.
    pub fn with_smoothing(self, smoothing: i64) -> (r: Self)
        requires
            0 < smoothing <= RATE_LIM,
        ensures
            r.translation_decay_rate == DecayRate::Finite(
                div_fx_spec(SCALE as int, smoothing as int) as i64,
            ),
            r.rotation_decay_rate == r.translation_decay_rate,
            r.camera == self.camera && r.view == self.view && r.sensitivity
                == self.sensitivity && r.offset == self.offset && r.yaw_axis == self.yaw_axis
                && r.pitch_range == self.pitch_range,
            self.wf() ==> r.wf(),
    {
        let decay_rate = crate::smooth::reciprocal_rate(smoothing);
        CameraController3d {
            translation_decay_rate: DecayRate::Finite(decay_rate),
            rotation_decay_rate: DecayRate::Finite(decay_rate),
            ..self
        }
    }

    /// Sets the smoothing factor for translation only.
    pub fn with_translation_smoothing(self, smoothing: i64) -> (r: Self)
        requires
            0 < smoothing <= RATE_LIM,
        ensures
            r.translation_decay_rate == DecayRate::Finite(
                div_fx_spec(SCALE as int, smoothing as int) as i64,
            ),
            r.rotation_decay_rate == self.rotation_decay_rate,
            r.camera == self.camera && r.view == self.view && r.sensitivity
                == self.sensitivity && r.offset == self.offset && r.yaw_axis == self.yaw_axis
                && r.pitch_range == self.pitch_range,
            self.wf() ==> r.wf(),
    {
        let decay_rate = crate::smooth::reciprocal_rate(smoothing);
        CameraController3d { translation_decay_rate: DecayRate::Finite(decay_rate), ..self }
    }

    /// Sets the smoothing factor for rotation only.
    pub fn with_rotation_smoothing(self, smoothing: i64) -> (r: Self)
        requires
            0 < smoothing <= RATE_LIM,
        ensures
            r.rotation_decay_rate == DecayRate::Finite(
                div_fx_spec(SCALE as int, smoothing as int) as i64,
            ),
            r.translation_decay_rate == self.translation_decay_rate,
            r.camera == self.camera && r.view == self.view && r.sensitivity
                == self.sensitivity && r.offset == self.offset && r.yaw_axis == self.yaw_axis
                && r.pitch_range == self.pitch_range,
            self.wf() ==> r.wf(),
    {
        let decay_rate = crate::smooth::reciprocal_rate(smoothing);
        CameraController3d { rotation_decay_rate: DecayRate::Finite(decay_rate), ..self }
    }

    /// Sets the world-space axis for yaw rotation.
    pub fn with_yaw_axis(self, yaw_axis: FxVec3) -> (r: Self)
        requires
            v3_in_lim(yaw_axis, 2 * SCALE as int),
        ensures
            r == (CameraController3d { yaw_axis, ..self }),
            self.wf() ==> r.wf(),
    {
        CameraController3d { yaw_axis, ..self }
    }

    /// Sets the maximum pitch angle from horizontal: the cosine of half
    /// the range is stored for a cheap comparison each tick.
    pub fn with_pitch_range(self, pitch_range: i64) -> (r: Self)
        requires
            in_lim(pitch_range as int, FX_LIM as int),
        ensures
            r.pitch_range == Some(crate::trig::cos_spec(div_tz(pitch_range as int, 2)) as i64),
            r.camera == self.camera && r.view == self.view && r.sensitivity
                == self.sensitivity && r.offset == self.offset && r.yaw_axis == self.yaw_axis
                && r.translation_decay_rate == self.translation_decay_rate
                && r.rotation_decay_rate == self.rotation_decay_rate,
            self.wf() ==> r.wf(),
    {
        proof {
            crate::fixed::lemma_div_tz_bounds(pitch_range as int, 2);
        }
        let half = crate::fixed::mul_div_tz(pitch_range, 1, 2);
        let c = crate::trig::cos_fx(half);
        CameraController3d { pitch_range: Some(c), ..self }
    }

    /// Consumes this tick's rotation input: the decayed share of the
    /// buffer under a finite rotation rate, the whole buffer under a
    /// snap, scaled by the sensitivity either way.
    pub fn get_rotation_delta(&self, delta_buffer: &mut DeltaBuffer, dt: i64) -> (r: FxVec2)
        requires
            self.wf(),
            old(delta_buffer).wf(),
            v2_in_lim(old(delta_buffer).view(), DELTA_LIM as int),
            0 <= dt <= DT_LIM,
        ensures
            r == scaled_delta(
                old(delta_buffer).view(),
                self.rotation_decay_rate,
                dt as int,
                self.sensitivity as int,
            ),
            final(delta_buffer).view() == buffer_after(
                old(delta_buffer).view(),
                self.rotation_decay_rate,
                dt as int,
            ),
            final(delta_buffer).wf(),
            v2_in_lim(r, 0x4_0000_0000),
    {
        let consumed = match self.rotation_decay_rate {
            DecayRate::Finite(rate) => delta_buffer.decay(rate, dt),
            DecayRate::Infinite => delta_buffer.take(),
        };
        proof {
            lemma_scaled3d(consumed.x as int, self.sensitivity as int);
            lemma_scaled3d(consumed.y as int, self.sensitivity as int);
        }
        FxVec2 { x: fx_mul(consumed.x, self.sensitivity), y: fx_mul(consumed.y, self.sensitivity) }
    }

    /// Consumes this tick's translation input, by the same law under the
    /// translation rate.
    pub fn get_translation_delta(&mut self, delta_buffer: &mut DeltaBuffer, dt: i64) -> (r: FxVec2)
        requires
            old(self).wf(),
            old(delta_buffer).wf(),
            v2_in_lim(old(delta_buffer).view(), DELTA_LIM as int),
            0 <= dt <= DT_LIM,
        ensures
            *final(self) == *old(self),
            r == scaled_delta(
                old(delta_buffer).view(),
                old(self).translation_decay_rate,
                dt as int,
                old(self).sensitivity as int,
            ),
            final(delta_buffer).view() == buffer_after(
                old(delta_buffer).view(),
                old(self).translation_decay_rate,
                dt as int,
            ),
            final(delta_buffer).wf(),
            v2_in_lim(r, 0x4_0000_0000),
    {
        let consumed = match self.translation_decay_rate {
            DecayRate::Finite(rate) => delta_buffer.decay(rate, dt),
            DecayRate::Infinite => delta_buffer.take(),
        };
        proof {
            lemma_scaled3d(consumed.x as int, self.sensitivity as int);
            lemma_scaled3d(consumed.y as int, self.sensitivity as int);
        }
        FxVec2 { x: fx_mul(consumed.x, self.sensitivity), y: fx_mul(consumed.y, self.sensitivity) }
    }

    /// Checks whether applying `pitch` about the camera's local lateral
    /// axis would keep the camera's up vector aligned closely enough
    /// with the yaw axis; accepts everything when no range is set.
    pub fn can_rotate_pitch(&self, pitch: i64, rotation: FxQuat) -> (r: bool)
        requires
            self.wf(),
            in_lim(pitch as int, FX_LIM as int),
            q_in_lim(rotation, 0x20_0000),
        ensures
            r == can_rotate_pitch_spec(
                self.pitch_range,
                pitch as int,
                rotation,
                self.yaw_axis,
            ),
            self.pitch_range is None ==> r,
    {
        match self.pitch_range {
            Some(limit) => {
                let pitch_quat = from_rotation_x(pitch);
                proof {
                    crate::quat::lemma_qmul_in_lim(
                        rotation,
                        crate::transform::rot_x_spec(pitch as int),
                        0x20_0000,
                        SCALE as int,
                        0x80_0000,
                    );
                }
                let hypothetical = quat_mul(rotation, pitch_quat);
                proof {
                    crate::quat::lemma_qrot_in_lim(
                        hypothetical,
                        (FxVec3 { x: 0, y: SCALE, z: 0 }),
                        0x80_0000,
                        SCALE as int,
                        0x4_0000_0000,
                    );
                }
                let up = quat_rotate(hypothetical, FxVec3 { x: 0, y: SCALE, z: 0 });
                proof {
                    crate::fixed::lemma_mul_abs_bound(
                        up.x as int,
                        self.yaw_axis.x as int,
                        0x4_0000_0000,
                        131072,
                    );
                    crate::fixed::lemma_mul_abs_bound(
                        up.y as int,
                        self.yaw_axis.y as int,
                        0x4_0000_0000,
                        131072,
                    );
                    crate::fixed::lemma_mul_abs_bound(
                        up.z as int,
                        self.yaw_axis.z as int,
                        0x4_0000_0000,
                        131072,
                    );
                }
                let alignment: i128 = (up.x as i128) * (self.yaw_axis.x as i128) + (
                up.y as i128) * (self.yaw_axis.y as i128) + (up.z as i128) * (
                self.yaw_axis.z as i128);
                alignment >= (limit as i128) * (SCALE as i128)
            },
            None => true,
        }
    }
}

/// The orientation after this tick's free-look increments: yaw about
/// the world axis, then pitch about the local lateral axis if the
/// limiter accepts it against the yawed orientation.
pub open spec fn rotated3d(c: CameraController3d, cam_rot: FxQuat, d: FxVec2) -> FxQuat {
    let y = yawed_rotation(c.yaw_axis, d.x as int, cam_rot);
    if can_rotate_pitch_spec(c.pitch_range, d.y as int, y, c.yaw_axis) {
        pitched_rotation(y, d.y as int)
    } else {
        y
    }
}

/// The first-person translation: pulled onto the target point, smoothly
/// under a finite rate — placed at the smoothed remaining distance
/// behind the target along the new orientation — and snapped exactly
/// onto it otherwise.
pub open spec fn perspective_translation(
    c: CameraController3d,
    cam: FxTransform,
    ct: FxTransform,
    new_rot: FxQuat,
    dt: int,
) -> FxVec3 {
    let tt = target_point(ct, c.offset);
    match c.translation_decay_rate {
        DecayRate::Finite(_) => placed_at(
            new_rot,
            smoothed_distance(
                distance_to(cam.translation, tt),
                0,
                c.translation_decay_rate,
                dt,
            ),
            tt,
        ),
        DecayRate::Infinite => tt,
    }
}

/// The follow distance an obstruction hit leaves: the desired distance
/// clamped to the hit, less the back margin; no hit leaves it as is.
pub open spec fn obstructed_distance(desired: int, back: int, hit: Option<i64>) -> int {
    match hit {
        Some(h) => (if desired < 0 {
            0
        } else if desired > h {
            h as int
        } else {
            desired
        }) - back,
        None => desired,
    }
}

/// One step of three-axis resolution: either a fully placed transform,
/// or a follow placement waiting on the host's obstruction ray.
#[derive(Clone, Copy, PartialEq, Eq, Structural, Debug)]
pub enum Camera3dStep {
    /// The camera transform for this tick, ready to write.
    Placed { transform: FxTransform },
    /// A follow placement awaiting an obstruction query: cast a ray
    /// from `ray_origin` along `ray_direction` up to `ray_length`,
    /// excluding the controller's own entity, then resolve with the hit
    /// distance, if any.
    NeedsRay {
        rotation: FxQuat,
        target_translation: FxVec3,
        desired_distance: i64,
        back_distance: i64,
        ray_origin: FxVec3,
        ray_direction: FxVec3,
        ray_length: i64,
    },
}

/// Shortens a follow distance around scene geometry: with a hit, the
/// effective distance is the desired one clamped into the hit range,
/// pulled forward by the back margin; without one it is unchanged.
pub fn adjust_for_obstruction(desired: i64, back_distance: i64, hit: Option<i64>) -> (r: i64)
    requires
        in_lim(desired as int, 0x20_0000_0000),
        0 <= back_distance <= COORD_LIM,
        (hit matches Some(h) ==> 0 <= h <= 0x20_0000_0000),
    ensures
        r == obstructed_distance(desired as int, back_distance as int, hit),
        in_lim(r as int, 0x30_0000_0000),
{
    match hit {
        Some(h) => {
            let clamped: i64 = if desired < 0 {
                0
            } else if desired > h {
                h
            } else {
                desired
            };
            clamped - back_distance
        },
        None => desired,
    }
}

/// Finishes a follow placement once the host has answered the
/// obstruction query: the camera sits at the effective distance behind
/// the target along the placing rotation.
pub fn resolve_follow(
    rotation: FxQuat,
    target_translation: FxVec3,
    desired_distance: i64,
    back_distance: i64,
    hit: Option<i64>,
) -> (r: FxTransform)
    requires
        q_in_lim(rotation, 0x80_0000),
        v3_in_lim(target_translation, 0x8_0000_0000),
        in_lim(desired_distance as int, 0x20_0000_0000),
        0 <= back_distance <= COORD_LIM,
        (hit matches Some(h) ==> 0 <= h <= 0x20_0000_0000),
    ensures
        r.rotation == rotation,
        r.translation == (placed_at(
            rotation,
            obstructed_distance(desired_distance as int, back_distance as int, hit),
            target_translation,
        )),
{
    let fd = adjust_for_obstruction(desired_distance, back_distance, hit);
    proof {
        crate::quat::lemma_qrot_in_lim(
            rotation,
            (FxVec3 { x: 0, y: 0, z: fd }),
            0x80_0000,
            0x30_0000_0000,
            0x100_0000_0000_0000,
        );
    }
    let pv = quat_rotate(rotation, FxVec3 { x: 0, y: 0, z: fd });
    FxTransform { translation: pv.plus(target_translation), rotation }
}

/// Resolves one three-axis controller for this tick. The manual view
/// performs no placement but drains any unconsumed input so it cannot
/// leak into a later mode. Otherwise the consumed rotation delta turns
/// the camera — yaw about the world axis, pitch gated by the limiter —
/// and the view places it: first person pulls the camera onto the
/// target point; follow computes the desired distance and hands back
/// the obstruction ray for the host to cast. A missing camera entity
/// skips the controller with nothing consumed.
pub fn update_camera3d(
    controller: &CameraController3d,
    buffer: &mut DeltaBuffer,
    controller_transform: &FxTransform,
    camera: Option<&FxTransform>,
    dt: i64,
) -> (r: Result<Option<Camera3dStep>, CameraError>)
    requires
        controller.wf(),
        old(buffer).wf(),
        v2_in_lim(old(buffer).view(), DELTA_LIM as int),
        v3_in_lim(controller_transform.translation, COORD_LIM as int),
        q_in_lim(controller_transform.rotation, QUAT_LIM as int),
        (camera matches Some(cam) ==> v3_in_lim(cam.translation, COORD_LIM as int) && q_in_lim(
            cam.rotation,
            QUAT_LIM as int,
        )),
        0 <= dt <= DT_LIM,
    ensures
        controller.view is Manual ==> r == Result::<Option<Camera3dStep>, CameraError>::Ok(
            None,
        ) && final(buffer).view().x == 0 && final(buffer).view().y == 0,
        !(controller.view is Manual) && camera is None ==> r == Result::<
            Option<Camera3dStep>,
            CameraError,
        >::Err(CameraError::MissingEntity) && *final(buffer) == *old(buffer),
        (!(controller.view is Manual) ==> (camera matches Some(cam) ==> ({
            let d = scaled_delta(
                old(buffer).view(),
                controller.rotation_decay_rate,
                dt as int,
                controller.sensitivity as int,
            );
            let new_rot = rotated3d(*controller, cam.rotation, d);
            let tt = target_point(*controller_transform, controller.offset);
            &&& final(buffer).view() == buffer_after(
                old(buffer).view(),
                controller.rotation_decay_rate,
                dt as int,
            )
            &&& (controller.view is Perspective ==> r == Result::<
                Option<Camera3dStep>,
                CameraError,
            >::Ok(
                Some(
                    Camera3dStep::Placed {
                        transform: FxTransform {
                            translation: perspective_translation(
                                *controller,
                                *cam,
                                *controller_transform,
                                new_rot,
                                dt as int,
                            ),
                            rotation: new_rot,
                        },
                    },
                ),
            ))
            &&& (controller.view matches CameraView3d::Follow { distance, back_distance }
                ==> r == Result::<Option<Camera3dStep>, CameraError>::Ok(
                Some(
                    Camera3dStep::NeedsRay {
                        rotation: new_rot,
                        target_translation: tt,
                        desired_distance: smoothed_distance(
                            distance_to(cam.translation, tt),
                            distance as int,
                            controller.translation_decay_rate,
                            dt as int,
                        ) as i64,
                        back_distance,
                        ray_origin: tt,
                        ray_direction: FxVec3 {
                            x: qrot_x(new_rot, unit_z()) as i64,
                            y: qrot_y(new_rot, unit_z()) as i64,
                            z: qrot_z(new_rot, unit_z()) as i64,
                        },
                        ray_length: (smoothed_distance(
                            distance_to(cam.translation, tt),
                            distance as int,
                            controller.translation_decay_rate,
                            dt as int,
                        ) + back_distance) as i64,
                    },
                ),
            ))
        }))),
        final(buffer).wf(),
{
    if matches!(controller.view, CameraView3d::Manual) {
        buffer.reset();
        return Ok(None);
    }
    let cam = match camera {
        Some(c) => *c,
        None => {
            return Err(CameraError::MissingEntity);
        },
    };
    let d = controller.get_rotation_delta(buffer, dt);
    let yaw_q = crate::quat::from_axis_angle(controller.yaw_axis, d.x);
    proof {
        crate::quat::lemma_qmul_in_lim(yaw_q, cam.rotation, 2 * SCALE as int, QUAT_LIM as int, 0x20_0000);
        assert(yaw_q == crate::transform::axis_angle_spec(controller.yaw_axis, d.x as int));
    }
    let yawed = quat_mul(yaw_q, cam.rotation);
    let new_rot = if controller.can_rotate_pitch(d.y, yawed) {
        proof {
            crate::quat::lemma_qmul_in_lim(
                yawed,
                crate::transform::rot_x_spec(d.y as int),
                0x20_0000,
                SCALE as int,
                0x80_0000,
            );
        }
        let px = from_rotation_x(d.y);
        quat_mul(yawed, px)
    } else {
        yawed
    };
    let tt = resolve_target_point(controller_transform, controller.offset);
    match controller.view {
        CameraView3d::Perspective => {
            let translation = match controller.translation_decay_rate {
                DecayRate::Finite(_) => {
                    let dist = smoothed_follow_distance(
                        controller.translation_decay_rate,
                        cam.translation,
                        tt,
                        0,
                        dt,
                    );
                    proof {
                        crate::quat::lemma_qrot_in_lim(
                            new_rot,
                            (FxVec3 { x: 0, y: 0, z: dist }),
                            0x80_0000,
                            0x20_0000_0000,
                            0x80_0000_0000_0000,
                        );
                    }
                    let pv = quat_rotate(new_rot, FxVec3 { x: 0, y: 0, z: dist });
                    pv.plus(tt)
                },
                DecayRate::Infinite => tt,
            };
            Ok(Some(Camera3dStep::Placed { transform: FxTransform { translation, rotation: new_rot } }))
        },
        CameraView3d::Follow { distance, back_distance } => {
            let desired = smoothed_follow_distance(
                controller.translation_decay_rate,
                cam.translation,
                tt,
                distance,
                dt,
            );
            let back_dir = quat_rotate(new_rot, FxVec3 { x: 0, y: 0, z: SCALE });
            Ok(
                Some(
                    Camera3dStep::NeedsRay {
                        rotation: new_rot,
                        target_translation: tt,
                        desired_distance: desired,
                        back_distance,
                        ray_origin: tt,
                        ray_direction: back_dir,
                        ray_length: desired + back_distance,
                    },
                ),
            )
        },
        // the manual view already returned above; this arm never runs
        CameraView3d::Manual => Err(CameraError::MissingEntity),
    }
}

/// A consumed delta scaled by the sensitivity stays within the range the
/// placement arithmetic accepts.
proof fn lemma_scaled3d(c: int, sens: int)
    requires
        in_lim(c, DELTA_LIM as int),
        0 <= sens <= SENS_LIM,
    ensures
        in_lim(c * sens, 0x4000_0000_0000_0000),
        in_lim(mul_down(c, sens), 0x4_0000_0000),
{
    crate::fixed::lemma_mul_abs_bound(c, sens, DELTA_LIM as int, SENS_LIM as int);
    crate::fixed::lemma_div_tz_bounds(c * sens, SCALE as int);
    vstd::arithmetic::div_mod::lemma_div_is_ordered(
        crate::fixed::fx_abs(c * sens),
        0x4_0000_0000_0000,
        SCALE as int,
    );
}

} // verus!
