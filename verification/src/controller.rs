//! The generalized camera controller: its per-camera configuration, the
//! anchor and view modes, and the rotation-accumulating input buffer.

use vstd::prelude::*;

verus! {

use crate::fixed::SCALE;
use crate::fixed::FX_LIM;
use crate::fixed::RATE_LIM;
use crate::fixed::DT_LIM;
use crate::fixed::SENS_LIM;
use crate::fixed::in_lim;
use crate::fixed::mul_down;
use crate::fixed::div_fx_spec;
use crate::fixed::div_tz;
use crate::fixed::fx_mul;
use crate::vec::FxVec2;
use crate::vec::FxVec3;
use crate::vec::v2_in_lim;
use crate::vec::v3_in_lim;
use crate::vec::COORD_LIM;
use crate::quat::FxQuat;
use crate::quat::QUAT_LIM;
use crate::quat::q_in_lim;
use crate::quat::quat_mul;
use crate::quat::quat_rotate;
use crate::quat::from_rotation_x;
use crate::quat::qmul_x;
use crate::quat::qmul_y;
use crate::quat::qmul_z;
use crate::quat::qmul_w;
use crate::quat::qrot_y;
use crate::smooth::exp_neg_spec;
use crate::input::DeltaBuffer;
use crate::transform::rot_x_spec;

/// The inverse smoothing half-life of a controller: a positive finite
/// rate, or no smoothing at all — an instantaneous snap.
#[derive(Clone, Copy, PartialEq, Eq, Structural, Debug)]
pub enum DecayRate {
    Finite(i64),
    Infinite,
}

/// A finite decay rate is positive and within the smoothing range: a
/// zero rate would stall smoothing forever, so it is never well-formed.
pub open spec fn rate_wf(r: DecayRate) -> bool {
    match r {
        DecayRate::Finite(v) => 0 < v <= RATE_LIM,
        DecayRate::Infinite => true,
    }
}

impl DecayRate {
    /// Whether smoothing applies at all.
    pub fn is_finite(&self) -> (b: bool)
        ensures
            b == (self is Finite),
    {
        match self {
            DecayRate::Finite(_) => true,
            DecayRate::Infinite => false,
        }
    }
}

/// What the consumption stage takes from one buffer component this tick:
/// the decayed share under a finite rate, everything under a snap.
pub open spec fn consumed_step(d: int, rate: DecayRate, dt: int) -> int {
    match rate {
        DecayRate::Finite(rr) => d - mul_down(d, exp_neg_spec(mul_down(rr as int, dt))),
        DecayRate::Infinite => d,
    }
}

/// What one buffer component keeps after the consumption stage.
pub open spec fn remaining_step(d: int, rate: DecayRate, dt: int) -> int {
    d - consumed_step(d, rate, dt)
}

/// An anchor's payload stays within the ranges the resolution steps
/// accept: a near-unit plane normal, a nonnegative orbit radius.
pub open spec fn anchor_wf(a: CameraAnchor) -> bool {
    match a {
        CameraAnchor::Plane { normal } => v3_in_lim(normal, 2 * SCALE as int),
        CameraAnchor::Orbit { distance } => 0 <= distance <= COORD_LIM,
        _ => true,
    }
}

/// The geometric constraint on where the camera sits relative to its
/// controller.
#[derive(Clone, Copy, PartialEq, Eq, Structural, Debug, Default)]
pub enum CameraAnchor {
    /// Free look around the world yaw axis: translation panning along
    /// the yaw axis and the camera's lateral axis.
    Yaw,
    /// Panning confined to the plane with the given normal.
    Plane { normal: FxVec3 },
    /// First person: the camera glued to the controller.
    #[default]
    Point,
    /// Third person: the camera held at a fixed radius.
    Orbit { distance: i64 },
}

/// The rule for the camera's orientation, independent of the anchor.
#[derive(Clone, Copy, PartialEq, Eq, Structural, Debug, Default)]
pub enum CameraView {
    /// Orientation driven by the accumulated rotation buffer.
    #[default]
    Free,
    /// Orientation computed as a look-at toward another entity.
    Target(u64),
}

/// A buffer that stores a 2D delta value and the running rotation the
/// free view accumulates from it.
pub struct CameraBuffer {
    /// The accumulated 2D delta, managed exactly as a plain delta buffer.
    pub delta: DeltaBuffer,
    /// The accumulated orientation, updated by yaw and pitch increments.
    pub rotation: FxQuat,
}

impl CameraBuffer {
    /// The accumulated delta currently held.
    pub open spec fn view(&self) -> FxVec2 {
        self.delta.view()
    }

    /// The held delta stays within the range the decay step accepts.
    pub open spec fn wf(&self) -> bool {
        v2_in_lim(self.view(), FX_LIM as int)
    }

    /// Adds the given delta to the buffer's current value.
    pub fn update(&mut self, delta: FxVec2)
        requires
            in_lim(old(self).view().x + delta.x, FX_LIM as int),
            in_lim(old(self).view().y + delta.y, FX_LIM as int),
        ensures
            final(self).view().x == old(self).view().x + delta.x,
            final(self).view().y == old(self).view().y + delta.y,
            final(self).rotation == old(self).rotation,
            final(self).wf(),
    {
        self.delta.update(delta);
    }

    /// Subtracts the given delta from the buffer's current value. Never
    /// clamps: consuming more than was read is the caller's mistake.
    pub fn consume(&mut self, delta: FxVec2)
        requires
            in_lim(old(self).view().x - delta.x, FX_LIM as int),
            in_lim(old(self).view().y - delta.y, FX_LIM as int),
        ensures
            final(self).view().x == old(self).view().x - delta.x,
            final(self).view().y == old(self).view().y - delta.y,
            final(self).rotation == old(self).rotation,
            final(self).wf(),
    {
        self.delta.consume(delta);
    }

    /// Resets the buffer's delta value to zero, discarding unconsumed
    /// input.
    pub fn reset(&mut self)
        ensures
            final(self).view().x == 0 && final(self).view().y == 0,
            final(self).rotation == old(self).rotation,
            final(self).wf(),
    {
        self.delta.reset();
    }

    /// Returns the current delta value without modifying it.
    pub fn read(&self) -> (r: FxVec2)
        ensures
            r == self.view(),
    {
        self.delta.read()
    }

    /// Returns the current delta value and resets the buffer.
    pub fn take(&mut self) -> (r: FxVec2)
        ensures
            r == old(self).view(),
            final(self).view().x == 0 && final(self).view().y == 0,
            final(self).rotation == old(self).rotation,
            final(self).wf(),
    {
        self.delta.take()
    }

    /// Consumes one exponential-decay step of the held delta and returns
    /// the consumed amount, exactly as the plain delta buffer does; the
    /// accumulated rotation is untouched.
    pub fn decay(&mut self, rate: i64, dt: i64) -> (r: FxVec2)
        requires
            0 < rate <= RATE_LIM,
            0 <= dt <= DT_LIM,
            old(self).wf(),
        ensures
            ({
                let q = exp_neg_spec(mul_down(rate as int, dt as int));
                &&& final(self).view().x == mul_down(old(self).view().x as int, q)
                &&& final(self).view().y == mul_down(old(self).view().y as int, q)
            }),
            r.x == old(self).view().x - final(self).view().x,
            r.y == old(self).view().y - final(self).view().y,
            old(self).view().x >= 0 ==> 0 <= final(self).view().x <= old(self).view().x,
            old(self).view().x <= 0 ==> old(self).view().x <= final(self).view().x <= 0,
            old(self).view().y >= 0 ==> 0 <= final(self).view().y <= old(self).view().y,
            old(self).view().y <= 0 ==> old(self).view().y <= final(self).view().y <= 0,
            final(self).rotation == old(self).rotation,
            final(self).wf(),
    {
        self.delta.decay(rate, dt)
    }
}

impl Default for CameraBuffer {
    /// An empty buffer holding the identity orientation.
    fn default() -> (r: Self)
        ensures
            r.view().x == 0 && r.view().y == 0,
            r.rotation.x == 0 && r.rotation.y == 0 && r.rotation.z == 0 && r.rotation.w
                == SCALE,
            r.wf(),
    {
        CameraBuffer { delta: Default::default(), rotation: FxQuat::identity() }
    }
}

/// A camera controller: the per-camera configuration record that
/// parameterizes every per-tick resolution step.
pub struct CameraController {
    /// Handle of the camera entity being driven.
    pub camera: u64,
    /// Constrains where the camera sits.
    pub anchor: CameraAnchor,
    /// Constrains how the camera is oriented.
    pub view: CameraView,
    /// Multiplier applied to all consumed input.
    pub sensitivity: i64,
    /// World-space offset from the target position.
    pub offset: FxVec3,
    /// Rate at which translation decays with smooth interpolation.
    pub translation_decay_rate: DecayRate,
    /// Rate at which rotation decays with smooth interpolation.
    pub rotation_decay_rate: DecayRate,
    /// World-space axis around which yaw rotation occurs.
    pub yaw_axis: FxVec3,
    /// Optional pitch limit, stored as the cosine of half the range.
    pub pitch_range: Option<i64>,
}

impl CameraController {
    /// The translation smoothing rate.
    pub open spec fn translation_rate(&self) -> DecayRate {
        self.translation_decay_rate
    }

    /// The rotation smoothing rate.
    pub open spec fn rotation_rate(&self) -> DecayRate {
        self.rotation_decay_rate
    }

    /// The stored pitch limit: the cosine of half the configured range.
    pub open spec fn pitch_limit(&self) -> Option<i64> {
        self.pitch_range
    }

    /// The configuration stays within the ranges the resolution steps
    /// accept.
    pub open spec fn wf(&self) -> bool {
        &&& rate_wf(self.translation_rate())
        &&& rate_wf(self.rotation_rate())
        &&& 0 <= self.sensitivity <= SENS_LIM
        &&& v3_in_lim(self.offset, 0x400_0000)
        &&& v3_in_lim(self.yaw_axis, 2 * SCALE as int)
        &&& match self.pitch_limit() {
            Some(l) => in_lim(l as int, SCALE as int),
            None => true,
        }
        &&& anchor_wf(self.anchor)
    }

    /// Creates a controller with default settings: unit sensitivity, no
    /// offset, no smoothing (instant movement), yaw around the world
    /// `y` axis, and no pitch limits.
    pub fn new(camera: u64, anchor: CameraAnchor, view: CameraView) -> (r: Self)
        requires
            anchor_wf(anchor),
        ensures
            r.camera == camera,
            r.anchor == anchor,
            r.view == view,
            r.sensitivity == SCALE,
            r.offset.x == 0 && r.offset.y == 0 && r.offset.z == 0,
            r.translation_rate() == DecayRate::Infinite,
            r.rotation_rate() == DecayRate::Infinite,
            r.yaw_axis.x == 0 && r.yaw_axis.y == SCALE && r.yaw_axis.z == 0,
            r.pitch_limit() is None,
            r.wf(),
    {
        CameraController {
            camera,
            anchor,
            view,
            sensitivity: SCALE,
            offset: FxVec3::zero(),
            translation_decay_rate: DecayRate::Infinite,
            rotation_decay_rate: DecayRate::Infinite,
            yaw_axis: FxVec3 { x: 0, y: SCALE, z: 0 },
            pitch_range: None,
        }
    }

    /// The rate at which translation decays.
    pub fn get_translation_decay_rate(&self) -> (r: DecayRate)
        ensures
            r == self.translation_rate(),
    {
        self.translation_decay_rate
    }

    /// The rate at which rotation decays.
    pub fn get_rotation_decay_rate(&self) -> (r: DecayRate)
        ensures
            r == self.rotation_rate(),
    {
        self.rotation_decay_rate
    }

    /// Sets the sensitivity multiplier for all movement.
    pub fn with_sensitivity(self, sensitivity: i64) -> (r: Self)
        requires
            0 <= sensitivity <= SENS_LIM,
        ensures
            r == (CameraController { sensitivity, ..self }),
            self.wf() ==> r.wf(),
    {
        CameraController { sensitivity, ..self }
    }

    /// Sets the world-space offset from the target position.
    pub fn with_offset(self, offset: FxVec3) -> (r: Self)
        requires
            v3_in_lim(offset, 0x400_0000),
        ensures
            r == (CameraController { offset, ..self }),
            self.wf() ==> r.wf(),
    {
        CameraController { offset, ..self }
    }

    /// Sets the smoothing factor for both translation and rotation;
    /// larger values give smoother movement. The decay rate stored is
    /// the reciprocal of the factor.
    pub fn with_smoothing(self, smoothing: i64) -> (r: Self)
        requires
            0 < smoothing <= RATE_LIM,
        ensures
            r.translation_rate() == DecayRate::Finite(
                div_fx_spec(SCALE as int, smoothing as int) as i64,
            ),
            r.rotation_rate() == r.translation_rate(),
            r.camera == self.camera && r.anchor == self.anchor && r.view == self.view
                && r.sensitivity == self.sensitivity && r.offset == self.offset
                && r.yaw_axis == self.yaw_axis && r.pitch_limit() == self.pitch_limit(),
            self.wf() ==> r.wf(),
    {
        let decay_rate = crate::smooth::reciprocal_rate(smoothing);
        CameraController {
            translation_decay_rate: DecayRate::Finite(decay_rate),
            rotation_decay_rate: DecayRate::Finite(decay_rate),
            ..self
        }
    }

    /// Sets the smoothing factor for translation only.
    pub fn with_translation_smoothing(self, smoothing: i64) -> (r: Self)
        requires
            0 < smoothing <= RATE_LIM,
        ensures
            r.translation_rate() == DecayRate::Finite(
                div_fx_spec(SCALE as int, smoothing as int) as i64,
            ),
            r.rotation_rate() == self.rotation_rate(),
            r.camera == self.camera && r.anchor == self.anchor && r.view == self.view
                && r.sensitivity == self.sensitivity && r.offset == self.offset
                && r.yaw_axis == self.yaw_axis && r.pitch_limit() == self.pitch_limit(),
            self.wf() ==> r.wf(),
    {
        let decay_rate = crate::smooth::reciprocal_rate(smoothing);
        CameraController { translation_decay_rate: DecayRate::Finite(decay_rate), ..self }
    }

    /// Sets the smoothing factor for rotation only.
    pub fn with_rotation_smoothing(self, smoothing: i64) -> (r: Self)
        requires
            0 < smoothing <= RATE_LIM,
        ensures
            r.rotation_rate() == DecayRate::Finite(
                div_fx_spec(SCALE as int, smoothing as int) as i64,
            ),
            r.translation_rate() == self.translation_rate(),
            r.camera == self.camera && r.anchor == self.anchor && r.view == self.view
                && r.sensitivity == self.sensitivity && r.offset == self.offset
                && r.yaw_axis == self.yaw_axis && r.pitch_limit() == self.pitch_limit(),
            self.wf() ==> r.wf(),
    {
        let decay_rate = crate::smooth::reciprocal_rate(smoothing);
        CameraController { rotation_decay_rate: DecayRate::Finite(decay_rate), ..self }
    }

    /// Sets the world-space axis for yaw rotation.
    pub fn with_yaw_axis(self, yaw_axis: FxVec3) -> (r: Self)
        requires
            v3_in_lim(yaw_axis, 2 * SCALE as int),
        ensures
            r == (CameraController { yaw_axis, ..self }),
            self.wf() ==> r.wf(),
    {
        CameraController { yaw_axis, ..self }
    }

    /// Sets the maximum pitch angle from horizontal: the cosine of half
    /// the range is stored for a cheap comparison each tick.
    pub fn with_pitch_range(self, pitch_range: i64) -> (r: Self)
        requires
            in_lim(pitch_range as int, FX_LIM as int),
        ensures
            r.pitch_limit() == Some(
                crate::trig::cos_spec(div_tz(pitch_range as int, 2)) as i64,
            ),
            r.camera == self.camera && r.anchor == self.anchor && r.view == self.view
                && r.sensitivity == self.sensitivity && r.offset == self.offset
                && r.yaw_axis == self.yaw_axis && r.translation_rate()
                == self.translation_rate() && r.rotation_rate() == self.rotation_rate(),
            self.wf() ==> r.wf(),
    {
        proof {
            crate::fixed::lemma_div_tz_bounds(pitch_range as int, 2);
        }
        let half = crate::fixed::mul_div_tz(pitch_range, 1, 2);
        let c = crate::trig::cos_fx(half);
        CameraController { pitch_range: Some(c), ..self }
    }

    /// Consumes this tick's rotation input: the decayed share of the
    /// buffer under a finite rotation rate, the whole buffer under a
    /// snap, scaled by the sensitivity either way.
    pub fn get_rotation_delta(&self, delta_buffer: &mut CameraBuffer, dt: i64) -> (r: FxVec2)
        requires
            self.wf(),
            old(delta_buffer).wf(),
            v2_in_lim(old(delta_buffer).view(), crate::fixed::DELTA_LIM as int),
            0 <= dt <= DT_LIM,
        ensures
            r.x == mul_down(
                consumed_step(old(delta_buffer).view().x as int, self.rotation_rate(), dt as int),
                self.sensitivity as int,
            ),
            r.y == mul_down(
                consumed_step(old(delta_buffer).view().y as int, self.rotation_rate(), dt as int),
                self.sensitivity as int,
            ),
            final(delta_buffer).view().x == remaining_step(
                old(delta_buffer).view().x as int,
                self.rotation_rate(),
                dt as int,
            ),
            final(delta_buffer).view().y == remaining_step(
                old(delta_buffer).view().y as int,
                self.rotation_rate(),
                dt as int,
            ),
            final(delta_buffer).rotation == old(delta_buffer).rotation,
            final(delta_buffer).wf(),
            v2_in_lim(r, 0x4_0000_0000),
    {
        let consumed = match self.rotation_decay_rate {
            DecayRate::Finite(rate) => delta_buffer.decay(rate, dt),
            DecayRate::Infinite => delta_buffer.take(),
        };
        proof {
            lemma_scaled_delta_bound(consumed.x as int, self.sensitivity as int);
            lemma_scaled_delta_bound(consumed.y as int, self.sensitivity as int);
        }
        FxVec2 { x: fx_mul(consumed.x, self.sensitivity), y: fx_mul(consumed.y, self.sensitivity) }
    }

    /// Consumes this tick's translation input, by the same law under the
    /// translation rate.
    pub fn get_translation_delta(&self, delta_buffer: &mut CameraBuffer, dt: i64) -> (r: FxVec2)
        requires
            self.wf(),
            old(delta_buffer).wf(),
            v2_in_lim(old(delta_buffer).view(), crate::fixed::DELTA_LIM as int),
            0 <= dt <= DT_LIM,
        ensures
            r.x == mul_down(
                consumed_step(
                    old(delta_buffer).view().x as int,
                    self.translation_rate(),
                    dt as int,
                ),
                self.sensitivity as int,
            ),
            r.y == mul_down(
                consumed_step(
                    old(delta_buffer).view().y as int,
                    self.translation_rate(),
                    dt as int,
                ),
                self.sensitivity as int,
            ),
            final(delta_buffer).view().x == remaining_step(
                old(delta_buffer).view().x as int,
                self.translation_rate(),
                dt as int,
            ),
            final(delta_buffer).view().y == remaining_step(
                old(delta_buffer).view().y as int,
                self.translation_rate(),
                dt as int,
            ),
            final(delta_buffer).rotation == old(delta_buffer).rotation,
            final(delta_buffer).wf(),
            v2_in_lim(r, 0x4_0000_0000),
    {
        let consumed = match self.translation_decay_rate {
            DecayRate::Finite(rate) => delta_buffer.decay(rate, dt),
            DecayRate::Infinite => delta_buffer.take(),
        };
        proof {
            lemma_scaled_delta_bound(consumed.x as int, self.sensitivity as int);
            lemma_scaled_delta_bound(consumed.y as int, self.sensitivity as int);
        }
        FxVec2 { x: fx_mul(consumed.x, self.sensitivity), y: fx_mul(consumed.y, self.sensitivity) }
    }

    /// Checks whether applying `pitch` about the camera's local lateral
    /// axis would keep the camera's up vector aligned closely enough
    /// with the yaw axis: the limiter accepts exactly when the up
    /// component along that axis stays at or above the stored cosine,
    /// and accepts everything when no range is set.
    pub fn can_rotate_pitch(&self, pitch: i64, rotation: FxQuat) -> (r: bool)
        requires
            self.wf(),
            in_lim(pitch as int, FX_LIM as int),
            q_in_lim(rotation, QUAT_LIM as int),
        ensures
            r == can_rotate_pitch_spec(self.pitch_limit(), pitch as int, rotation, self.yaw_axis),
            self.pitch_limit() is None ==> r,
    {
        match self.pitch_range {
            Some(limit) => {
                let pitch_quat = from_rotation_x(pitch);
                proof {
                    crate::quat::lemma_qmul_in_lim(
                        rotation,
                        rot_x_spec(pitch as int),
                        QUAT_LIM as int,
                        SCALE as int,
                        0x80_0000,
                    );
                }
                let hypothetical = quat_mul(rotation, pitch_quat);
                proof {
                    crate::quat::lemma_qrot_in_lim(
                        hypothetical,
                        (FxVec3 { x: 0, y: SCALE, z: 0 }),
                        0x80_0000,
                        SCALE as int,
                        0x4_0000_0000,
                    );
                }
                let up = quat_rotate(hypothetical, FxVec3 { x: 0, y: SCALE, z: 0 });
                proof {
                    crate::fixed::lemma_mul_abs_bound(
                        up.x as int,
                        self.yaw_axis.x as int,
                        0x4_0000_0000,
                        131072,
                    );
                    crate::fixed::lemma_mul_abs_bound(
                        up.y as int,
                        self.yaw_axis.y as int,
                        0x4_0000_0000,
                        131072,
                    );
                    crate::fixed::lemma_mul_abs_bound(
                        up.z as int,
                        self.yaw_axis.z as int,
                        0x4_0000_0000,
                        131072,
                    );
                }
                let alignment: i128 = (up.x as i128) * (self.yaw_axis.x as i128) + (
                up.y as i128) * (self.yaw_axis.y as i128) + (up.z as i128) * (
                self.yaw_axis.z as i128);
                alignment >= (limit as i128) * (SCALE as i128)
            },
            None => true,
        }
    }
}

/// A consumed delta scaled by the sensitivity stays within the range the
/// displacement arithmetic accepts.
proof fn lemma_scaled_delta_bound(c: int, sens: int)
    requires
        in_lim(c, crate::fixed::DELTA_LIM as int),
        0 <= sens <= SENS_LIM,
    ensures
        in_lim(c * sens, 0x4000_0000_0000_0000),
        in_lim(mul_down(c, sens), 0x4_0000_0000),
{
    crate::fixed::lemma_mul_abs_bound(c, sens, crate::fixed::DELTA_LIM as int, SENS_LIM as int);
    crate::fixed::lemma_div_tz_bounds(c * sens, SCALE as int);
    vstd::arithmetic::div_mod::lemma_div_is_ordered(
        crate::fixed::fx_abs(c * sens),
        0x4_0000_0000_0000,
        SCALE as int,
    );
}

/// The alignment the pitch limiter inspects: the camera's up vector
/// after the hypothetical pitch, dotted with the yaw axis — the up
/// component along that axis, at product scale.
pub open spec fn pitch_up_spec(pitch: int, rotation: FxQuat, yaw_axis: FxVec3) -> int {
    let q = FxQuat {
        x: qmul_x(rotation, rot_x_spec(pitch)) as i64,
        y: qmul_y(rotation, rot_x_spec(pitch)) as i64,
        z: qmul_z(rotation, rot_x_spec(pitch)) as i64,
        w: qmul_w(rotation, rot_x_spec(pitch)) as i64,
    };
    let up = FxVec3 {
        x: crate::quat::qrot_x(q, crate::transform::unit_y()) as i64,
        y: qrot_y(q, crate::transform::unit_y()) as i64,
        z: crate::quat::qrot_z(q, crate::transform::unit_y()) as i64,
    };
    crate::vec::v3_dot(up, yaw_axis)
}

/// What the pitch limiter decides: everything passes without a range;
/// with one, exactly the pitches whose up component along the yaw axis
/// reaches the stored cosine, both taken at product scale.
pub open spec fn can_rotate_pitch_spec(
    limit: Option<i64>,
    pitch: int,
    rotation: FxQuat,
    yaw_axis: FxVec3,
) -> bool {
    match limit {
        Some(l) => pitch_up_spec(pitch, rotation, yaw_axis) >= l * SCALE,
        None => true,
    }
}

/// Law of the pitch limiter at a zero range: the stored threshold is the
/// whole unit, so a pitch is accepted exactly when it leaves no tilt at
/// all — the camera's up vector keeps a full unit of component along
/// the yaw axis; and without a range every pitch is accepted.
pub proof fn lemma_pitch_limiter(pitch: int, rotation: FxQuat, yaw_axis: FxVec3)
    ensures
        crate::trig::cos_spec(div_tz(0, 2)) == SCALE,
        can_rotate_pitch_spec(
            Some(crate::trig::cos_spec(div_tz(0, 2)) as i64),
            pitch,
            rotation,
            yaw_axis,
        ) <==> pitch_up_spec(pitch, rotation, yaw_axis) >= SCALE * SCALE,
        can_rotate_pitch_spec(None, pitch, rotation, yaw_axis),
{
    vstd::arithmetic::div_mod::lemma_div_of0(2);
    crate::trig::lemma_trig_zero();
}

} // verus!
