//! The two-axis camera controller: dead-zone following in the plane and
//! a smoothed projection scale.

use vstd::prelude::*;

verus! {

use crate::fixed::SCALE;
use crate::fixed::FX_LIM;
use crate::fixed::RATE_LIM;
use crate::fixed::DT_LIM;
use crate::fixed::SENS_LIM;
use crate::fixed::DELTA_LIM;
use crate::fixed::in_lim;
use crate::fixed::mul_down;
use crate::fixed::div_fx_spec;
use crate::fixed::div_tz;
use crate::fixed::fx_mul;
use crate::fixed::fx_div;
use crate::vec::FxVec2;
use crate::vec::FxVec3;
use crate::vec::v2_in_lim;
use crate::vec::v3_in_lim;
use crate::vec::v2_norm_sq;
use crate::vec::isqrt_spec;
use crate::vec::COORD_LIM;
use crate::controller::DecayRate;
use crate::controller::rate_wf;
use crate::controller::consumed_step;
use crate::controller::remaining_step;
use crate::input::DeltaBuffer;
use crate::tick::CameraError;
use crate::tick::smoothed_distance;

/// How the two-axis camera views its target.
#[derive(Clone, Copy, PartialEq, Eq, Structural, Debug)]
pub enum CameraView2d {
    /// Disables influence over the camera; another system drives it.
    Manual,
    /// The camera follows the target from the given distance, pulled in
    /// only while it sits outside that radius.
    Follow { distance: i64 },
}

/// A follow radius stays within the coordinate range.
pub open spec fn view2d_wf(v: CameraView2d) -> bool {
    match v {
        CameraView2d::Follow { distance } => 0 <= distance <= COORD_LIM,
        CameraView2d::Manual => true,
    }
}

/// What the host reads and writes for a two-axis camera each tick: its
/// translation and its projection scale.
#[derive(Clone, Copy, PartialEq, Eq, Structural, Debug)]
pub struct Camera2dState {
    pub translation: FxVec3,
    pub scale: i64,
}

/// A camera controller for two-axis control: smooth translation
/// following and a zoom scale.
pub struct CameraController2d {
    /// Handle of the camera entity being driven.
    pub camera: u64,
    /// View configuration for the camera.
    pub view: CameraView2d,
    /// Multiplier applied to all consumed input.
    pub sensitivity: i64,
    /// Offset from the target position.
    pub offset: FxVec3,
    /// Rate at which translation decays with smooth interpolation.
    pub decay_rate: DecayRate,
    /// Scale multiplier for the camera projection, stored as the
    /// reciprocal of the zoom.
    pub scale: i64,
}

impl CameraController2d {
    /// The configuration stays within the ranges the resolution step
    /// accepts.
    pub open spec fn wf(&self) -> bool {
        &&& rate_wf(self.decay_rate)
        &&& 0 <= self.sensitivity <= SENS_LIM
        &&& v3_in_lim(self.offset, 0x400_0000)
        &&& 0 <= self.scale <= RATE_LIM
        &&& view2d_wf(self.view)
    }

    /// Creates a controller with default settings: unit sensitivity and
    /// scale, no offset, no smoothing.
    pub fn new(camera: u64, view: CameraView2d) -> (r: Self)
        requires
            view2d_wf(view),
        ensures
            r.camera == camera,
            r.view == view,
            r.sensitivity == SCALE,
            r.offset.x == 0 && r.offset.y == 0 && r.offset.z == 0,
            r.decay_rate == DecayRate::Infinite,
            r.scale == SCALE,
            r.wf(),
    {
        CameraController2d {
            camera,
            view,
            sensitivity: SCALE,
            offset: FxVec3::zero(),
            decay_rate: DecayRate::Infinite,
            scale: SCALE,
        }
    }

    /// Sets the sensitivity multiplier for all movement.
    pub fn with_sensitivity(self, sensitivity: i64) -> (r: Self)
        requires
            0 <= sensitivity <= SENS_LIM,
        ensures
            r == (CameraController2d { sensitivity, ..self }),
            self.wf() ==> r.wf(),
    {
        CameraController2d { sensitivity, ..self }
    }

    /// Sets the offset from the target position.
    pub fn with_offset(self, offset: FxVec3) -> (r: Self)
        requires
            v3_in_lim(offset, 0x400_0000),
        ensures
            r == (CameraController2d { offset, ..self }),
            self.wf() ==> r.wf(),
    {
        CameraController2d { offset, ..self }
    }

    /// Sets the smoothing factor for camera movement; larger values give
    /// smoother movement.
    pub fn with_smoothing(self, smoothing: i64) -> (r: Self)
        requires
            0 < smoothing <= RATE_LIM,
        ensures
            r.decay_rate == DecayRate::Finite(
                div_fx_spec(SCALE as int, smoothing as int) as i64,
            ),
            r.camera == self.camera && r.view == self.view && r.sensitivity
                == self.sensitivity && r.offset == self.offset && r.scale == self.scale,
            self.wf() ==> r.wf(),
    {
        let decay_rate = crate::smooth::reciprocal_rate(smoothing);
        CameraController2d { decay_rate: DecayRate::Finite(decay_rate), ..self }
    }

    /// Sets the projection scale from a zoom level: the scale stored is
    /// the reciprocal of the zoom.
    pub fn with_zoom(self, zoom: i64) -> (r: Self)
        requires
            0 < zoom <= RATE_LIM,
        ensures
            r.scale == div_fx_spec(SCALE as int, zoom as int),
            r.camera == self.camera && r.view == self.view && r.sensitivity
                == self.sensitivity && r.offset == self.offset && r.decay_rate
                == self.decay_rate,
            self.wf() ==> r.wf(),
    {
        let scale = crate::smooth::reciprocal_rate(zoom);
        CameraController2d { scale, ..self }
    }

    /// Sets the projection scale from a zoom level, in place.
    pub fn set_zoom(&mut self, zoom: i64)
        requires
            0 < zoom <= RATE_LIM,
        ensures
            final(self).scale == div_fx_spec(SCALE as int, zoom as int),
            final(self).camera == old(self).camera && final(self).view == old(self).view
                && final(self).sensitivity == old(self).sensitivity && final(self).offset
                == old(self).offset && final(self).decay_rate == old(self).decay_rate,
            old(self).wf() ==> final(self).wf(),
    {
        self.scale = crate::smooth::reciprocal_rate(zoom);
    }

    /// Divides the projection scale by a zoom factor. Each call rounds
    /// the quotient toward zero, so successive zooms compose only up to
    /// that rounding, not as one exact product.
    pub fn zoom_by(&mut self, factor: i64)
        requires
            0 < factor,
            0 <= old(self).scale <= RATE_LIM,
            in_lim(div_fx_spec(old(self).scale as int, factor as int), RATE_LIM as int),
        ensures
            final(self).scale == div_fx_spec(old(self).scale as int, factor as int),
            final(self).camera == old(self).camera && final(self).view == old(self).view
                && final(self).sensitivity == old(self).sensitivity && final(self).offset
                == old(self).offset && final(self).decay_rate == old(self).decay_rate,
            old(self).wf() ==> final(self).wf(),
    {
        proof {
            crate::fixed::lemma_div_tz_bounds(old(self).scale * (SCALE as int), factor as int);
            vstd::arithmetic::mul::lemma_mul_nonnegative(old(self).scale as int, SCALE as int);
        }
        self.scale = fx_div(self.scale, factor);
    }

    /// Consumes this tick's delta: the decayed share of the buffer under
    /// a finite rate, the whole buffer under a snap, scaled by the
    /// sensitivity either way.
    pub fn get_delta(&mut self, delta_buffer: &mut DeltaBuffer, dt: i64) -> (r: FxVec2)
        requires
            old(self).wf(),
            old(delta_buffer).wf(),
            v2_in_lim(old(delta_buffer).view(), DELTA_LIM as int),
            0 <= dt <= DT_LIM,
        ensures
            *final(self) == *old(self),
            r.x == mul_down(
                consumed_step(old(delta_buffer).view().x as int, old(self).decay_rate, dt as int),
                old(self).sensitivity as int,
            ),
            r.y == mul_down(
                consumed_step(old(delta_buffer).view().y as int, old(self).decay_rate, dt as int),
                old(self).sensitivity as int,
            ),
            final(delta_buffer).view().x == remaining_step(
                old(delta_buffer).view().x as int,
                old(self).decay_rate,
                dt as int,
            ),
            final(delta_buffer).view().y == remaining_step(
                old(delta_buffer).view().y as int,
                old(self).decay_rate,
                dt as int,
            ),
            final(delta_buffer).wf(),
            v2_in_lim(r, 0x4_0000_0000),
    {
        let consumed = match self.decay_rate {
            DecayRate::Finite(rate) => delta_buffer.decay(rate, dt),
            DecayRate::Infinite => delta_buffer.take(),
        };
        proof {
            lemma_delta_scale(consumed.x as int, self.sensitivity as int);
            lemma_delta_scale(consumed.y as int, self.sensitivity as int);
        }
        FxVec2 { x: fx_mul(consumed.x, self.sensitivity), y: fx_mul(consumed.y, self.sensitivity) }
    }
}

/// A consumed delta scaled by the sensitivity stays within the range the
/// displacement arithmetic accepts.
proof fn lemma_delta_scale(c: int, sens: int)
    requires
        in_lim(c, DELTA_LIM as int),
        0 <= sens <= SENS_LIM,
    ensures
        in_lim(c * sens, 0x4000_0000_0000_0000),
        in_lim(mul_down(c, sens), 0x4_0000_0000),
{
    crate::fixed::lemma_mul_abs_bound(c, sens, DELTA_LIM as int, SENS_LIM as int);
    crate::fixed::lemma_div_tz_bounds(c * sens, SCALE as int);
    vstd::arithmetic::div_mod::lemma_div_is_ordered(
        crate::fixed::fx_abs(c * sens),
        0x4_0000_0000_0000,
        SCALE as int,
    );
}

/// The translation the dead-zone follow leaves: untouched while the
/// camera sits within the follow radius of the target (and exactly on
/// it), pulled straight toward the target down to the smoothed radius
/// once outside.
pub open spec fn follow2d_translation(
    cam_t: FxVec3,
    tt: FxVec3,
    distance: int,
    rate: DecayRate,
    dt: int,
) -> FxVec3 {
    let dx = (tt.x - cam_t.x) as i64;
    let dy = (tt.y - cam_t.y) as i64;
    let cur = isqrt_spec(v2_norm_sq(FxVec2 { x: dx, y: dy }));
    if cur == 0 {
        cam_t
    } else if cur > distance {
        let nd = smoothed_distance(cur, distance, rate, dt);
        FxVec3 {
            x: (cam_t.x + div_tz(dx * (cur - nd), cur)) as i64,
            y: (cam_t.y + div_tz(dy * (cur - nd), cur)) as i64,
            z: cam_t.z,
        }
    } else {
        cam_t
    }
}

/// Law of the dead zone: while the camera's planar distance to the
/// target is within the configured radius, the follow step leaves the
/// camera translation exactly unchanged — no pull inside the radius.
pub proof fn lemma_follow2d_dead_zone(
    cam_t: FxVec3,
    tt: FxVec3,
    distance: int,
    rate: DecayRate,
    dt: int,
)
    requires
        isqrt_spec(
            v2_norm_sq(FxVec2 { x: (tt.x - cam_t.x) as i64, y: (tt.y - cam_t.y) as i64 }),
        ) <= distance,
    ensures
        follow2d_translation(cam_t, tt, distance, rate, dt) == cam_t,
{
}

/// Resolves one two-axis controller for this tick. The manual view
/// performs no placement but drains any unconsumed input so it cannot
/// leak into a later mode; the follow view smooths the projection scale
/// toward the configured scale and pulls the camera toward the target
/// only while it sits outside the follow radius. A missing camera
/// entity skips the controller.
pub fn update_camera2d(
    controller: &CameraController2d,
    buffer: &mut DeltaBuffer,
    controller_translation: &FxVec3,
    camera: Option<&Camera2dState>,
    dt: i64,
) -> (r: Result<Option<Camera2dState>, CameraError>)
    requires
        controller.wf(),
        old(buffer).wf(),
        v3_in_lim(*controller_translation, COORD_LIM as int),
        (camera matches Some(st) ==> v3_in_lim(st.translation, COORD_LIM as int) && in_lim(
            st.scale as int,
            FX_LIM as int,
        )),
        0 <= dt <= DT_LIM,
    ensures
        controller.view is Manual ==> r == Result::<Option<Camera2dState>, CameraError>::Ok(
            None,
        ) && final(buffer).view().x == 0 && final(buffer).view().y == 0,
        controller.view is Follow ==> *final(buffer) == *old(buffer),
        controller.view is Follow && camera is None ==> r == Result::<
            Option<Camera2dState>,
            CameraError,
        >::Err(CameraError::MissingEntity),
        (controller.view matches CameraView2d::Follow { distance } ==> (
        camera matches Some(st) ==> r == Result::<Option<Camera2dState>, CameraError>::Ok(
            Some(
                Camera2dState {
                    translation: follow2d_translation(
                        st.translation,
                        FxVec3 {
                            x: (controller_translation.x + controller.offset.x) as i64,
                            y: (controller_translation.y + controller.offset.y) as i64,
                            z: (controller_translation.z + controller.offset.z) as i64,
                        },
                        distance as int,
                        controller.decay_rate,
                        dt as int,
                    ),
                    scale: smoothed_distance(
                        st.scale as int,
                        controller.scale as int,
                        controller.decay_rate,
                        dt as int,
                    ) as i64,
                },
            ),
        ))),
        final(buffer).wf(),
{
    match controller.view {
        CameraView2d::Manual => {
            buffer.reset();
            Ok(None)
        },
        CameraView2d::Follow { distance } => {
            let st = match camera {
                Some(s) => *s,
                None => {
                    return Err(CameraError::MissingEntity);
                },
            };
            let new_scale = match controller.decay_rate {
                DecayRate::Finite(rate) => crate::smooth::nudge(
                    st.scale,
                    controller.scale,
                    rate,
                    dt,
                ),
                DecayRate::Infinite => controller.scale,
            };
            let tt = controller_translation.plus(controller.offset);
            let dx = tt.x - st.translation.x;
            let dy = tt.y - st.translation.y;
            let planar = FxVec2 { x: dx, y: dy };
            let cur = crate::vec::v2_length(planar);
            proof {
                assert(v2_norm_sq(planar) <= 0x48_0000_0000_0000_0000) by (nonlinear_arith)
                    requires
                        v2_in_lim(planar, 0x6_0000_0000),
                        v2_norm_sq(planar) == planar.x * planar.x + planar.y * planar.y,
                ;
                assert((cur as int) <= 0x10_0000_0000) by (nonlinear_arith)
                    requires
                        cur >= 0,
                        (cur as int) * (cur as int) <= 0x48_0000_0000_0000_0000,
                ;
            }
            if cur == 0 {
                return Ok(Some(Camera2dState { translation: st.translation, scale: new_scale }));
            }
            if cur > distance {
                let nd = match controller.decay_rate {
                    DecayRate::Finite(rate) => crate::smooth::nudge(cur, distance, rate, dt),
                    DecayRate::Infinite => distance,
                };
                proof {
                    crate::fixed::lemma_div_tz_ratio(dx as int, cur - nd, cur as int);
                    crate::fixed::lemma_div_tz_ratio(dy as int, cur - nd, cur as int);
                }
                let mx = crate::fixed::mul_div_tz(dx, cur - nd, cur);
                let my = crate::fixed::mul_div_tz(dy, cur - nd, cur);
                Ok(
                    Some(
                        Camera2dState {
                            translation: FxVec3 {
                                x: st.translation.x + mx,
                                y: st.translation.y + my,
                                z: st.translation.z,
                            },
                            scale: new_scale,
                        },
                    ),
                )
            } else {
                Ok(Some(Camera2dState { translation: st.translation, scale: new_scale }))
            }
        },
    }
}

} // verus!
