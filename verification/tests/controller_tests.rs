//! Controller configuration, the pitch limiter, and the fixed-point
//! arithmetic and geometry the resolvers are built from.

use camera_core::controller::CameraAnchor;
use camera_core::controller::CameraBuffer;
use camera_core::controller::CameraController;
use camera_core::controller::CameraView;
use camera_core::controller::DecayRate;
use camera_core::fixed::fx_div;
use camera_core::fixed::fx_mul;
use camera_core::fixed::SCALE;
use camera_core::quat::quat_mul;
use camera_core::quat::quat_rotate;
use camera_core::quat::from_rotation_x;
use camera_core::quat::FxQuat;
use camera_core::smooth::exp_neg;
use camera_core::smooth::nudge;
use camera_core::trig::cos_fx;
use camera_core::trig::sin_fx;
use camera_core::trig::HALF_PI_FX;
use camera_core::trig::PI_FX;
use camera_core::vec::v3_cross;
use camera_core::vec::v3_length;
use camera_core::vec::v3_normalize;
use camera_core::vec::FxVec2;
use camera_core::vec::FxVec3;

fn identity() -> FxQuat {
    FxQuat { x: 0, y: 0, z: 0, w: SCALE }
}

#[test]
fn fixed_point_products_and_quotients() {
    assert_eq!(fx_mul(2 * SCALE, 3 * SCALE), 6 * SCALE);
    assert_eq!(fx_mul(-2 * SCALE, 3 * SCALE), -6 * SCALE);
    // rounding is toward zero on both sides
    assert_eq!(fx_mul(1, 1), 0);
    assert_eq!(fx_mul(-1, 1), 0);
    assert_eq!(fx_div(SCALE, 2 * SCALE), SCALE / 2);
    assert_eq!(fx_div(-SCALE, 2 * SCALE), -(SCALE / 2));
}

#[test]
fn decay_fraction_endpoints() {
    assert_eq!(exp_neg(0), SCALE);
    // one half-life keeps exactly one half
    assert_eq!(exp_neg(45426), SCALE / 2);
    // a unit exponent keeps about 1/e
    assert_eq!(exp_neg(SCALE), 24108);
}

#[test]
fn nudge_moves_toward_target_without_overshoot() {
    // from 10 toward 0 at rate 1 over one second: about 10/e remains
    assert_eq!(nudge(10 * SCALE, 0, SCALE, SCALE), 241080);
    // zero elapsed time moves nothing
    assert_eq!(nudge(10 * SCALE, 0, SCALE, 0), 10 * SCALE);
    // from below the target the step also stays between
    let r = nudge(0, 10 * SCALE, SCALE, SCALE);
    assert!(0 <= r && r <= 10 * SCALE);
}

#[test]
fn trig_exact_values() {
    assert_eq!(cos_fx(0), SCALE);
    assert_eq!(sin_fx(0), 0);
    assert_eq!(cos_fx(PI_FX), -SCALE);
    assert_eq!(sin_fx(PI_FX), 0);
    assert_eq!(cos_fx(HALF_PI_FX), 0);
    assert_eq!(sin_fx(HALF_PI_FX), 65526);
    assert_eq!(cos_fx(16384), 63498);
    assert_eq!(sin_fx(16384), 16214);
    assert_eq!(sin_fx(-16384), -16214);
    assert_eq!(cos_fx(-16384), 63498);
}

#[test]
fn vector_length_and_normalization() {
    let v = FxVec3 { x: 3 * SCALE, y: 4 * SCALE, z: 0 };
    assert_eq!(v3_length(v), 5 * SCALE);
    let (unit, len) = v3_normalize(v);
    assert_eq!(len, 5 * SCALE);
    assert_eq!(unit, FxVec3 { x: 39321, y: 52428, z: 0 });
}

#[test]
fn cross_product_is_exact_at_product_scale() {
    let x = FxVec3 { x: SCALE, y: 0, z: 0 };
    let y = FxVec3 { x: 0, y: SCALE, z: 0 };
    let c = v3_cross(x, y);
    assert_eq!(c, FxVec3 { x: 0, y: 0, z: SCALE * SCALE });
}

#[test]
fn quaternion_identity_laws() {
    let v = FxVec3 { x: 123456, y: -654321, z: 42 };
    assert_eq!(quat_rotate(identity(), v), v);
    assert_eq!(quat_mul(identity(), identity()), identity());
    assert_eq!(from_rotation_x(0), identity());
}

#[test]
fn controller_defaults() {
    let c = CameraController::new(7, CameraAnchor::Point, CameraView::Free);
    assert_eq!(c.camera, 7);
    assert_eq!(c.sensitivity, SCALE);
    assert_eq!(c.offset, FxVec3 { x: 0, y: 0, z: 0 });
    assert_eq!(c.get_translation_decay_rate(), DecayRate::Infinite);
    assert_eq!(c.get_rotation_decay_rate(), DecayRate::Infinite);
    assert_eq!(c.yaw_axis, FxVec3 { x: 0, y: SCALE, z: 0 });
    assert!(c.pitch_range.is_none());
}

#[test]
fn builders_set_their_fields() {
    let c = CameraController::new(1, CameraAnchor::Point, CameraView::Free)
        .with_sensitivity(2 * SCALE)
        .with_offset(FxVec3 { x: 0, y: SCALE, z: 0 })
        .with_yaw_axis(FxVec3 { x: 0, y: 0, z: SCALE });
    assert_eq!(c.sensitivity, 2 * SCALE);
    assert_eq!(c.offset, FxVec3 { x: 0, y: SCALE, z: 0 });
    assert_eq!(c.yaw_axis, FxVec3 { x: 0, y: 0, z: SCALE });
}

#[test]
fn smoothing_stores_the_reciprocal_rate() {
    let c = CameraController::new(1, CameraAnchor::Point, CameraView::Free).with_smoothing(
        2 * SCALE,
    );
    // a smoothing factor of two gives a decay rate of one half
    assert_eq!(c.get_translation_decay_rate(), DecayRate::Finite(SCALE / 2));
    assert_eq!(c.get_rotation_decay_rate(), DecayRate::Finite(SCALE / 2));
    let c = c.with_translation_smoothing(SCALE);
    assert_eq!(c.get_translation_decay_rate(), DecayRate::Finite(SCALE));
    assert_eq!(c.get_rotation_decay_rate(), DecayRate::Finite(SCALE / 2));
    let c = c.with_rotation_smoothing(SCALE / 2);
    assert_eq!(c.get_rotation_decay_rate(), DecayRate::Finite(2 * SCALE));
}

#[test]
fn pitch_range_zero_accepts_only_untilted() {
    // a zero range stores cos(0) = one unit, so only a pitch that keeps
    // the yaw axis fully upright passes
    let c = CameraController::new(1, CameraAnchor::Point, CameraView::Free).with_pitch_range(0);
    assert_eq!(c.pitch_range, Some(SCALE));
    assert!(c.can_rotate_pitch(0, identity()));
    assert!(!c.can_rotate_pitch(32768, identity()));
    assert!(!c.can_rotate_pitch(-32768, identity()));
}

#[test]
fn pitch_limiter_measures_along_the_yaw_axis() {
    // yaw axis +x, camera rolled a quarter turn about z: its up vector
    // lies along +x, fully aligned with the yaw axis, so even a zero
    // range accepts a zero pitch — the world-vertical component would
    // wrongly reject it
    let c = CameraController::new(1, CameraAnchor::Point, CameraView::Free)
        .with_yaw_axis(FxVec3 { x: SCALE, y: 0, z: 0 })
        .with_pitch_range(0);
    let rolled = FxQuat { x: 0, y: 0, z: -46341, w: 46341 };
    assert!(c.can_rotate_pitch(0, rolled));
    // while an untilted camera's up (+y) has no component along +x
    assert!(!c.can_rotate_pitch(0, identity()));
}

#[test]
fn no_pitch_range_accepts_everything() {
    let c = CameraController::new(1, CameraAnchor::Point, CameraView::Free);
    assert!(c.can_rotate_pitch(0, identity()));
    assert!(c.can_rotate_pitch(3 * SCALE, identity()));
    assert!(c.can_rotate_pitch(-3 * SCALE, identity()));
}

#[test]
fn wide_pitch_range_accepts_small_pitches() {
    // a half-turn range stores cos(pi/4), letting small tilts through
    let c = CameraController::new(1, CameraAnchor::Point, CameraView::Free).with_pitch_range(
        HALF_PI_FX,
    );
    assert!(c.can_rotate_pitch(16384, identity()));
    assert!(!c.can_rotate_pitch(HALF_PI_FX + 16384, identity()));
}

#[test]
fn rotation_delta_scales_by_sensitivity() {
    let c = CameraController::new(1, CameraAnchor::Point, CameraView::Free).with_sensitivity(
        SCALE / 2,
    );
    let mut b = CameraBuffer::default();
    b.update(FxVec2 { x: 4 * SCALE, y: 2 * SCALE });
    // infinite rate takes the whole buffer, then halves it
    let d = c.get_rotation_delta(&mut b, SCALE);
    assert_eq!(d, FxVec2 { x: 2 * SCALE, y: SCALE });
    assert_eq!(b.read(), FxVec2 { x: 0, y: 0 });
}
