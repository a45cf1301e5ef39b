//! Per-tick resolution: the generalized controller's two stages and the
//! specialized two- and three-axis controllers.

use camera_core::controller::CameraAnchor;
use camera_core::controller::CameraBuffer;
use camera_core::controller::CameraController;
use camera_core::controller::CameraView;
use camera_core::controller2d::Camera2dState;
use camera_core::controller2d::CameraController2d;
use camera_core::controller2d::CameraView2d;
use camera_core::controller3d::resolve_follow;
use camera_core::controller3d::update_camera3d;
use camera_core::controller3d::Camera3dStep;
use camera_core::controller3d::CameraController3d;
use camera_core::controller3d::CameraView3d;
use camera_core::controller2d::update_camera2d;
use camera_core::fixed::SCALE;
use camera_core::input::DeltaBuffer;
use camera_core::quat::FxQuat;
use camera_core::tick::consume_buffers;
use camera_core::tick::update_camera;
use camera_core::tick::CameraError;
use camera_core::transform::FxTransform;
use camera_core::vec::v3_length;
use camera_core::vec::FxVec2;
use camera_core::vec::FxVec3;

fn identity() -> FxQuat {
    FxQuat { x: 0, y: 0, z: 0, w: SCALE }
}

fn at(x: i64, y: i64, z: i64) -> FxTransform {
    FxTransform { translation: FxVec3 { x, y, z }, rotation: identity() }
}

#[test]
fn missing_camera_skips_consumption() {
    let c = CameraController::new(1, CameraAnchor::Yaw, CameraView::Free);
    let mut b = CameraBuffer::default();
    b.update(FxVec2 { x: SCALE, y: SCALE });
    let r = consume_buffers(&c, &mut b, None, SCALE);
    assert_eq!(r, Err(CameraError::MissingEntity));
    // nothing was consumed
    assert_eq!(b.read(), FxVec2 { x: SCALE, y: SCALE });
}

#[test]
fn yaw_anchor_turns_instead_of_moving() {
    // the yaw anchor is free look: delta.x yaws about the world axis,
    // accumulated into the buffer rotation that the free view then
    // writes to the camera; the camera is not displaced
    let c = CameraController::new(1, CameraAnchor::Yaw, CameraView::Free);
    let mut b = CameraBuffer::default();
    b.update(FxVec2 { x: 32768, y: 0 });
    let cam = at(3, 4, 5);
    let r = consume_buffers(&c, &mut b, Some(&cam), SCALE).unwrap();
    assert_eq!(r, cam);
    assert_eq!(b.rotation, FxQuat { x: 0, y: 16214, z: 0, w: 63498 });
    assert_eq!(b.read(), FxVec2 { x: 0, y: 0 });
    // the placement stage then orients the camera from the buffer
    let ct = at(0, 0, 0);
    let placed = update_camera(&c, &b, Some(&ct), Some(&cam), None, SCALE).unwrap();
    assert_eq!(placed.rotation, b.rotation);
    assert_eq!(placed.translation, cam.translation);
}

#[test]
fn plane_anchor_moves_only_in_the_plane() {
    let c = CameraController::new(
        1,
        CameraAnchor::Plane { normal: FxVec3 { x: 0, y: 0, z: SCALE } },
        CameraView::Free,
    );
    let mut b = CameraBuffer::default();
    b.update(FxVec2 { x: SCALE, y: 2 * SCALE });
    let cam = at(0, 0, 3 * SCALE);
    let r = consume_buffers(&c, &mut b, Some(&cam), SCALE).unwrap();
    // in-plane axes for a +z normal are +y (rejected yaw axis) and +x
    assert_eq!(r.translation, FxVec3 { x: SCALE, y: 2 * SCALE, z: 3 * SCALE });
    // the move never leaves the plane: z is untouched
    assert_eq!(r.translation.z, cam.translation.z);
}

#[test]
fn tilted_plane_displacement_stays_in_the_plane() {
    // a normal tilted off the axes: the pan still never leaves the plane
    let normal = FxVec3 { x: 39322, y: 52429, z: 0 };
    let c = CameraController::new(1, CameraAnchor::Plane { normal }, CameraView::Free);
    let mut b = CameraBuffer::default();
    b.update(FxVec2 { x: SCALE, y: 2 * SCALE });
    let cam = at(0, 0, 0);
    let r = consume_buffers(&c, &mut b, Some(&cam), SCALE).unwrap();
    assert_eq!(r.translation, FxVec3 { x: -104858, y: 78644, z: -65536 });
    let dot = (r.translation.x as i128) * (normal.x as i128) + (r.translation.y as i128)
        * (normal.y as i128) + (r.translation.z as i128) * (normal.z as i128);
    // orthogonal to the normal within rounding; here exactly
    assert_eq!(dot, 0);
}

#[test]
fn degenerate_plane_skips_the_move() {
    // yaw axis parallel to the plane normal leaves no in-plane axes
    let c = CameraController::new(
        1,
        CameraAnchor::Plane { normal: FxVec3 { x: 0, y: SCALE, z: 0 } },
        CameraView::Free,
    );
    let mut b = CameraBuffer::default();
    b.update(FxVec2 { x: SCALE, y: SCALE });
    let cam = at(7, 8, 9);
    let r = consume_buffers(&c, &mut b, Some(&cam), SCALE).unwrap();
    assert_eq!(r.translation, cam.translation);
    // the input was still consumed for the tick
    assert_eq!(b.read(), FxVec2 { x: 0, y: 0 });
}

#[test]
fn orbit_anchor_accumulates_rotation_in_the_buffer() {
    let c = CameraController::new(1, CameraAnchor::Orbit { distance: 5 * SCALE }, CameraView::Free);
    let mut b = CameraBuffer::default();
    b.update(FxVec2 { x: 32768, y: 0 });
    let cam = at(0, 0, 10 * SCALE);
    let r = consume_buffers(&c, &mut b, Some(&cam), SCALE).unwrap();
    // the camera transform is not written by the consumption stage
    assert_eq!(r, cam);
    // a half-radian yaw about +y lands in the buffer rotation
    assert_eq!(b.rotation, FxQuat { x: 0, y: 16214, z: 0, w: 63498 });
    assert_eq!(b.read(), FxVec2 { x: 0, y: 0 });
}

#[test]
fn orbit_snaps_to_configured_distance_in_one_tick() {
    // infinite decay rate, target at the origin, camera at distance 10:
    // one tick later the camera sits exactly at distance 5 along the
    // buffer rotation (the identity here)
    let c = CameraController::new(1, CameraAnchor::Orbit { distance: 5 * SCALE }, CameraView::Free);
    let b = CameraBuffer::default();
    let ct = at(0, 0, 0);
    let cam = at(0, 0, 10 * SCALE);
    let r = update_camera(&c, &b, Some(&ct), Some(&cam), None, SCALE).unwrap();
    assert_eq!(r.translation, FxVec3 { x: 0, y: 0, z: 5 * SCALE });
    assert_eq!(r.rotation, identity());
    assert_eq!(v3_length(r.translation), 5 * SCALE);
}

#[test]
fn orbit_converges_to_configured_distance_under_smoothing() {
    let c = CameraController::new(1, CameraAnchor::Orbit { distance: 5 * SCALE }, CameraView::Free)
        .with_smoothing(SCALE);
    let b = CameraBuffer::default();
    let ct = at(0, 0, 0);
    let mut cam = at(0, 0, 10 * SCALE);
    let mut last = v3_length(cam.translation) - 5 * SCALE;
    for _ in 0..50 {
        let r = update_camera(&c, &b, Some(&ct), Some(&cam), None, SCALE).unwrap();
        cam = r;
        let residue = v3_length(cam.translation) - 5 * SCALE;
        assert!(residue.abs() <= last.abs());
        last = residue;
    }
    // after fifty half-lives the distance is the configured radius
    assert_eq!(v3_length(cam.translation), 5 * SCALE);
}

#[test]
fn point_anchor_snaps_onto_the_target() {
    let c = CameraController::new(1, CameraAnchor::Point, CameraView::Free);
    let b = CameraBuffer::default();
    let ct = at(2 * SCALE, 0, -SCALE);
    let cam = at(0, 0, 10 * SCALE);
    let r = update_camera(&c, &b, Some(&ct), Some(&cam), None, SCALE).unwrap();
    assert_eq!(r.translation, ct.translation);
}

#[test]
fn target_view_looks_at_the_target() {
    // a camera on +z looking at a target below the origin on -z keeps
    // the identity orientation: its backward axis already faces +z
    let c = CameraController::new(1, CameraAnchor::Yaw, CameraView::Target(9));
    let mut b = CameraBuffer::default();
    let ct = at(0, 0, 0);
    let cam = at(0, 0, 5 * SCALE);
    let tg = at(0, 0, -5 * SCALE);
    let r = update_camera(&c, &b, Some(&ct), Some(&cam), Some(&tg), SCALE).unwrap();
    assert_eq!(r.rotation, identity());
    // a missing target skips the controller instead
    b.reset();
    let e = update_camera(&c, &b, Some(&ct), Some(&cam), None, SCALE);
    assert_eq!(e, Err(CameraError::MissingEntity));
}

#[test]
fn plane_anchor_skips_look_at() {
    let c = CameraController::new(
        1,
        CameraAnchor::Plane { normal: FxVec3 { x: 0, y: 0, z: SCALE } },
        CameraView::Target(9),
    );
    let b = CameraBuffer::default();
    let ct = at(0, 0, 0);
    let cam = FxTransform {
        translation: FxVec3 { x: SCALE, y: 0, z: 0 },
        rotation: FxQuat { x: 0, y: 16214, z: 0, w: 63498 },
    };
    // no target is needed, and the orientation stays as the anchor left it
    let r = update_camera(&c, &b, Some(&ct), Some(&cam), None, SCALE).unwrap();
    assert_eq!(r.rotation, cam.rotation);
    assert_eq!(r.translation, cam.translation);
}

#[test]
fn look_at_turns_the_camera_toward_the_target() {
    // from +x looking back at the origin: a quarter turn about +y,
    // whose half-angle sine and cosine land on the fixed-point
    // rendering of one over root two
    let cam = at(5 * SCALE, 0, 0);
    let up = FxVec3 { x: 0, y: SCALE, z: 0 };
    let r = cam.look_at(FxVec3 { x: 0, y: 0, z: 0 }, up);
    assert_eq!(r.translation, cam.translation);
    assert_eq!(r.rotation, FxQuat { x: 0, y: 46340, z: 0, w: 46341 });
}

#[test]
fn look_at_from_the_target_itself_keeps_the_rotation() {
    let cam = FxTransform {
        translation: FxVec3 { x: SCALE, y: 0, z: 0 },
        rotation: FxQuat { x: 0, y: 16214, z: 0, w: 63498 },
    };
    let r = cam.look_at(cam.translation, FxVec3 { x: 0, y: SCALE, z: 0 });
    assert_eq!(r.rotation, cam.rotation);
}

#[test]
fn follow2d_dead_zone_leaves_camera_still() {
    // inside the follow radius there is no pull at all
    let c = CameraController2d::new(1, CameraView2d::Follow { distance: 5 * SCALE });
    let mut b = DeltaBuffer::default();
    let ct = FxVec3 { x: 3 * SCALE, y: 0, z: 0 };
    let st = Camera2dState { translation: FxVec3 { x: 0, y: 0, z: 0 }, scale: SCALE };
    let r = update_camera2d(&c, &mut b, &ct, Some(&st), SCALE).unwrap().unwrap();
    assert_eq!(r.translation, st.translation);
    assert_eq!(r.scale, SCALE);
}

#[test]
fn follow2d_pulls_in_to_the_radius_when_outside() {
    let c = CameraController2d::new(1, CameraView2d::Follow { distance: 5 * SCALE });
    let mut b = DeltaBuffer::default();
    let ct = FxVec3 { x: 10 * SCALE, y: 0, z: 0 };
    let st = Camera2dState { translation: FxVec3 { x: 0, y: 0, z: 7 }, scale: SCALE };
    let r = update_camera2d(&c, &mut b, &ct, Some(&st), SCALE).unwrap().unwrap();
    // snapped straight in to the follow radius, in the plane only
    assert_eq!(r.translation, FxVec3 { x: 5 * SCALE, y: 0, z: 7 });
}

#[test]
fn follow2d_zoom_snaps_to_configured_scale() {
    let c = CameraController2d::new(1, CameraView2d::Follow { distance: 5 * SCALE }).with_zoom(
        2 * SCALE,
    );
    assert_eq!(c.scale, SCALE / 2);
    let mut b = DeltaBuffer::default();
    let ct = FxVec3 { x: 0, y: 0, z: 0 };
    let st = Camera2dState { translation: FxVec3 { x: SCALE, y: 0, z: 0 }, scale: SCALE };
    let r = update_camera2d(&c, &mut b, &ct, Some(&st), SCALE).unwrap().unwrap();
    assert_eq!(r.scale, SCALE / 2);
}

#[test]
fn zoom_builders_store_reciprocals() {
    let mut c = CameraController2d::new(1, CameraView2d::Manual);
    c.set_zoom(4 * SCALE);
    assert_eq!(c.scale, SCALE / 4);
    c.zoom_by(2 * SCALE);
    assert_eq!(c.scale, SCALE / 8);
}

#[test]
fn manual_mode_drains_buffer_without_moving_camera() {
    // a mode switch into manual control while input is still buffered:
    // the next tick drains the buffer and writes nothing
    let c3 = CameraController3d::new(1, CameraView3d::Manual);
    let mut b = DeltaBuffer::default();
    b.update(FxVec2 { x: 3 * SCALE, y: 3 * SCALE });
    let ct = at(0, 0, 0);
    let cam = at(9, 9, 9);
    let r = update_camera3d(&c3, &mut b, &ct, Some(&cam), SCALE);
    assert_eq!(r, Ok(None));
    assert_eq!(b.read(), FxVec2 { x: 0, y: 0 });
}

#[test]
fn manual_mode_2d_also_drains() {
    let c = CameraController2d::new(1, CameraView2d::Manual);
    let mut b = DeltaBuffer::default();
    b.update(FxVec2 { x: 3 * SCALE, y: 3 * SCALE });
    let ct = FxVec3 { x: 0, y: 0, z: 0 };
    let r = update_camera2d(&c, &mut b, &ct, None, SCALE);
    assert_eq!(r, Ok(None));
    assert_eq!(b.read(), FxVec2 { x: 0, y: 0 });
}

#[test]
fn perspective_snaps_to_target_point() {
    let c3 = CameraController3d::new(1, CameraView3d::Perspective);
    let mut b = DeltaBuffer::default();
    let ct = at(2 * SCALE, SCALE, 0);
    let cam = at(0, 0, 10 * SCALE);
    let r = update_camera3d(&c3, &mut b, &ct, Some(&cam), SCALE).unwrap().unwrap();
    match r {
        Camera3dStep::Placed { transform } => {
            assert_eq!(transform.translation, ct.translation);
            assert_eq!(transform.rotation, identity());
        },
        _ => panic!("perspective view must place the camera directly"),
    }
}

#[test]
fn follow3d_hands_back_the_obstruction_ray() {
    let c3 = CameraController3d::new(
        1,
        CameraView3d::Follow { distance: 5 * SCALE, back_distance: SCALE / 2 },
    );
    let mut b = DeltaBuffer::default();
    let ct = at(0, 0, 0);
    let cam = at(0, 0, 10 * SCALE);
    let r = update_camera3d(&c3, &mut b, &ct, Some(&cam), SCALE).unwrap().unwrap();
    match r {
        Camera3dStep::NeedsRay {
            rotation,
            target_translation,
            desired_distance,
            back_distance,
            ray_origin,
            ray_direction,
            ray_length,
        } => {
            assert_eq!(rotation, identity());
            assert_eq!(target_translation, FxVec3 { x: 0, y: 0, z: 0 });
            assert_eq!(desired_distance, 5 * SCALE);
            assert_eq!(back_distance, SCALE / 2);
            assert_eq!(ray_origin, FxVec3 { x: 0, y: 0, z: 0 });
            assert_eq!(ray_direction, FxVec3 { x: 0, y: 0, z: SCALE });
            assert_eq!(ray_length, 5 * SCALE + SCALE / 2);
        },
        _ => panic!("the follow view must ask for the obstruction ray"),
    }
}

#[test]
fn obstruction_hit_shortens_the_follow_distance() {
    let origin = FxVec3 { x: 0, y: 0, z: 0 };
    // a hit at distance 3 pulls the camera to 3 less the back margin
    let hit = resolve_follow(identity(), origin, 5 * SCALE, SCALE / 2, Some(3 * SCALE));
    assert_eq!(hit.translation, FxVec3 { x: 0, y: 0, z: 3 * SCALE - SCALE / 2 });
    // no hit leaves the desired distance unchanged
    let free = resolve_follow(identity(), origin, 5 * SCALE, SCALE / 2, None);
    assert_eq!(free.translation, FxVec3 { x: 0, y: 0, z: 5 * SCALE });
}

#[test]
fn missing_camera_skips_3d_resolution() {
    let c3 = CameraController3d::new(1, CameraView3d::Perspective);
    let mut b = DeltaBuffer::default();
    b.update(FxVec2 { x: SCALE, y: 0 });
    let ct = at(0, 0, 0);
    let r = update_camera3d(&c3, &mut b, &ct, None, SCALE);
    assert_eq!(r, Err(CameraError::MissingEntity));
    assert_eq!(b.read(), FxVec2 { x: SCALE, y: 0 });
}

#[test]
fn missing_camera_skips_2d_follow() {
    let c = CameraController2d::new(1, CameraView2d::Follow { distance: SCALE });
    let mut b = DeltaBuffer::default();
    let ct = FxVec3 { x: 0, y: 0, z: 0 };
    let r = update_camera2d(&c, &mut b, &ct, None, SCALE);
    assert_eq!(r, Err(CameraError::MissingEntity));
}

#[test]
fn missing_camera_skips_placement() {
    let c = CameraController::new(1, CameraAnchor::Point, CameraView::Free);
    let b = CameraBuffer::default();
    let ct = at(0, 0, 0);
    let r = update_camera(&c, &b, Some(&ct), None, None, SCALE);
    assert_eq!(r, Err(CameraError::MissingEntity));
    let r2 = update_camera(&c, &b, None, Some(&ct), None, SCALE);
    assert_eq!(r2, Err(CameraError::MissingEntity));
}

#[test]
fn free_view_writes_the_buffer_rotation() {
    let c = CameraController::new(1, CameraAnchor::Yaw, CameraView::Free);
    let mut b = CameraBuffer::default();
    b.rotation = FxQuat { x: 0, y: 16214, z: 0, w: 63498 };
    let ct = at(0, 0, 0);
    let cam = at(0, 0, 0);
    let r = update_camera(&c, &b, Some(&ct), Some(&cam), None, SCALE).unwrap();
    assert_eq!(r.rotation, b.rotation);
}

#[test]
fn pitch_delta_is_dropped_when_limited() {
    // with a zero pitch range the vertical delta contributes nothing,
    // while the yaw delta still turns the buffer rotation
    let c = CameraController::new(1, CameraAnchor::Orbit { distance: SCALE }, CameraView::Free)
        .with_pitch_range(0);
    let mut b = CameraBuffer::default();
    b.update(FxVec2 { x: 0, y: 32768 });
    let cam = at(0, 0, 10 * SCALE);
    consume_buffers(&c, &mut b, Some(&cam), SCALE).unwrap();
    assert_eq!(b.rotation, FxQuat { x: 0, y: 0, z: 0, w: SCALE });
}
