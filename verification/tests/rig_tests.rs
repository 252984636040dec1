//! Rig-level behavior: chain order, lookup, warm-up, and the ported
//! builder examples.

use dolly::driver::{Driver, DriverKind, RigDriverTraits};
use dolly::drivers::{Arm, LockPosition, LockRotation, LookAt, Position, Rotation, Smooth, YawPitch};
use dolly::fixed::{COORD_MAX, FP_ONE, FP_SQ};
use dolly::prelude::CameraRig;
use dolly::quaternion::{Quat, UNIT_NSQ_TOL};
use dolly::transform::Transform;
use dolly::vector::Vec3;

fn fp(x: f64) -> i64 {
    (x * (FP_ONE as f64)).round() as i64
}

fn approx(a: i64, b: i64, tol: i64) -> bool {
    (a - b).abs() <= tol
}

fn assert_unit(q: Quat) {
    let nsq = (q.x as i128) * (q.x as i128)
        + (q.y as i128) * (q.y as i128)
        + (q.z as i128) * (q.z as i128)
        + (q.w as i128) * (q.w as i128);
    let lo = (FP_SQ - UNIT_NSQ_TOL) as i128;
    let hi = (FP_SQ + UNIT_NSQ_TOL) as i128;
    assert!(lo <= nsq && nsq <= hi, "rotation is not unit length: {nsq}");
}

#[test]
fn empty_rig_yields_the_identity_pose() {
    let mut rig = CameraRig::builder().build();
    let t = rig.update(fp(1.0 / 60.0));
    assert_eq!(t.position, Vec3 { x: 0, y: 0, z: 0 });
    assert_eq!(t.rotation, Quat { x: 0, y: 0, z: 0, w: FP_ONE });
}

#[test]
fn extreme_coordinates_saturate() {
    let mut p = Position::new(Vec3 { x: COORD_MAX, y: 0, z: 0 });
    // Translating past the bound pins the coordinate at the bound.
    p.translate(Vec3 { x: COORD_MAX, y: 0, z: 0 });
    assert_eq!(p.position.x, COORD_MAX);
    let mut rig = CameraRig::builder().with(Driver::Position(p)).build();
    let t = rig.update(fp(1.0 / 60.0));
    assert_eq!(t.position.x, COORD_MAX);
}

#[test]
fn position_overrides_position_and_passes_rotation() {
    let target = Vec3 { x: fp(5.0), y: fp(-2.0), z: fp(7.0) };
    let mut rig = CameraRig::builder()
        .with(Driver::YawPitch(YawPitch::new().yaw_degrees(fp(45.0))))
        .with(Driver::Position(Position::new(target)))
        .build();
    let t = rig.update(fp(1.0 / 60.0));
    // The position is the stored target, exactly.
    assert_eq!(t.position, target);
    // The rotation is the yaw stage's output, passed through unchanged.
    let expected_rot = Quat::from_yaw_pitch(fp(45.0), 0);
    assert_eq!(t.rotation, expected_rot);
    assert_unit(t.rotation);
}

#[test]
fn arm_offsets_by_rotated_offset() {
    // Parent at the origin with the identity rotation: output position is
    // the offset itself, exactly.
    let mut rig = CameraRig::builder()
        .with(Driver::Arm(Arm::new(Vec3 { x: fp(1.0), y: fp(2.0), z: fp(3.0) })))
        .build();
    let t = rig.update(0);
    assert_eq!(t.position, Vec3 { x: fp(1.0), y: fp(2.0), z: fp(3.0) });

    // Rotating the parent 90 degrees about Y maps the offset (0, 0, 1)
    // close to (1, 0, 0).
    let mut rig = CameraRig::builder()
        .with(Driver::YawPitch(YawPitch::new().yaw_degrees(fp(90.0))))
        .with(Driver::Arm(Arm::new(Vec3 { x: 0, y: 0, z: fp(1.0) })))
        .build();
    let t = rig.update(0);
    let tol = fp(0.01);
    assert!(approx(t.position.x, fp(1.0), tol), "x = {}", t.position.x);
    assert!(approx(t.position.y, 0, tol), "y = {}", t.position.y);
    assert!(approx(t.position.z, 0, tol), "z = {}", t.position.z);
}

#[test]
fn chain_order_matters() {
    let mut ab = CameraRig::builder()
        .with(Driver::Position(Position::new(Vec3 { x: fp(5.0), y: 0, z: 0 })))
        .with(Driver::Arm(Arm::new(Vec3 { x: 0, y: 0, z: fp(1.0) })))
        .build();
    let mut ba = CameraRig::builder()
        .with(Driver::Arm(Arm::new(Vec3 { x: 0, y: 0, z: fp(1.0) })))
        .with(Driver::Position(Position::new(Vec3 { x: fp(5.0), y: 0, z: 0 })))
        .build();
    let t_ab = ab.update(fp(1.0 / 60.0));
    let t_ba = ba.update(fp(1.0 / 60.0));
    // Position then Arm: the arm extends the set position.
    assert_eq!(t_ab.position, Vec3 { x: fp(5.0), y: 0, z: fp(1.0) });
    // Arm then Position: the position overwrite discards the arm's offset.
    assert_eq!(t_ba.position, Vec3 { x: fp(5.0), y: 0, z: 0 });
    assert_ne!(t_ab.position, t_ba.position);
}

#[test]
fn lookup_returns_first_of_kind_and_none_when_absent() {
    let mut rig = CameraRig::builder()
        .with(Driver::Position(Position::new(Vec3 { x: fp(1.0), y: 0, z: 0 })))
        .with(Driver::YawPitch(YawPitch::new()))
        .build();
    assert!(rig.try_driver(DriverKind::YawPitch).is_some());
    // The non-panicking accessor returns empty for a kind not present.
    assert!(rig.try_driver(DriverKind::LookAt).is_none());
    assert!(rig.try_driver_mut(DriverKind::Smooth).is_none());

    // The panicking accessor finds the first of the kind.
    let d = rig.driver(DriverKind::Position);
    match d {
        Driver::Position(p) => assert_eq!(p.position.x, fp(1.0)),
        other => panic!("wrong driver kind: {:?}", other.kind()),
    }
}

#[test]
fn driver_mut_tunes_a_stage() {
    let mut rig = CameraRig::builder()
        .with(Driver::Position(Position::new(Vec3 { x: 0, y: 0, z: 0 })))
        .build();
    match rig.driver_mut(DriverKind::Position) {
        Driver::Position(p) => {
            p.position = Vec3 { x: fp(9.0), y: 0, z: 0 };
        }
        other => panic!("wrong driver kind: {:?}", other.kind()),
    }
    let t = rig.update(fp(1.0 / 60.0));
    assert_eq!(t.position.x, fp(9.0));
}

#[test]
fn yaw_wraps_modulo_720_degrees() {
    let mut yp = YawPitch::new().yaw_degrees(fp(715.0));
    yp.rotate_yaw_pitch(fp(10.0), 0);
    // 715 + 10 wraps modulo 720 to 5 degrees, not modulo 360.
    assert_eq!(yp.yaw_degrees, fp(5.0));
    // A negative sum wraps up into [0, 720).
    let mut yp = YawPitch::new();
    yp.rotate_yaw_pitch(fp(-90.0), 0);
    assert_eq!(yp.yaw_degrees, fp(630.0));
}

#[test]
fn pitch_clamps_to_ninety_degrees() {
    let mut yp = YawPitch::new().pitch_degrees(fp(80.0));
    yp.rotate_yaw_pitch(0, fp(45.0));
    assert_eq!(yp.pitch_degrees, fp(90.0));
    yp.rotate_yaw_pitch(0, fp(-300.0));
    assert_eq!(yp.pitch_degrees, fp(-90.0));
}

#[test]
fn build_warms_the_rig_end_to_end() {
    // After build (one zero-time update) the cached transform already
    // reflects the full yaw/pitch rotation, because zero-time smoothing
    // seeds directly to its target.
    let rig = CameraRig::builder()
        .with(Driver::YawPitch(YawPitch::new().yaw_degrees(fp(45.0)).pitch_degrees(fp(-30.0))))
        .with(Driver::Smooth(Smooth::new_rotation(fp(1.5))))
        .with(Driver::Arm(Arm::new(Vec3 { x: 0, y: 0, z: fp(8.0) })))
        .build();
    let t = rig.final_transform;
    assert_unit(t.rotation);

    // Expected values from the same yaw-then-pitch rotation in f64.
    let yaw = 45.0f64.to_radians();
    let pitch = (-30.0f64).to_radians();
    let qy = (yaw / 2.0).sin();
    let qyc = (yaw / 2.0).cos();
    let qp = (pitch / 2.0).sin();
    let qpc = (pitch / 2.0).cos();
    // q = Qy * Qp.
    let (qx, qy2, qz, qw) = (
        qyc * qp,
        qy * qpc,
        -qy * qp,
        qyc * qpc,
    );
    // Rotate (0, 0, 8) by q.
    let (vx, vy, vz) = (0.0, 0.0, 8.0);
    let tx = 2.0 * (qy2 * vz - qz * vy);
    let ty = 2.0 * (qz * vx - qx * vz);
    let tz = 2.0 * (qx * vy - qy2 * vx);
    let rx = vx + qw * tx + (qy2 * tz - qz * ty);
    let ry = vy + qw * ty + (qz * tx - qx * tz);
    let rz = vz + qw * tz + (qx * ty - qy2 * tx);
    let tol = fp(0.05);
    assert!(approx(t.position.x, fp(rx), tol), "x = {} vs {}", t.position.x, fp(rx));
    assert!(approx(t.position.y, fp(ry), tol), "y = {} vs {}", t.position.y, fp(ry));
    assert!(approx(t.position.z, fp(rz), tol), "z = {} vs {}", t.position.z, fp(rz));
}

#[test]
fn lock_position_pins_coordinates() {
    let mut rig = CameraRig::builder()
        .with(Driver::Position(Position::new(Vec3 { x: fp(1.0), y: fp(2.0), z: fp(3.0) })))
        .with(Driver::LockPosition(LockPosition::new().y(fp(10.0))))
        .build();
    let t = rig.update(fp(1.0 / 60.0));
    assert_eq!(t.position, Vec3 { x: fp(1.0), y: fp(10.0), z: fp(3.0) });
}

#[test]
fn lock_rotation_without_flags_suppresses_rotation() {
    let mut rig = CameraRig::builder()
        .with(Driver::YawPitch(YawPitch::new().yaw_degrees(fp(45.0))))
        .with(Driver::LockRotation(LockRotation::new()))
        .build();
    let t = rig.update(fp(1.0 / 60.0));
    assert_eq!(t.rotation, Quat { x: 0, y: 0, z: 0, w: FP_ONE });
}

#[test]
fn lock_rotation_retains_flagged_axis() {
    // Retaining only the Y axis of a yaw-only rotation keeps it whole.
    let mut rig = CameraRig::builder()
        .with(Driver::YawPitch(YawPitch::new().yaw_degrees(fp(45.0))))
        .with(Driver::LockRotation(LockRotation::new().y()))
        .build();
    let t = rig.update(fp(1.0 / 60.0));
    let expected = Quat::from_yaw_pitch(fp(45.0), 0);
    let tol = fp(0.01);
    assert!(approx(t.rotation.x, expected.x, tol));
    assert!(approx(t.rotation.y, expected.y, tol));
    assert!(approx(t.rotation.z, expected.z, tol));
    assert!(approx(t.rotation.w, expected.w, tol));
    assert_unit(t.rotation);
}

#[test]
fn look_at_degenerate_target_gives_identity() {
    // The target coincides with the camera: the forward vector is zero and
    // the rotation falls back to the identity.
    let mut rig = CameraRig::builder()
        .with(Driver::LookAt(LookAt::new(Vec3 { x: 0, y: 0, z: 0 })))
        .build();
    let t = rig.update(fp(1.0 / 60.0));
    assert_eq!(t.rotation, Quat { x: 0, y: 0, z: 0, w: FP_ONE });
}

#[test]
fn look_at_faces_the_target() {
    // Camera at the origin, target along -Z (right-handed forward): the
    // rotation should be near the identity.
    let mut rig = CameraRig::builder()
        .with(Driver::LookAt(LookAt::new(Vec3 { x: 0, y: 0, z: fp(-4.0) })))
        .build();
    let t = rig.update(fp(1.0 / 60.0));
    assert_unit(t.rotation);
    let tol = fp(0.02);
    assert!(approx(t.rotation.x, 0, tol));
    assert!(approx(t.rotation.y, 0, tol));
    assert!(approx(t.rotation.z, 0, tol));
    assert!(approx(t.rotation.w, FP_ONE, tol));
}

#[test]
fn rotations_stay_unit_across_chains() {
    let mut rig = CameraRig::builder()
        .with(Driver::YawPitch(YawPitch::new().yaw_degrees(fp(123.0)).pitch_degrees(fp(-47.0))))
        .with(Driver::Smooth(Smooth::new_position_rotation(fp(0.7), fp(1.3))))
        .with(Driver::Arm(Arm::new(Vec3 { x: fp(0.5), y: fp(-1.5), z: fp(4.0) })))
        .with(Driver::LookAt(
            LookAt::new(Vec3 { x: fp(3.0), y: fp(1.0), z: fp(-2.0) }).tracking_smoothness(fp(1.2)),
        ))
        .build();
    for step in 0..50 {
        let t = rig.update(fp(1.0 / 60.0));
        assert_unit(t.rotation);
        if step == 25 {
            match rig.driver_mut(DriverKind::YawPitch) {
                Driver::YawPitch(yp) => yp.rotate_yaw_pitch(fp(200.0), fp(30.0)),
                other => panic!("wrong driver kind: {:?}", other.kind()),
            }
        }
    }
}

#[test]
fn pose_round_trip_is_exact() {
    // A valid pose survives construction and destruction unchanged: the
    // constructor keeps an in-range position and a near-unit rotation as
    // they are.
    let position = Vec3 { x: fp(3.25), y: fp(-1.5), z: fp(12.0) };
    let rotation = Quat::from_yaw_pitch(fp(77.0), fp(-15.0));
    let t = Transform::from_position_rotation(position, rotation);
    assert_eq!(t.into_position_rotation(), (position, rotation));
    // A far-from-unit rotation is renormalized instead.
    let skewed = Quat { x: 0, y: 0, z: 0, w: 10 * FP_ONE };
    let t = Transform::from_position_rotation(position, skewed);
    assert_eq!(t.rotation, Quat { x: 0, y: 0, z: 0, w: FP_ONE });
}

#[test]
fn set_rotation_quat_reads_back_wrapped_angles() {
    let mut yp = YawPitch::new();
    yp.set_rotation_quat(Quat::from_yaw_pitch(fp(-60.0), fp(20.0)));
    // The extracted yaw lands in [0, 720): -60 degrees reads back as 660.
    assert!(approx(yp.yaw_degrees, fp(660.0), fp(0.4)), "yaw = {}", yp.yaw_degrees);
    assert!(approx(yp.pitch_degrees, fp(20.0), fp(0.4)), "pitch = {}", yp.pitch_degrees);
}

#[test]
fn transform_axes_at_identity() {
    let t = Transform::identity();
    assert_eq!(t.right(), Vec3 { x: FP_ONE, y: 0, z: 0 });
    assert_eq!(t.up(), Vec3 { x: 0, y: FP_ONE, z: 0 });
    assert_eq!(
        t.forward(dolly::handedness::Handedness::Right),
        Vec3 { x: 0, y: 0, z: -FP_ONE }
    );
    assert_eq!(
        t.forward(dolly::handedness::Handedness::Left),
        Vec3 { x: 0, y: 0, z: FP_ONE }
    );
}

#[test]
fn orbit_example_compile_test() {
    let mut camera: CameraRig = CameraRig::builder()
        .with(Driver::YawPitch(YawPitch::new().yaw_degrees(fp(45.0)).pitch_degrees(fp(-30.0))))
        .with(Driver::Smooth(Smooth::new_rotation(fp(1.5))))
        .with(Driver::Arm(Arm::new(Vec3 { x: 0, y: 0, z: fp(4.0) })))
        .build();

    fn was_key_pressed(_: char) -> bool {
        true
    }

    let camera_driver = camera.driver_mut(DriverKind::YawPitch);
    if let Driver::YawPitch(yp) = camera_driver {
        if was_key_pressed('Z') {
            yp.rotate_yaw_pitch(fp(-90.0), 0);
        }
        if was_key_pressed('X') {
            yp.rotate_yaw_pitch(fp(90.0), 0);
        }
    }

    let time_delta_seconds = fp(1.0 / 60.0);
    camera.update(time_delta_seconds);
}

#[test]
fn follow_example_compile_test() {
    struct Car {
        position: Vec3,
        rotation: Quat,
    }

    let car = Car {
        position: Vec3 { x: 0, y: 0, z: 0 },
        rotation: Quat { x: 0, y: 0, z: 0, w: FP_ONE },
    };

    let mut camera: CameraRig = CameraRig::builder()
        .with(Driver::Position(Position::new(car.position)))
        .with(Driver::Rotation(Rotation::new(car.rotation)))
        .with(Driver::Smooth(Smooth::new_position(fp(1.25)).predictive(true)))
        .with(Driver::Arm(Arm::new(Vec3 { x: 0, y: fp(1.5), z: fp(-3.5) })))
        .with(Driver::Smooth(Smooth::new_position(fp(2.5))))
        .with(Driver::LookAt(
            LookAt::new(Vec3 { x: car.position.x, y: car.position.y + FP_ONE, z: car.position.z })
                .tracking_smoothness(fp(1.25))
                .tracking_predictive(true),
        ))
        .build();

    if let Driver::Position(p) = camera.driver_mut(DriverKind::Position) {
        p.position = car.position;
    }
    if let Driver::Rotation(r) = camera.driver_mut(DriverKind::Rotation) {
        r.rotation = car.rotation;
    }
    if let Driver::LookAt(l) = camera.driver_mut(DriverKind::LookAt) {
        l.target = Vec3 { x: car.position.x, y: car.position.y + FP_ONE, z: car.position.z };
    }
    camera.update(fp(1.0 / 60.0));
}

#[test]
fn lookat_example_compile_test() {
    let mut camera: CameraRig = CameraRig::builder()
        .with(Driver::Position(Position::new(Vec3 { x: 0, y: fp(3.0), z: 0 })))
        .with(Driver::LookAt(LookAt::new(Vec3 { x: 0, y: 0, z: 0 })))
        .build();

    let time_delta_seconds = fp(1.0 / 60.0);
    if let Driver::LookAt(l) = camera.driver_mut(DriverKind::LookAt) {
        l.target = Vec3 { x: FP_ONE, y: 0, z: 0 };
    }
    camera.update(time_delta_seconds);
}

#[test]
fn free_example_compile_test() {
    let mut camera: CameraRig = CameraRig::builder()
        .with(Driver::Position(Position::new(Vec3 { x: 0, y: FP_ONE, z: 0 })))
        .with(Driver::YawPitch(YawPitch::new()))
        .with(Driver::Smooth(Smooth::new_position_rotation(FP_ONE, FP_ONE)))
        .build();

    let move_vec = Vec3 { x: fp(0.1), y: fp(0.2), z: fp(0.3) };
    let time_delta_seconds = fp(1.0 / 60.0);

    if let Driver::YawPitch(yp) = camera.driver_mut(DriverKind::YawPitch) {
        yp.rotate_yaw_pitch(fp(-0.3), fp(-0.2));
    }
    if let Driver::Position(p) = camera.driver_mut(DriverKind::Position) {
        p.translate(Vec3 {
            x: move_vec.x * time_delta_seconds / FP_ONE,
            y: move_vec.y * time_delta_seconds / FP_ONE,
            z: move_vec.z * time_delta_seconds / FP_ONE,
        });
    }
    camera.update(time_delta_seconds);
}
