//! Scalar and smoothing behavior: fixed-point primitives, the smoothing
//! law, and the angle formulas, checked against exact values or `f64`
//! references.

use dolly::drivers::{Position, Smooth};
use dolly::driver::Driver;
use dolly::fixed::{isqrt, lerp_fp_e, rem_fp, rem_fp_wide, sat_i128, COORD_MAX, FP_ONE};
use dolly::prelude::CameraRig;
use dolly::quaternion::Quat;
use dolly::trig::{atan2_fp, cos_fp, sin_fp};
use dolly::util::{interp_t, ExpSmoothed, ExpSmoothingParams};
use dolly::vector::Vec3;

fn fp(x: f64) -> i64 {
    (x * (FP_ONE as f64)).round() as i64
}

fn approx(a: i64, b: i64, tol: i64) -> bool {
    (a - b).abs() <= tol
}

#[test]
fn isqrt_brackets_its_argument() {
    assert_eq!(isqrt(0), 0);
    assert_eq!(isqrt(1), 1);
    assert_eq!(isqrt(143), 11);
    assert_eq!(isqrt(144), 12);
    assert_eq!(isqrt(145), 12);
    assert_eq!(isqrt(u64::MAX as u128 * u64::MAX as u128), u64::MAX);
}

#[test]
fn saturation_clamps_at_the_coordinate_bound() {
    assert_eq!(sat_i128(5), 5);
    assert_eq!(sat_i128((COORD_MAX as i128) + 1), COORD_MAX);
    assert_eq!(sat_i128(-(COORD_MAX as i128) - 77), -COORD_MAX);
}

#[test]
fn remainders_are_euclidean() {
    // The Euclidean remainder is always nonnegative.
    assert_eq!(rem_fp(-90 * FP_ONE, 360 * FP_ONE), 270 * FP_ONE);
    assert_eq!(rem_fp(90 * FP_ONE, 360 * FP_ONE), 90 * FP_ONE);
    assert_eq!(rem_fp_wide(-90 * (FP_ONE as i128), 720 * FP_ONE), 630 * FP_ONE);
    assert_eq!(rem_fp_wide(725 * (FP_ONE as i128), 720 * FP_ONE), 5 * FP_ONE);
}

#[test]
fn lerp_meets_its_endpoints_exactly() {
    assert_eq!(lerp_fp_e(0, 100, 0), 0);
    assert_eq!(lerp_fp_e(0, 100, FP_ONE), 100);
    assert_eq!(lerp_fp_e(0, 100, FP_ONE / 2), 50);
    assert_eq!(lerp_fp_e(-40, 40, FP_ONE / 4), -20);
    // The reflection through the target used by predictive smoothing.
    assert_eq!(lerp_fp_e(100, 30, -FP_ONE), 170);
}

#[test]
fn interp_t_is_zero_at_zero_time_and_grows_with_time() {
    assert_eq!(interp_t(0, fp(1.5)), 0);
    assert_eq!(interp_t(0, 0), 0);
    let t1 = interp_t(fp(1.0 / 60.0), FP_ONE);
    let t2 = interp_t(fp(1.0 / 4.0), FP_ONE);
    let t3 = interp_t(fp(10.0), FP_ONE);
    assert!(0 < t1 && t1 < t2 && t2 < t3 && t3 <= FP_ONE);
    // Against the f64 law 1 - exp(-8 * dt / s).
    let expect = 1.0 - (-8.0 * (1.0 / 4.0) / 1.0f64).exp();
    assert!(approx(t2, fp(expect), fp(0.01)), "t2 = {t2} vs {}", fp(expect));
    // A zero smoothness floors at one tick, caps the exponent, and snaps
    // the blend fraction to exactly one: the channel is disabled.
    assert_eq!(interp_t(fp(1.0 / 60.0), 0), FP_ONE);
}

#[test]
fn sine_and_cosine_match_reference_values() {
    let tol = fp(0.001);
    for deg in [-360.0f64, -135.0, -90.0, -30.0, 0.0, 22.5, 30.0, 45.0, 90.0, 180.0, 270.0, 719.0]
    {
        let s = sin_fp(fp(deg));
        let c = cos_fp(fp(deg));
        assert!(
            approx(s, fp(deg.to_radians().sin()), tol),
            "sin({deg}) = {s} vs {}",
            fp(deg.to_radians().sin())
        );
        assert!(
            approx(c, fp(deg.to_radians().cos()), tol),
            "cos({deg}) = {c} vs {}",
            fp(deg.to_radians().cos())
        );
    }
}

#[test]
fn atan2_matches_reference_values() {
    let tol = fp(0.005);
    for (y, x) in [(1.0f64, 1.0f64), (1.0, 0.0), (0.0, 1.0), (-1.0, 1.0), (1.0, -1.0), (
        -0.5,
        -0.5,
    ), (0.3, 0.9)] {
        let r = atan2_fp(fp(y), fp(x));
        let expect = y.atan2(x);
        assert!(approx(r, fp(expect), tol), "atan2({y}, {x}) = {r} vs {}", fp(expect));
    }
}

#[test]
fn yaw_pitch_quaternion_matches_reference() {
    let tol = fp(0.002);
    for (yaw, pitch) in [(0.0f64, 0.0f64), (45.0, -30.0), (90.0, 0.0), (530.0, 85.0)] {
        let q = Quat::from_yaw_pitch(fp(yaw), fp(pitch));
        let (hy, hp) = (yaw.to_radians() / 2.0, pitch.to_radians() / 2.0);
        let (sy, cy, sp, cp) = (hy.sin(), hy.cos(), hp.sin(), hp.cos());
        assert!(approx(q.x, fp(cy * sp), tol), "x: {} vs {}", q.x, fp(cy * sp));
        assert!(approx(q.y, fp(sy * cp), tol), "y: {} vs {}", q.y, fp(sy * cp));
        assert!(approx(q.z, fp(-sy * sp), tol), "z: {} vs {}", q.z, fp(-sy * sp));
        assert!(approx(q.w, fp(cy * cp), tol), "w: {} vs {}", q.w, fp(cy * cp));
    }
}

#[test]
fn euler_extraction_roundtrips_yaw_pitch() {
    let tol = fp(0.4);
    for (yaw, pitch) in [(0.0f64, 0.0f64), (40.0, 20.0), (-60.0, -45.0), (120.0, 80.0)] {
        let q = Quat::from_yaw_pitch(fp(yaw), fp(pitch));
        let (y, p) = q.to_euler_yxz();
        assert!(approx(y, fp(yaw), tol), "yaw {yaw}: {y} vs {}", fp(yaw));
        assert!(approx(p, fp(pitch), tol), "pitch {pitch}: {p} vs {}", fp(pitch));
    }
}

#[test]
fn blend_of_equal_rotations_is_exact() {
    let q = Quat::from_yaw_pitch(fp(33.0), fp(-12.0));
    assert_eq!(q.nlerp(q, fp(0.37)), q);
    assert_eq!(q.nlerp(q, -FP_ONE), q);
}

#[test]
fn first_smoothing_step_seeds_to_the_raw_target() {
    // With no memory, one step returns the target exactly and remembers
    // it, whatever the elapsed time, smoothness and output scale.
    let target = Vec3 { x: fp(7.0), y: fp(-2.0), z: fp(0.5) };
    for (dt, scale) in [(fp(1.0 / 60.0), FP_ONE), (fp(3.0), -FP_ONE), (0, FP_ONE)] {
        let mut sm: ExpSmoothed<Vec3> = ExpSmoothed { prev: None };
        let out = sm.exp_smooth_towards(
            &target,
            ExpSmoothingParams {
                smoothness: fp(1.5),
                output_offset_scale: scale,
                delta_time_seconds: dt,
            },
        );
        assert_eq!(out, target);
        assert_eq!(sm.prev, Some(target));
    }
    let q = Quat::from_yaw_pitch(fp(50.0), fp(10.0));
    let mut sm: ExpSmoothed<Quat> = ExpSmoothed { prev: None };
    let out = sm.exp_smooth_towards(
        &q,
        ExpSmoothingParams {
            smoothness: fp(1.5),
            output_offset_scale: FP_ONE,
            delta_time_seconds: fp(1.0 / 60.0),
        },
    );
    assert_eq!(out, q);
    assert_eq!(sm.prev, Some(q));
}

#[test]
fn rotation_of_identity_is_exact() {
    let v = Vec3 { x: fp(1.25), y: fp(-7.5), z: fp(0.0625) };
    let q = Quat { x: 0, y: 0, z: 0, w: FP_ONE };
    assert_eq!(q.rotate(v), v);
}

#[test]
fn smoothing_converges_monotonically_without_overshoot() {
    let target = Vec3 { x: fp(10.0), y: fp(-5.0), z: fp(2.0) };
    let mut rig = CameraRig::builder()
        .with(Driver::Position(Position::new(target)))
        .with(Driver::Smooth(Smooth::new_position(fp(1.0))))
        .build();
    // Warm-up seeds the smoother at the target; move the target so the
    // smoother has a distance to close.
    if let Driver::Position(p) = rig.driver_mut(dolly::driver::DriverKind::Position) {
        p.position = Vec3 { x: 0, y: 0, z: 0 };
    }
    let mut last = rig.update(fp(1.0 / 60.0)).position;
    let mut dist = |v: Vec3| -> i128 {
        let dx = v.x as i128;
        let dy = v.y as i128;
        let dz = v.z as i128;
        dx * dx + dy * dy + dz * dz
    };
    let mut last_d = dist(last);
    for _ in 0..120 {
        let now = rig.update(fp(1.0 / 60.0)).position;
        let d = dist(now);
        // The distance to the (zero) target never grows.
        assert!(d <= last_d, "distance grew: {d} > {last_d}");
        // No overshoot: each coordinate keeps the sign of the start value.
        assert!(now.x >= 0 && now.y <= 0 && now.z >= 0);
        last = now;
        last_d = d;
    }
    // After two seconds the smoother is essentially at the target.
    assert!(last_d < (fp(0.01) as i128) * (fp(0.01) as i128) * 3);
}

#[test]
fn smoothing_zero_time_keeps_the_previous_value() {
    let mut rig = CameraRig::builder()
        .with(Driver::Position(Position::new(Vec3 { x: fp(4.0), y: 0, z: 0 })))
        .with(Driver::Smooth(Smooth::new_position(fp(1.0))))
        .build();
    // The warm-up already seeded the smoother to the target.
    assert_eq!(rig.final_transform.position.x, fp(4.0));
    // Move the target; a zero-time update must leave the smoothed value
    // exactly where it was.
    if let Driver::Position(p) = rig.driver_mut(dolly::driver::DriverKind::Position) {
        p.position = Vec3 { x: fp(400.0), y: 0, z: 0 };
    }
    let t = rig.update(0);
    assert_eq!(t.position.x, fp(4.0));
}

#[test]
fn predictive_smoothing_reflects_through_the_target() {
    // With the predictive flag, the output is the smoothed value reflected
    // through the target: output = 2 * target - smoothed.
    let mut rig = CameraRig::builder()
        .with(Driver::Position(Position::new(Vec3 { x: 0, y: 0, z: 0 })))
        .with(Driver::Smooth(Smooth::new_position(fp(1.0)).predictive(true)))
        .build();
    if let Driver::Position(p) = rig.driver_mut(dolly::driver::DriverKind::Position) {
        p.position = Vec3 { x: fp(8.0), y: 0, z: 0 };
    }
    let out = rig.update(fp(1.0 / 60.0)).position.x;
    // The smoothed value lags between 0 and the target, so the predictive
    // output lies at or beyond the target.
    assert!(out >= fp(8.0), "predictive output {out} fell short of the target");
}

#[test]
fn translate_accumulates() {
    let mut p = Position::new(Vec3 { x: fp(1.0), y: 0, z: 0 });
    p.translate(Vec3 { x: fp(2.5), y: fp(-1.0), z: 0 });
    assert_eq!(p.position, Vec3 { x: fp(3.5), y: fp(-1.0), z: 0 });
}
