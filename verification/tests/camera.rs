use space_renderer::camera::Camera;
use space_renderer::vector::Vec3;

fn sin_cos(angle: i32) -> (i32, i32) {
    let a = angle as f64 / 10_000.0;
    ((a.sin() * 10_000.0).round() as i32, (a.cos() * 10_000.0).round() as i32)
}

fn heading_of(direction: Vec3) -> (i32, i32) {
    let x = direction.x as f64 / 10_000.0;
    let y = (direction.y as f64 / 10_000.0).clamp(-1.0, 1.0);
    let z = direction.z as f64 / 10_000.0;
    ((z.atan2(x) * 10_000.0).round() as i32, (y.asin() * 10_000.0).round() as i32)
}

/// A camera at the origin that looks along +x from a distance of 10.
fn level() -> Camera {
    let mut c = Camera::new(900, 600);
    c.position = Vec3::new(0, 0, 0);
    c.target = Vec3::new(100_000, 0, 0);
    c.yaw = 0;
    c.pitch = 0;
    c.distance = 100_000;
    c
}

#[test]
fn fresh_camera_looks_at_the_origin() {
    let c = Camera::new(900, 600);
    assert_eq!(c.position, Vec3::new(0, 2_000_000, 5_000_000));
    assert_eq!(c.target, Vec3::new(0, 0, 0));
    assert_eq!(c.up, Vec3::new(0, 10_000, 0));
    assert_eq!((c.fov, c.near, c.far), (600_000, 1_000, 100_000_000));
    assert_eq!(c.aspect, 15_000);
    assert_eq!((c.yaw, c.pitch, c.distance), (-15_708, -3_805, 5_385_164));
    assert_eq!((c.warp_start, c.warp_target, c.warp_progress), (None, None, 0));
    assert!(!c.is_warping);
    assert_eq!(Camera::new(1, 3).aspect, 3_333);
    assert_eq!(Camera::new(0, 65_535).aspect, 0);
}

#[test]
fn fresh_orientation_is_that_of_the_line_of_sight() {
    let mut c = Camera::new(900, 600);
    c.follow_body(Vec3::new(0, 0, 0), Vec3::new(0, 2_000_000, 5_000_000), &heading_of);
    assert_eq!((c.yaw, c.pitch, c.distance), (-15_708, -3_805, 5_385_164));
}

#[test]
fn ease_curve_passes_through_its_fixed_points() {
    let c = Camera::new(900, 600);
    assert_eq!(c.ease_in_out_cubic(0), 0);
    assert_eq!(c.ease_in_out_cubic(10_000), 10_000);
    assert_eq!(c.ease_in_out_cubic(5_000), 5_000);
}

#[test]
fn ease_curve_is_cubic_on_both_sides() {
    let c = Camera::new(900, 600);
    assert_eq!(c.ease_in_out_cubic(2_500), 625);
    assert_eq!(c.ease_in_out_cubic(7_500), 9_375);
    assert_eq!(c.ease_in_out_cubic(1_000), 40);
    assert_eq!(c.ease_in_out_cubic(4_999), 4_997);
    assert_eq!(c.ease_in_out_cubic(9_000), 9_960);
    assert_eq!(c.ease_in_out_cubic(-300), 0);
    assert_eq!(c.ease_in_out_cubic(10_001), 10_000);
}

#[test]
fn warp_ends_exactly_on_its_target() {
    // At (0, 200, 500), looking at the origin, warping to the origin.
    let mut c = Camera::new(900, 600);
    c.start_warp(Vec3::new(0, 0, 0));
    assert!(c.is_warping);
    // 0.5 s in steps of 0.01 s, at a rate of 2 per second.
    for _ in 0..40 {
        c.update(100, &heading_of);
    }
    // Progress 0.8 eases to 0.968.
    assert_eq!(c.warp_progress, 8_000);
    assert_eq!(c.position, Vec3::new(0, 64_000, 160_000));
    for _ in 40..49 {
        c.update(100, &heading_of);
    }
    assert!(c.is_warping);
    assert_eq!(c.warp_progress, 9_800);
    assert_eq!(c.warp_target, Some(Vec3::new(0, 0, 0)));
    c.update(100, &heading_of);
    assert!(!c.is_warping);
    assert_eq!(c.position, Vec3::new(0, 0, 0));
    assert_eq!((c.warp_start, c.warp_target, c.warp_progress), (None, None, 0));
}

#[test]
fn warp_ends_in_one_long_step_too() {
    let mut c = Camera::new(900, 600);
    let there = Vec3::new(-123_456, 7, 2_000_000_000);
    c.start_warp(there);
    c.update(5_000, &heading_of);
    assert!(!c.is_warping);
    assert_eq!(c.position, there);
    let mut d = Camera::new(900, 600);
    d.start_warp(there);
    d.update(i32::MAX, &heading_of);
    assert_eq!(d.position, there);
    assert!(!d.is_warping);
}

#[test]
fn warp_follows_the_ease_curve() {
    let mut c = Camera::new(900, 600);
    c.start_warp(Vec3::new(0, 0, 0));
    c.update(1_250, &heading_of);
    // Progress 0.25 eases to 0.0625.
    assert_eq!(c.warp_progress, 2_500);
    assert_eq!(c.position, Vec3::new(0, 1_875_000, 4_687_500));
    c.update(1_250, &heading_of);
    assert_eq!(c.warp_progress, 5_000);
    assert_eq!(c.position, Vec3::new(0, 1_000_000, 2_500_000));
    c.update(1_250, &heading_of);
    assert_eq!(c.position, Vec3::new(0, 125_000, 312_500));
    assert!(c.is_warping);
    // The target of the view and the orientation are untouched on the way.
    assert_eq!(c.target, Vec3::new(0, 0, 0));
    assert_eq!((c.yaw, c.pitch, c.distance), (-15_708, -3_805, 5_385_164));
}

#[test]
fn warp_progress_never_falls_below_zero() {
    let mut c = Camera::new(900, 600);
    c.start_warp(Vec3::new(0, 0, 0));
    c.update(-700, &heading_of);
    assert_eq!(c.warp_progress, 0);
    assert!(c.is_warping);
    assert_eq!(c.position, Vec3::new(0, 2_000_000, 5_000_000));
    c.update(i32::MIN, &heading_of);
    assert_eq!(c.warp_progress, 0);
}

#[test]
fn update_without_a_warp_changes_nothing() {
    let mut c = level();
    c.warp_progress = 1_234;
    c.update(100_000, &heading_of);
    assert_eq!(c.position, Vec3::new(0, 0, 0));
    assert_eq!(c.target, Vec3::new(100_000, 0, 0));
    assert_eq!((c.yaw, c.pitch, c.distance), (0, 0, 100_000));
    assert_eq!(c.warp_progress, 1_234);
    assert!(!c.is_warping);
}

#[test]
fn warp_without_its_ends_merely_stops() {
    let mut c = level();
    c.is_warping = true;
    c.warp_start = Some(Vec3::new(1, 1, 1));
    c.warp_target = None;
    c.update(100, &heading_of);
    assert!(!c.is_warping);
    assert_eq!(c.position, Vec3::new(0, 0, 0));
    assert_eq!(c.warp_progress, 200);
    assert_eq!(c.warp_start, Some(Vec3::new(1, 1, 1)));
}

#[test]
fn second_warp_starts_from_where_the_camera_is() {
    let mut c = Camera::new(900, 600);
    c.start_warp(Vec3::new(0, 0, 0));
    c.update(2_500, &heading_of);
    let halfway = c.position;
    assert_eq!(halfway, Vec3::new(0, 1_000_000, 2_500_000));
    c.start_warp(Vec3::new(10_000, 0, 0));
    assert_eq!(c.warp_start, Some(halfway));
    assert_eq!(c.warp_target, Some(Vec3::new(10_000, 0, 0)));
    assert_eq!(c.warp_progress, 0);
    assert!(c.is_warping);
    assert_eq!(c.position, halfway);
}

#[test]
fn arrival_takes_the_orientation_from_the_line_of_sight() {
    let mut c = Camera::new(900, 600);
    c.start_warp(Vec3::new(0, 300_000, 400_000));
    c.target = Vec3::new(0, 0, 0);
    c.update(5_000, &heading_of);
    assert_eq!(c.position, Vec3::new(0, 300_000, 400_000));
    // Looking from (0, 30, 40) at the origin: distance 50, straight along -z
    // and down by asin(0.6).
    assert_eq!(c.distance, 500_000);
    assert_eq!(c.yaw, -15_708);
    assert_eq!(c.pitch, -6_435);
}

#[test]
fn arrival_on_the_target_of_the_view_keeps_the_orientation() {
    let mut c = Camera::new(900, 600);
    c.start_warp(Vec3::new(0, 0, 0));
    c.update(5_000, &heading_of);
    assert_eq!(c.position, c.target);
    assert_eq!((c.yaw, c.pitch, c.distance), (-15_708, -3_805, 5_385_164));
}

#[test]
fn pitch_stops_at_the_limit() {
    let mut c = level();
    for _ in 0..40 {
        c.rotate_pitch(500, &sin_cos);
        assert!(c.pitch <= 15_700);
    }
    assert_eq!(c.pitch, 15_700);
    for _ in 0..100 {
        c.rotate_pitch(-500, &sin_cos);
        assert!(c.pitch >= -15_700);
    }
    assert_eq!(c.pitch, -15_700);
    c.rotate_pitch(i32::MAX, &sin_cos);
    assert_eq!(c.pitch, 15_700);
    c.rotate_pitch(i32::MIN, &sin_cos);
    assert_eq!(c.pitch, -15_700);
    c.pitch = i32::MAX;
    c.rotate_pitch(i32::MAX, &sin_cos);
    assert_eq!(c.pitch, 15_700);
}

#[test]
fn pitch_turns_the_target_upwards() {
    let mut c = level();
    c.rotate_pitch(5_236, &sin_cos);
    // 30 degrees up: cos = 0.8660, sin = 0.5000.
    assert_eq!(c.pitch, 5_236);
    assert_eq!(c.target, Vec3::new(86_600, 50_000, 0));
    assert_eq!(c.position, Vec3::new(0, 0, 0));
}

#[test]
fn yaw_accumulates_and_turns_the_target() {
    let mut c = level();
    c.rotate_yaw(15_708, &sin_cos);
    assert_eq!(c.yaw, 15_708);
    assert_eq!(c.target, Vec3::new(0, 0, 100_000));
    for _ in 0..10 {
        c.rotate_yaw(31_416, &sin_cos);
    }
    assert_eq!(c.yaw, 15_708 + 314_160);
    c.yaw = i32::MAX - 5;
    c.rotate_yaw(500, &sin_cos);
    assert_eq!(c.yaw, i32::MAX);
}

#[test]
fn forward_direction_follows_yaw_and_pitch() {
    let mut c = level();
    assert_eq!(c.forward_direction(&sin_cos), Vec3::new(10_000, 0, 0));
    c.yaw = 15_708;
    assert_eq!(c.forward_direction(&sin_cos), Vec3::new(0, 0, 10_000));
    c.pitch = 5_236;
    assert_eq!(c.forward_direction(&sin_cos), Vec3::new(0, 5_000, 8_660));
    // cos yaw * cos pitch, sin pitch, sin yaw * cos pitch with what is given.
    let fixed = |a: i32| if a == 15_708 { (6_000, 8_000) } else { (-5_000, 2_000) };
    assert_eq!(c.forward_direction(&fixed), Vec3::new(1_600, -5_000, 1_200));
    let wild = |_: i32| (i32::MIN, i32::MAX);
    assert_eq!(c.forward_direction(&wild), Vec3::new(10_000, -10_000, -10_000));
}

#[test]
fn moving_keeps_the_look_direction() {
    let mut c = level();
    c.move_forward(50_000, &sin_cos);
    assert_eq!(c.position, Vec3::new(50_000, 0, 0));
    assert_eq!(c.target, Vec3::new(150_000, 0, 0));
    c.move_forward(-70_000, &sin_cos);
    assert_eq!(c.position, Vec3::new(-20_000, 0, 0));
    assert_eq!(c.target, Vec3::new(80_000, 0, 0));
    c.move_up(30_000, &sin_cos);
    assert_eq!(c.position, Vec3::new(-20_000, 30_000, 0));
    assert_eq!(c.target, Vec3::new(80_000, 30_000, 0));
    // Forward is +x and up is +y, so right is +z.
    c.move_right(40_000, &sin_cos);
    assert_eq!(c.position, Vec3::new(-20_000, 30_000, 40_000));
    assert_eq!(c.target, Vec3::new(80_000, 30_000, 40_000));
    assert_eq!((c.yaw, c.pitch, c.distance), (0, 0, 100_000));
}

#[test]
fn moving_stops_at_the_end_of_the_scalar_range() {
    let mut c = level();
    c.position = Vec3::new(i32::MAX - 10, 0, 0);
    c.move_forward(50_000, &sin_cos);
    assert_eq!(c.position.x, i32::MAX);
    assert_eq!(c.target.x, i32::MAX);
}

#[test]
fn following_a_body_looks_at_it() {
    let mut c = level();
    c.follow_body(Vec3::new(1_000_000, 0, 0), Vec3::new(0, 300_000, 400_000), &heading_of);
    assert_eq!(c.target, Vec3::new(1_000_000, 0, 0));
    assert_eq!(c.position, Vec3::new(1_000_000, 300_000, 400_000));
    assert_eq!(c.distance, 500_000);
    assert_eq!((c.yaw, c.pitch), (-15_708, -6_435));
    // The next free-look step starts from the view that was followed.
    c.rotate_yaw(0, &sin_cos);
    assert_eq!(c.target, Vec3::new(1_000_000, 0, 0));
}

#[test]
fn following_with_no_offset_keeps_the_orientation() {
    let mut c = level();
    c.follow_body(Vec3::new(5, 6, 7), Vec3::new(0, 0, 0), &heading_of);
    assert_eq!(c.position, Vec3::new(5, 6, 7));
    assert_eq!(c.target, Vec3::new(5, 6, 7));
    assert_eq!((c.yaw, c.pitch, c.distance), (0, 0, 100_000));
}

#[test]
fn collision_is_strictly_inside_radius_plus_margin() {
    let c = level();
    // Radius 40, margin 10: the reach is 50.
    assert!(!c.check_collision(Vec3::new(300_000, 400_000, 0), 400_000));
    assert!(c.check_collision(Vec3::new(300_000, 399_999, 0), 400_000));
    assert!(!c.check_collision(Vec3::new(300_000, 400_001, 0), 400_000));
    assert!(!c.check_collision(Vec3::new(0, 0, -500_000), 400_000));
    assert!(c.check_collision(Vec3::new(0, 0, -499_999), 400_000));
    assert!(c.check_collision(Vec3::new(0, 0, 0), 0));
}

#[test]
fn collision_needs_a_positive_reach() {
    let c = level();
    assert!(!c.check_collision(Vec3::new(0, 0, 0), -100_000));
    assert!(!c.check_collision(Vec3::new(0, 0, 0), -100_001));
    assert!(c.check_collision(Vec3::new(0, 0, 0), -99_999));
    assert!(!c.check_collision(Vec3::new(0, 0, 0), i32::MIN));
}

#[test]
fn collision_survives_the_whole_scalar_range() {
    let mut c = level();
    c.position = Vec3::new(i32::MIN, i32::MIN, i32::MIN);
    assert!(!c.check_collision(Vec3::new(i32::MAX, i32::MAX, i32::MAX), i32::MAX));
    assert!(c.check_collision(Vec3::new(i32::MIN, i32::MIN, 0), i32::MAX));
    assert!(!c.check_collision(Vec3::new(i32::MIN, i32::MIN, i32::MAX), i32::MAX));
}
