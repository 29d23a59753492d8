use bevy_rts_camera::camera::{
    ease_in_circular, retention_per_second, smoothing_factor, wrap_yaw_difference, ConfigError,
    Focus, RtsCamera, DEFAULT_ANGLE, FULL_TURN, HALF_TURN, MAX_ANGLE, QUARTER_TURN,
};
use bevy_rts_camera::fixed::ONE;
use bevy_rts_camera::geometry::{Bounds, Position};

fn units(x: i64, y: i64, z: i64) -> Position {
    Position::new(x * ONE, y * ONE, z * ONE)
}

#[test]
fn default_camera_is_valid() {
    let cam = RtsCamera::default();
    assert_eq!(cam.validate(), Ok(()));
    assert_eq!(cam.height_min, 2 * ONE);
    assert_eq!(cam.height_max, 30 * ONE);
    assert_eq!(cam.bounds, Bounds::new(0, 0, 20 * ONE, 20 * ONE));
    assert_eq!(cam.min_angle, DEFAULT_ANGLE);
    assert_eq!(cam.smoothness, 300_000);
    assert!(cam.dynamic_angle);
    assert!(!cam.snap);
    assert_eq!(cam.zoom, 0);
    assert_eq!(cam.focus, Focus::identity());
}

#[test]
fn validate_reports_each_error() {
    let mut cam = RtsCamera::default();
    cam.height_min = 30 * ONE;
    cam.height_max = 2 * ONE;
    assert_eq!(cam.validate(), Err(ConfigError::HeightRange));

    let mut cam = RtsCamera::default();
    cam.height_min = 0;
    assert_eq!(cam.validate(), Err(ConfigError::HeightRange));

    let mut cam = RtsCamera::default();
    cam.smoothness = ONE;
    assert_eq!(cam.validate(), Err(ConfigError::Smoothness));

    let mut cam = RtsCamera::default();
    cam.smoothness = -1;
    assert_eq!(cam.validate(), Err(ConfigError::Smoothness));

    let mut cam = RtsCamera::default();
    cam.bounds = Bounds::new(0, 0, 0, 10 * ONE);
    assert_eq!(cam.validate(), Err(ConfigError::EmptyBounds));

    let mut cam = RtsCamera::default();
    cam.angle = QUARTER_TURN;
    assert_eq!(cam.validate(), Err(ConfigError::Angle));

    let mut cam = RtsCamera::default();
    cam.target_zoom = ONE + 1;
    assert_eq!(cam.validate(), Err(ConfigError::Zoom));
}

#[test]
fn reset_smoothing_jumps_to_targets() {
    let mut cam = RtsCamera::default();
    cam.target_focus = Focus { position: units(3, 1, -4), yaw: 250_000 };
    cam.target_zoom = 700_000;
    cam.target_angle = 600_000;
    cam.reset_smoothing();
    assert_eq!(cam.focus, cam.target_focus);
    assert_eq!(cam.zoom, 700_000);
    assert_eq!(cam.angle, 600_000);
}

#[test]
fn initialize_copies_targets() {
    let mut cam = RtsCamera::default();
    cam.target_focus = Focus { position: units(5, 0, 5), yaw: 100 };
    cam.target_zoom = 400_000;
    cam.angle = 900_000;
    cam.target_angle = 800_000;
    cam.initialize();
    assert_eq!(cam.focus, cam.target_focus);
    assert_eq!(cam.zoom, 400_000);
    assert_eq!(cam.angle, DEFAULT_ANGLE);
    assert_eq!(cam.target_angle, DEFAULT_ANGLE);

    // With the tilt fixed, the camera still starts at `min_angle`.
    let mut fixed = RtsCamera::default();
    fixed.dynamic_angle = false;
    fixed.min_angle = 500_000;
    fixed.angle = 900_000;
    fixed.target_angle = 800_000;
    fixed.initialize();
    assert_eq!(fixed.angle, 500_000);
    assert_eq!(fixed.target_angle, 500_000);
    // And keeps it through updates, at any zoom.
    fixed.target_zoom = ONE;
    fixed.update(None, 300_000);
    assert_eq!(fixed.target_angle, 500_000);
    assert_eq!(fixed.angle, 500_000);
}

#[test]
fn ground_ray_starts_above_target() {
    let mut cam = RtsCamera::default();
    cam.target_focus.position = units(1, 2, 3);
    assert_eq!(cam.ground_ray_origin(), units(1, 32, 3));
}

#[test]
fn follow_ground_takes_hit_height() {
    let mut cam = RtsCamera::default();
    cam.target_focus.position = units(1, 2, 3);
    cam.follow_ground(Some(5 * ONE));
    assert_eq!(cam.target_focus.position, units(1, 5, 3));
    // No hit: the last height stays.
    cam.follow_ground(None);
    assert_eq!(cam.target_focus.position, units(1, 5, 3));
}

#[test]
fn camera_bounds_constrain_target() {
    let mut cam = RtsCamera::default();
    cam.target_focus.position = units(25, 9, -30);
    cam.apply_camera_bounds();
    assert_eq!(cam.target_focus.position, units(20, 9, -20));
}

#[test]
fn ease_in_circular_values() {
    assert_eq!(ease_in_circular(0), 0);
    assert_eq!(ease_in_circular(ONE), ONE);
    assert_eq!(ease_in_circular(500_000), 133_975);
}

#[test]
fn dynamic_angle_follows_zoom() {
    let mut cam = RtsCamera::default();
    cam.target_zoom = 0;
    cam.dynamic_angle();
    assert_eq!(cam.target_angle, DEFAULT_ANGLE);
    cam.target_zoom = ONE;
    cam.dynamic_angle();
    assert_eq!(cam.target_angle, MAX_ANGLE);
    cam.target_zoom = 500_000;
    cam.dynamic_angle();
    assert_eq!(cam.target_angle, 470_658);

    let mut fixed = RtsCamera::default();
    fixed.dynamic_angle = false;
    fixed.target_zoom = ONE;
    fixed.dynamic_angle();
    assert_eq!(fixed.target_angle, DEFAULT_ANGLE);
}

#[test]
fn smoothing_factor_scenarios() {
    // smoothness 0.3 over one second: t = 1 - 0.3^7.
    let kept = retention_per_second(300_000);
    assert_eq!(kept, 218);
    assert_eq!(smoothing_factor(kept), 999_782);
    // No time elapsed keeps everything: t = 0.
    assert_eq!(smoothing_factor(ONE), 0);
    // No smoothing snaps at once.
    assert_eq!(retention_per_second(0), 0);
    assert_eq!(smoothing_factor(retention_per_second(0)), ONE);
}

#[test]
fn smoothing_with_zero_factor_stays_put() {
    let mut cam = RtsCamera::default();
    cam.target_focus.position = units(10, 0, 0);
    cam.target_zoom = ONE;
    let before = cam;
    cam.move_towards_target(0);
    assert_eq!(cam, before);
}

#[test]
fn smoothing_approaches_without_overshoot() {
    let mut cam = RtsCamera::default();
    cam.focus.position = units(0, 4, 0);
    cam.target_focus = Focus { position: units(10, -2, -7), yaw: -1_000_000 };
    cam.target_zoom = ONE;
    cam.target_angle = 1_000_000;
    let target = cam.target_focus.position;
    let mut steps = 0;
    while cam.focus.position != target && steps < 200 {
        let before = cam;
        cam.move_towards_target(300_000);
        assert_eq!(cam.target_focus, before.target_focus);
        assert!(cam.focus.position.x >= before.focus.position.x && cam.focus.position.x <= target.x);
        assert!(cam.focus.position.y <= before.focus.position.y && cam.focus.position.y >= target.y);
        assert!(cam.focus.position.z <= before.focus.position.z && cam.focus.position.z >= target.z);
        assert!(cam.zoom >= before.zoom && cam.zoom <= ONE);
        assert!(cam.angle >= before.angle && cam.angle <= 1_000_000);
        assert!(cam.focus.yaw <= before.focus.yaw && cam.focus.yaw >= -1_000_000);
        steps += 1;
    }
    assert_eq!(cam.focus.position, target);
    assert_eq!(cam.zoom, ONE);
    assert_eq!(cam.angle, 1_000_000);
    assert_eq!(cam.focus.yaw, -1_000_000);
    assert_eq!(steps, 43);
}

#[test]
fn smoothing_first_steps() {
    let mut cam = RtsCamera::default();
    cam.target_focus.position = units(10, 0, 0);
    cam.move_towards_target(300_000);
    assert_eq!(cam.focus.position.x, 3_000_000);
    cam.move_towards_target(300_000);
    assert_eq!(cam.focus.position.x, 5_100_000);
}

#[test]
fn snap_is_exact_after_one_update() {
    let mut cam = RtsCamera::default();
    cam.target_focus.position = units(10, 4, -6);
    cam.snap = true;
    cam.update(None, 500_000);
    assert_eq!(cam.focus.position.x, 10 * ONE);
    assert_eq!(cam.focus.position.z, -6 * ONE);
    assert_eq!(cam.focus.position.y, 2 * ONE);
    assert!(!cam.snap);
}

#[test]
fn update_runs_stages_in_order() {
    let mut cam = RtsCamera::default();
    // Out of bounds and snapping: the focus lands on the bounded target.
    cam.target_focus.position = units(50, 0, -50);
    cam.target_zoom = ONE;
    cam.snap = true;
    cam.update(Some(3 * ONE), ONE);
    assert_eq!(cam.target_focus.position, units(20, 3, -20));
    assert_eq!(cam.focus.position, units(20, 3, -20));
    assert_eq!(cam.target_angle, MAX_ANGLE);
    assert_eq!(cam.angle, MAX_ANGLE);
    assert_eq!(cam.zoom, ONE);
    assert_eq!(cam.validate(), Ok(()));
}

#[test]
fn yaw_differences_wrap_to_the_nearest_turn() {
    assert_eq!(wrap_yaw_difference(0, 100), 100);
    assert_eq!(wrap_yaw_difference(0, 2 * FULL_TURN + 100), 100);
    assert_eq!(wrap_yaw_difference(0, -3 * FULL_TURN - 100), -100);
    assert_eq!(wrap_yaw_difference(0, 4_000_000), 4_000_000 - FULL_TURN);
    assert_eq!(wrap_yaw_difference(1_000, 1_000 + FULL_TURN / 2), FULL_TURN / 2);
    assert_eq!(wrap_yaw_difference(i64::MAX, i64::MIN), -1245840);
}

#[test]
fn yaw_smoothing_turns_the_short_way() {
    // Two whole turns away: the focus does not spin back through them.
    let mut cam = RtsCamera::default();
    cam.target_focus.yaw = 2 * FULL_TURN + 100;
    cam.move_towards_target(ONE);
    assert_eq!(cam.focus.yaw, 100);

    // More than half a turn ahead is less than half a turn behind.
    let mut back = RtsCamera::default();
    back.target_focus.yaw = 4_000_000;
    back.move_towards_target(500_000);
    assert!(back.focus.yaw < 0 && back.focus.yaw > -HALF_TURN);
    back.move_towards_target(ONE);
    assert_eq!(back.focus.yaw, 4_000_000 - FULL_TURN);
}
