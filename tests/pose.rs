use bevy_rts_camera::camera::{RtsCamera, DEFAULT_ANGLE, QUARTER_TURN};
use bevy_rts_camera::fixed::ONE;
use bevy_rts_camera::geometry::{Heading, Position};
use bevy_rts_camera::pose::update_camera_transform;

/// tan(20 degrees), in millionths.
const TAN_20_DEGREES: i64 = 363_970;

#[test]
fn pose_at_no_zoom() {
    let cam = RtsCamera::default();
    assert_eq!(cam.camera_height(), 30 * ONE);
    let pose = update_camera_transform(&cam, TAN_20_DEGREES, Heading::identity()).unwrap();
    // offset = 30 * tan(20 degrees), about 10.9 units, straight back along +Z.
    assert_eq!(pose.position, Position::new(0, 30 * ONE, 10_919_100));
    assert_eq!(pose.yaw, 0);
    assert_eq!(pose.pitch, DEFAULT_ANGLE - QUARTER_TURN);
}

#[test]
fn pose_at_full_zoom() {
    let mut cam = RtsCamera::default();
    cam.zoom = ONE;
    assert_eq!(cam.camera_height(), 2 * ONE);
    let pose = update_camera_transform(&cam, TAN_20_DEGREES, Heading::identity()).unwrap();
    // offset = 2 * tan(20 degrees), about 0.728 units.
    assert_eq!(pose.position, Position::new(0, 2 * ONE, 727_940));
}

#[test]
fn pose_follows_focus_and_heading() {
    let mut cam = RtsCamera::default();
    cam.focus.position = Position::new(5 * ONE, ONE, -5 * ONE);
    cam.focus.yaw = QUARTER_TURN;
    cam.zoom = 500_000;
    // A quarter turn of yaw: back points along +X.
    let heading = Heading { back_x: ONE, back_z: 0 };
    let pose = update_camera_transform(&cam, ONE, heading).unwrap();
    // height = 16 at half zoom; a 45 degree tangent puts the camera 16 back.
    assert_eq!(pose.position, Position::new(21 * ONE, 17 * ONE, -5 * ONE));
    assert_eq!(pose.yaw, QUARTER_TURN);
}

#[test]
fn pose_is_pure() {
    let mut cam = RtsCamera::default();
    cam.focus.position = Position::new(3 * ONE, 0, 4 * ONE);
    cam.zoom = 250_000;
    let first = update_camera_transform(&cam, TAN_20_DEGREES, Heading::identity()).unwrap();
    let second = update_camera_transform(&cam, TAN_20_DEGREES, Heading::identity()).unwrap();
    assert_eq!(first, second);
    // Targets, smoothness and a pending snap do not enter the pose.
    let mut other = cam;
    other.target_focus.position = Position::new(-9 * ONE, 9 * ONE, 9 * ONE);
    other.target_zoom = ONE;
    other.smoothness = 0;
    other.snap = true;
    assert_eq!(update_camera_transform(&other, TAN_20_DEGREES, Heading::identity()), Some(first));
}

#[test]
fn pose_out_of_range_is_none() {
    let mut cam = RtsCamera::default();
    cam.focus.position = Position::new(0, i64::MAX - ONE, 0);
    assert_eq!(update_camera_transform(&cam, TAN_20_DEGREES, Heading::identity()), None);
    // A tangent too steep for the offset to fit.
    let flat = RtsCamera::default();
    assert_eq!(update_camera_transform(&flat, i64::MAX, Heading::identity()), None);
}
