use bevy_rts_camera::fixed::ONE;
use bevy_rts_camera::geometry::{apply_bounds, Bounds, Position};

fn units(x: i64, y: i64, z: i64) -> Position {
    Position::new(x * ONE, y * ONE, z * ONE)
}

#[test]
fn test_symmetric_bounds() {
    // Default bounds with zero center, i.e., symmetric around origin.
    let bounds = Bounds::new(0, 0, 20 * ONE, 20 * ONE);

    // Position at center should remain unchanged.
    let center_pos = units(0, 0, 0);
    assert_eq!(apply_bounds(&bounds, center_pos), center_pos);

    // Position at edge should remain unchanged.
    let edge_pos = units(20, 0, 20);
    assert_eq!(apply_bounds(&bounds, edge_pos), edge_pos);

    // Position inside bounds should remain unchanged.
    let in_bounds_pos = units(15, 0, 15);
    assert_eq!(apply_bounds(&bounds, in_bounds_pos), in_bounds_pos);

    // Position outside bounds should be clamped.
    let out_of_bounds_pos = units(25, 0, 25);
    assert_eq!(apply_bounds(&bounds, out_of_bounds_pos), units(20, 0, 20));
}

#[test]
fn test_asymmetric_bounds() {
    // Bounds with non-zero center, i.e., asymmetric relative to origin.
    //
    // Effective bounds: x: [10, 190], z: [-10, 190].
    let bounds = Bounds::new(100 * ONE, 90 * ONE, 90 * ONE, 100 * ONE);

    // Position at center should remain unchanged.
    let center_pos = units(100, 0, 90);
    assert_eq!(apply_bounds(&bounds, center_pos), center_pos);

    // Position at edge should remain unchanged.
    let edge_pos = units(190, 0, 190);
    assert_eq!(apply_bounds(&bounds, edge_pos), edge_pos);

    // Position inside bounds should remain unchanged.
    let in_bounds_pos = units(150, 0, 100);
    assert_eq!(apply_bounds(&bounds, in_bounds_pos), in_bounds_pos);

    // Position outside bounds should be clamped
    let out_of_bounds_pos = units(200, 0, 200); // beyond edge
    assert_eq!(apply_bounds(&bounds, out_of_bounds_pos), units(190, 0, 190));
}

#[test]
fn asymmetric_bounds_corners() {
    let bounds = Bounds::new(100 * ONE, 90 * ONE, 90 * ONE, 100 * ONE);
    assert_eq!(bounds.min_x, 10 * ONE);
    assert_eq!(bounds.max_x, 190 * ONE);
    assert_eq!(bounds.min_z, -10 * ONE);
    assert_eq!(bounds.max_z, 190 * ONE);
    // The height is never touched.
    assert_eq!(apply_bounds(&bounds, units(200, 7, 200)), units(190, 7, 190));
    assert_eq!(apply_bounds(&bounds, units(0, -3, -50)), units(10, -3, -10));
}

#[test]
fn clamping_twice_equals_clamping_once() {
    let bounds = Bounds::new(5 * ONE, -5 * ONE, 10 * ONE, 3 * ONE);
    let points = [units(100, 1, -100), units(-100, 2, 100), units(7, 3, -6), units(15, 0, -2)];
    for p in points {
        let once = apply_bounds(&bounds, p);
        assert_eq!(apply_bounds(&bounds, once), once);
    }
}

#[test]
fn clamped_points_lie_inside() {
    let bounds = Bounds::new(5 * ONE, -5 * ONE, 10 * ONE, 3 * ONE);
    let points = [units(100, 1, -100), units(-100, 2, 100), units(7, 3, -6), units(-5, 9, -8)];
    for p in points {
        let q = apply_bounds(&bounds, p);
        assert!(bounds.min_x <= q.x && q.x <= bounds.max_x);
        assert!(bounds.min_z <= q.z && q.z <= bounds.max_z);
        assert_eq!(q.y, p.y);
    }
    // Points inside, edges included, come back unchanged.
    assert_eq!(apply_bounds(&bounds, units(-5, 4, -8)), units(-5, 4, -8));
    assert_eq!(apply_bounds(&bounds, units(7, 0, -6)), units(7, 0, -6));
}

#[test]
fn zero_area_bounds_pin_the_point() {
    let bounds = Bounds::new(3 * ONE, 4 * ONE, 0, 0);
    assert_eq!(apply_bounds(&bounds, units(-9, 1, 9)), units(3, 1, 4));
}
