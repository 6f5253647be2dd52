use rollback_sim::math::{
    distance_squared, finite_cube_point_to_closest_visible_location,
    warp_infinite_space_into_finite_cube, Vec3i, FINITE_CUBE_SIZE,
};

#[test]
fn warp_keeps_points_inside() {
    let p = Vec3i::new(5, 0, FINITE_CUBE_SIZE - 1);
    assert_eq!(warp_infinite_space_into_finite_cube(p), p);
}

#[test]
fn warp_folds_negative_and_large_coordinates() {
    let p = Vec3i::new(-1, FINITE_CUBE_SIZE, 2 * FINITE_CUBE_SIZE + 7);
    assert_eq!(
        warp_infinite_space_into_finite_cube(p),
        Vec3i::new(FINITE_CUBE_SIZE - 1, 0, 7)
    );
    let q = Vec3i::new(-3 * FINITE_CUBE_SIZE - 5, i64::MIN, i64::MAX);
    let w = warp_infinite_space_into_finite_cube(q);
    assert_eq!(w.x, FINITE_CUBE_SIZE - 5);
    assert_eq!(w.y, i64::MIN.rem_euclid(FINITE_CUBE_SIZE));
    assert_eq!(w.z, i64::MAX.rem_euclid(FINITE_CUBE_SIZE));
}

#[test]
fn distance_squared_sums_the_axes() {
    assert_eq!(distance_squared(Vec3i::new(1, 2, 3), Vec3i::new(4, 6, 3)), 25);
}

#[test]
fn closest_location_crosses_the_wrap() {
    let observer = Vec3i::new(10, 10, 10);
    let pt = Vec3i::new(FINITE_CUBE_SIZE - 10, 10, 10);
    assert_eq!(
        finite_cube_point_to_closest_visible_location(observer, pt),
        Vec3i::new(-10, 10, 10)
    );
}

#[test]
fn closest_location_is_the_point_itself_when_near() {
    let observer = Vec3i::new(1000, 2000, 3000);
    let pt = Vec3i::new(1500, 2500, 3500);
    assert_eq!(finite_cube_point_to_closest_visible_location(observer, pt), pt);
}

#[test]
fn closest_location_prefers_the_point_on_a_tie() {
    let half = FINITE_CUBE_SIZE / 2;
    let observer = Vec3i::new(half, 0, 0);
    let pt = Vec3i::new(0, 0, 0);
    // Both pt and pt + (edge, 0, 0) are half an edge away: pt comes first.
    assert_eq!(finite_cube_point_to_closest_visible_location(observer, pt), pt);
}
