use veiled_path::physics::{
    cell_of, check_circle_collision, check_wall_collision, CIRCLE_RADIUS, HALF_SIDE, UNIT,
};

#[test]
fn player_on_a_wall_collides() {
    assert!(check_wall_collision(5 * UNIT, 5 * UNIT, 5, 5));
    assert!(check_wall_collision(0, 0, 0, 0));
    assert!(check_wall_collision(-3 * UNIT, 7 * UNIT, -3, 7));
}

#[test]
fn wall_reach_is_half_a_side_plus_a_radius() {
    let reach = HALF_SIDE + CIRCLE_RADIUS;
    assert_eq!(reach, 800_000_000);
    assert!(check_wall_collision(5 * UNIT + reach, 5 * UNIT, 5, 5));
    assert!(!check_wall_collision(5 * UNIT + reach + 1, 5 * UNIT, 5, 5));
    assert!(check_wall_collision(5 * UNIT, 5 * UNIT - reach, 5, 5));
    assert!(!check_wall_collision(5 * UNIT, 5 * UNIT - reach - 1, 5, 5));
    assert!(!check_wall_collision(5 * UNIT - reach - 1, 5 * UNIT, 5, 5));
    assert!(!check_wall_collision(5 * UNIT, 5 * UNIT + reach + 1, 5, 5));
}

#[test]
fn wall_corner_uses_the_distance_to_the_corner() {
    // 0.2 past the corner on both axes: about 0.283 away, inside the radius.
    let c = 5 * UNIT + HALF_SIDE + 200_000_000;
    assert!(check_wall_collision(c, c, 5, 5));
    // 0.22 past on both axes: about 0.311 away, outside the radius.
    let c = 5 * UNIT + HALF_SIDE + 220_000_000;
    assert!(!check_wall_collision(c, c, 5, 5));
}

#[test]
fn pickup_reach_is_two_radii() {
    let reach = 2 * CIRCLE_RADIUS;
    assert_eq!(reach, 600_000_000);
    assert!(check_circle_collision(2 * UNIT + reach, 2 * UNIT, 2, 2));
    assert!(!check_circle_collision(2 * UNIT + reach + 1, 2 * UNIT, 2, 2));
    assert!(check_circle_collision(2 * UNIT, 2 * UNIT - reach, 2, 2));
    assert!(!check_circle_collision(2 * UNIT, 2 * UNIT - reach - 1, 2, 2));
    // 0.36 and 0.48 make exactly 0.6.
    assert!(check_circle_collision(2 * UNIT + 360_000_000, 2 * UNIT + 480_000_000, 2, 2));
    assert!(!check_circle_collision(2 * UNIT + 360_000_001, 2 * UNIT + 480_000_000, 2, 2));
    assert!(check_circle_collision(2 * UNIT, 2 * UNIT, 2, 2));
}

#[test]
fn far_coordinates_do_not_overflow() {
    assert!(!check_circle_collision(i64::MAX, i64::MIN, i64::MIN, i64::MAX));
    assert!(!check_wall_collision(i64::MIN, i64::MAX, i64::MAX, i64::MIN));
}

#[test]
fn cell_of_rounds_down() {
    assert_eq!(cell_of(0), 0);
    assert_eq!(cell_of(UNIT - 1), 0);
    assert_eq!(cell_of(UNIT), 1);
    assert_eq!(cell_of(5 * UNIT + UNIT / 2), 5);
    assert_eq!(cell_of(-1), -1);
    assert_eq!(cell_of(-UNIT), -1);
    assert_eq!(cell_of(-UNIT - 1), -2);
    assert_eq!(cell_of(i64::MIN), -9_223_372_037);
    assert_eq!(cell_of(i64::MAX), 9_223_372_036);
}
