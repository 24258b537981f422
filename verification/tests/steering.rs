use skunkworks::{Point2, Vector2, Vehicle, ONE};

const U: i64 = ONE;

fn at(x: i64, y: i64) -> Point2 {
    Point2::new(x as i32, y as i32)
}

fn vehicle(location: Point2, velocity: Vector2) -> Vehicle {
    Vehicle::new(velocity, location, 6553, (2 * U) as u32)
}

fn speed2(v: &Vehicle) -> u128 {
    v.velocity.magnitude2()
}

#[test]
fn new_vehicle_is_at_rest_in_its_acceleration() {
    let v = Vehicle::new(Vector2::new(U, -U), at(3, 4), 10, (2 * U) as u32);
    assert_eq!(v.location, at(3, 4));
    assert_eq!(v.velocity, Vector2 { x: U, y: -U });
    assert_eq!(v.acceleration, Vector2 { x: 0, y: 0 });
    assert_eq!(v.wander_angle, 0);
    assert_eq!(v.max_force, 10);
    assert_eq!(v.max_speed, (2 * U) as u32);
}

#[test]
fn new_vehicle_is_no_faster_than_its_full_speed() {
    let v = Vehicle::new(Vector2::new(2 * U, 2 * U), at(0, 0), 10, (2 * U) as u32);
    assert_eq!(v.velocity, Vector2 { x: 92681, y: 92681 });
    assert!(speed2(&v) <= (2 * U * 2 * U) as u128);
}

#[test]
fn seek_force_from_rest_is_the_desired_velocity() {
    let v = vehicle(at(0, 0), Vector2::zero());
    assert_eq!(v.seek_force(at(10 * U, 0)), Vector2 { x: 2 * U, y: 0 });
}

#[test]
fn seek_force_subtracts_the_velocity() {
    let v = vehicle(at(0, 0), Vector2::new(U, 0));
    assert_eq!(v.seek_force(at(3 * U, 4 * U)), Vector2 { x: 13107, y: 104857 });
    assert_eq!(v.seek_force(at(0, U + 1)), Vector2 { x: -65536, y: 131072 });
}

#[test]
fn seek_force_is_zero_within_one_unit() {
    let v = vehicle(at(0, 0), Vector2::new(U, 0));
    assert_eq!(v.seek_force(at(U, 0)), Vector2 { x: 0, y: 0 });
    assert_eq!(v.seek_force(at(0, 0)), Vector2 { x: 0, y: 0 });
    assert_eq!(v.seek_force(at(-400, 300)), Vector2 { x: 0, y: 0 });
    assert_eq!(v.seek_force(at(U, 1)), Vector2 { x: 65534, y: 1 });
}

#[test]
fn seek_accumulates_the_limited_force() {
    let mut v = vehicle(at(0, 0), Vector2::zero());
    v.seek(at(10 * U, 0));
    assert_eq!(v.acceleration, Vector2 { x: 6553, y: 0 });
    assert_eq!(v.velocity, Vector2 { x: 0, y: 0 });
    assert_eq!(v.location, at(0, 0));
    v.apply_acceleration();
    assert_eq!(v.velocity, Vector2 { x: 6553, y: 0 });
    assert_eq!(v.location, at(6553, 0));
    assert_eq!(v.acceleration, Vector2 { x: 0, y: 0 });
}

#[test]
fn flee_force_points_away_inside_the_safety_range() {
    let v = vehicle(at(10 * U, 10 * U), Vector2::new(0, U));
    let threat = at(13 * U, 14 * U);
    assert_eq!(v.flee_force(threat, (200 * U) as u32), Vector2 { x: -78643, y: -170393 });
    assert_eq!(v.flee_force(threat, (5 * U + 1) as u32), Vector2 { x: -78643, y: -170393 });
}

#[test]
fn flee_force_is_zero_at_the_safety_range_and_beyond() {
    let v = vehicle(at(10 * U, 10 * U), Vector2::new(0, U));
    let threat = at(13 * U, 14 * U);
    assert_eq!(v.flee_force(threat, (5 * U) as u32), Vector2 { x: 0, y: 0 });
    assert_eq!(v.flee_force(threat, (4 * U) as u32), Vector2 { x: 0, y: 0 });
    assert_eq!(v.flee_force(threat, 0), Vector2 { x: 0, y: 0 });
}

#[test]
fn flee_force_is_zero_on_the_threat_itself() {
    let v = vehicle(at(10 * U, 10 * U), Vector2::new(0, U));
    assert_eq!(v.flee_force(at(10 * U, 10 * U), (5 * U) as u32), Vector2 { x: 0, y: 0 });
}

#[test]
fn flee_accumulates_the_limited_force() {
    let mut v = vehicle(at(10 * U, 10 * U), Vector2::zero());
    v.flee(at(13 * U, 14 * U), (200 * U) as u32);
    assert_eq!(v.acceleration, Vector2 { x: -3931, y: -5242 });
}

#[test]
fn arrive_force_ramps_the_speed_inside_the_slowing_radius() {
    let v = vehicle(at(0, 0), Vector2::zero());
    let radius = (100 * U) as u32;
    assert_eq!(v.arrive_force(at(50 * U, 0), radius), Vector2 { x: U, y: 0 });
    assert_eq!(v.arrive_force(at(30 * U, 40 * U), radius), Vector2 { x: 39321, y: 52428 });
    assert_eq!(v.arrive_force(at(100 * U - 1, 0), radius), Vector2 { x: 131071, y: 0 });
}

#[test]
fn arrive_force_is_at_full_speed_outside_the_slowing_radius() {
    let v = vehicle(at(0, 0), Vector2::zero());
    let radius = (100 * U) as u32;
    assert_eq!(v.arrive_force(at(100 * U, 0), radius), Vector2 { x: 2 * U, y: 0 });
    assert_eq!(v.arrive_force(at(150 * U, 0), radius), Vector2 { x: 2 * U, y: 0 });
    assert_eq!(v.arrive_force(at(150 * U, 0), 0), Vector2 { x: 2 * U, y: 0 });
}

#[test]
fn arrive_force_is_zero_at_the_target() {
    let v = vehicle(at(7, 9), Vector2::new(U, 0));
    assert_eq!(v.arrive_force(at(7, 9), (100 * U) as u32), Vector2 { x: 0, y: 0 });
    assert_eq!(v.arrive_force(at(7, 9), 0), Vector2 { x: 0, y: 0 });
}

#[test]
fn arrive_force_brakes_a_moving_vehicle() {
    let v = vehicle(at(0, 0), Vector2::new(U, 0));
    assert_eq!(
        v.arrive_force(at(0, -25 * U), (100 * U) as u32),
        Vector2 { x: -65536, y: -32768 }
    );
}

#[test]
fn arrive_from_rest_stays_below_full_speed_inside_the_slowing_radius() {
    let mut v = Vehicle::new(Vector2::zero(), at(0, 0), (4 * U) as u32, (2 * U) as u32);
    v.arrive(at(30 * U, 40 * U), (100 * U) as u32);
    v.apply_acceleration();
    assert_eq!(v.velocity, Vector2 { x: 39321, y: 52428 });
    assert!(speed2(&v) < (2 * U * 2 * U) as u128);
}

#[test]
fn wander_force_seeks_the_point_on_the_circle() {
    let v = vehicle(at(5 * U, 5 * U), Vector2::new(U / 2, 0));
    let radius = (100 * U) as u32;
    assert_eq!(v.wander(radius, Vector2::new(0, 100 * U)), Vector2 { x: 25849, y: 117234 });
}

#[test]
fn wander_force_is_zero_where_the_point_is_the_vehicle() {
    let v = vehicle(at(5 * U, 5 * U), Vector2::new(U / 2, 0));
    assert_eq!(v.wander((100 * U) as u32, Vector2::new(-50 * U, 0)), Vector2 { x: 0, y: 0 });
}

#[test]
fn wander_force_of_a_vehicle_at_rest_uses_the_offset_alone() {
    let v = Vehicle::new(Vector2::zero(), at(0, 0), 1, (2 * U) as u32);
    let radius = (100 * U) as u32;
    assert_eq!(v.wander(radius, Vector2::new(0, 0)), Vector2 { x: 0, y: 0 });
    assert_eq!(v.wander(radius, Vector2::new(U, 0)), Vector2 { x: 0, y: 0 });
    assert_eq!(v.wander(radius, Vector2::new(U + 1, 0)), Vector2 { x: 2 * U, y: 0 });
}

#[test]
fn turn_changes_the_heading_by_at_most_half_the_maximum() {
    let max_turn: u32 = 17157;
    let samples: [(u32, i64); 5] =
        [(0, -8578), (32768, 0), (49152, 4289), (65535, 8578), (16384, -4289)];
    for (sample, change) in samples {
        let mut v = vehicle(at(0, 0), Vector2::zero());
        v.wander_angle = 1000;
        v.turn(sample, max_turn);
        assert_eq!(v.wander_angle, 1000 + change);
        assert!(change.abs() <= ((max_turn + 1) / 2) as i64);
    }
}

#[test]
fn turn_keeps_everything_but_the_heading() {
    let mut v = vehicle(at(1, 2), Vector2::new(3, 4));
    v.acceleration = Vector2::new(5, 6);
    v.turn(65535, 2);
    assert_eq!(v.wander_angle, 0);
    v.turn(0, 2);
    assert_eq!(v.wander_angle, -1);
    assert_eq!(v.location, at(1, 2));
    assert_eq!(v.velocity, Vector2 { x: 3, y: 4 });
    assert_eq!(v.acceleration, Vector2 { x: 5, y: 6 });
}

#[test]
fn apply_force_limits_each_force_before_it_is_added() {
    let mut v = Vehicle::new(Vector2::zero(), at(0, 0), (5 * U) as u32, (5 * U) as u32);
    v.apply_force(Vector2::new(30 * U, -40 * U));
    assert_eq!(v.acceleration, Vector2 { x: 196608, y: -262144 });
    v.apply_force(Vector2::new(U, U));
    assert_eq!(v.acceleration, Vector2 { x: 262144, y: -196608 });
}

#[test]
fn applied_forces_are_no_longer_than_the_force_limit() {
    let forces = [(1000, 0), (-700, 700), (3, -4000), (0, 0), (99, 99), (-100, -1)];
    for (x, y) in forces {
        let mut v = Vehicle::new(Vector2::zero(), at(0, 0), 100, 1000);
        v.acceleration = Vector2::new(17, -5);
        v.apply_force(Vector2::new(x, y));
        let added = v.acceleration.minus(Vector2::new(17, -5));
        assert!(added.magnitude2() <= 100 * 100);
    }
}

#[test]
fn apply_acceleration_limits_the_speed() {
    let mut v = Vehicle {
        location: at(0, 0),
        wander_angle: 7,
        velocity: Vector2::new(3 * U, 4 * U),
        acceleration: Vector2::new(3 * U, 4 * U),
        max_force: U as u32,
        max_speed: (5 * U) as u32,
    };
    v.apply_acceleration();
    assert_eq!(v.velocity, Vector2 { x: 196608, y: 262144 });
    assert_eq!(v.location, at(196608, 262144));
    assert_eq!(v.acceleration, Vector2 { x: 0, y: 0 });
    assert_eq!(v.wander_angle, 7);
    assert!(speed2(&v) <= (5 * U * 5 * U) as u128);
}

#[test]
fn apply_acceleration_moves_by_the_new_velocity() {
    let mut v = Vehicle {
        location: at(100, 200),
        wander_angle: 0,
        velocity: Vector2::new(U, -U),
        acceleration: Vector2::new(10, 20),
        max_force: U as u32,
        max_speed: (5 * U) as u32,
    };
    v.apply_acceleration();
    assert_eq!(v.velocity, Vector2 { x: 65546, y: -65516 });
    assert_eq!(v.location, at(65646, -65316));
}

#[test]
fn speed_stays_within_the_limit_over_many_frames() {
    let mut v = Vehicle::new(Vector2::zero(), at(0, 0), 30000, (2 * U) as u32);
    let targets = [at(500 * U, 0), at(0, 500 * U), at(-500 * U, -500 * U), at(3, 3)];
    let mut frame = 0;
    while frame < 400 {
        v.seek(targets[frame % 4]);
        v.flee(targets[(frame + 1) % 4], (200 * U) as u32);
        v.apply_acceleration();
        assert!(speed2(&v) <= (2 * U * 2 * U) as u128);
        frame += 1;
    }
}

#[test]
fn seeking_from_rest_comes_closer_frame_by_frame() {
    let mut v = Vehicle::new(Vector2::zero(), at(0, 0), 1966, (2 * U) as u32);
    let target = at(300 * U, 200 * U);
    let mut distance2 = v.location.distance2(target);
    let mut frame = 0;
    while frame < 60 {
        v.seek(target);
        v.apply_acceleration();
        let next = v.location.distance2(target);
        assert!(next <= distance2);
        distance2 = next;
        frame += 1;
    }
    assert_eq!(v.location, at(2992050, 1994700));
    assert_eq!(v.velocity, Vector2 { x: 98100, y: 65400 });
}

#[test]
fn constrain_location_wraps_to_the_opposite_edge() {
    let mut v = vehicle(at(-21, 50), Vector2::zero());
    v.constrain_location(-20, 120, -20, 100);
    assert_eq!(v.location, at(120, 50));
    v.location = at(121, 101);
    v.constrain_location(-20, 120, -20, 100);
    assert_eq!(v.location, at(-20, -20));
    v.location = at(5, -21);
    v.constrain_location(-20, 120, -20, 100);
    assert_eq!(v.location, at(5, 100));
}

#[test]
fn constrain_location_keeps_a_location_inside_or_on_the_edge() {
    let mut v = vehicle(at(-20, 100), Vector2::new(1, 2));
    v.constrain_location(-20, 120, -20, 100);
    assert_eq!(v.location, at(-20, 100));
    v.location = at(120, -20);
    v.constrain_location(-20, 120, -20, 100);
    assert_eq!(v.location, at(120, -20));
    assert_eq!(v.velocity, Vector2 { x: 1, y: 2 });
}

#[test]
fn steer_is_zero_without_a_direction() {
    let v = vehicle(at(0, 0), Vector2::new(U, U));
    assert_eq!(v.steer(Vector2::zero(), 1000), Vector2 { x: 0, y: 0 });
    assert_eq!(v.steer(Vector2::new(0, 5), 1000), Vector2 { x: -U, y: 1000 - U });
}

#[test]
fn bounce_location_comes_back_to_the_edge_and_reverses() {
    let mut v = vehicle(at(-21, 50), Vector2::new(-3, 4));
    v.bounce_location(-20, 120, -20, 100);
    assert_eq!(v.location, at(-20, 50));
    assert_eq!(v.velocity, Vector2 { x: 3, y: 4 });
    v.location = at(121, 101);
    v.bounce_location(-20, 120, -20, 100);
    assert_eq!(v.location, at(120, 100));
    assert_eq!(v.velocity, Vector2 { x: -3, y: -4 });
    v.location = at(5, -30);
    v.bounce_location(-20, 120, -20, 100);
    assert_eq!(v.location, at(5, -20));
    assert_eq!(v.velocity, Vector2 { x: -3, y: 4 });
}

#[test]
fn bounce_location_keeps_an_agent_inside_or_on_the_edge() {
    let mut v = vehicle(at(-20, 100), Vector2::new(1, 2));
    v.bounce_location(-20, 120, -20, 100);
    assert_eq!(v.location, at(-20, 100));
    assert_eq!(v.velocity, Vector2 { x: 1, y: 2 });
    v.location = at(50, 50);
    v.bounce_location(-20, 120, -20, 100);
    assert_eq!(v.location, at(50, 50));
    assert_eq!(v.velocity, Vector2 { x: 1, y: 2 });
}
