use skunkworks::flock::neighbour_mean_of;
use skunkworks::{align, cohesion, separate, Flock, Point2, Rule, Rules, Vector2, Vehicle, ONE};

const U: i64 = ONE;

fn at(x: i64, y: i64) -> Point2 {
    Point2::new(x as i32, y as i32)
}

fn agent(location: Point2, velocity: Vector2) -> Vehicle {
    Vehicle::new(velocity, location, 1966, (2 * U) as u32)
}

fn four() -> Vec<Vehicle> {
    vec![
        agent(at(0, 0), Vector2::new(0, 0)),
        agent(at(10 * U, 0), Vector2::new(0, U)),
        agent(at(0, 20 * U), Vector2::new(U, 0)),
        agent(at(500 * U, 0), Vector2::new(U, U)),
    ]
}

fn rules() -> Rules {
    Rules {
        separation_range: (80 * U) as u32,
        separation_weight: 98304,
        align_range: (160 * U) as u32,
        align_weight: U as u32,
        cohesion_range: (160 * U) as u32,
        cohesion_weight: U as u32,
        wander_weight: U as u32,
        circle_radius: (100 * U) as u32,
        x_min: (-20 * U) as i32,
        x_max: (1940 * U) as i32,
        y_min: (-20 * U) as i32,
        y_max: (1220 * U) as i32,
    }
}

#[test]
fn coincident_agents_do_not_repel() {
    let pair = vec![
        agent(at(5 * U, 5 * U), Vector2::new(U, 0)),
        agent(at(5 * U, 5 * U), Vector2::new(0, U)),
    ];
    assert_eq!(separate(&pair, 0, (80 * U) as u32), Vector2 { x: 0, y: 0 });
    assert_eq!(separate(&pair, 1, (80 * U) as u32), Vector2 { x: 0, y: 0 });
    assert_eq!(neighbour_mean_of(Rule::Separation, &pair, 0, (80 * U) as u32), None);
}

#[test]
fn coincident_agents_still_align_and_cohere() {
    let pair = vec![
        agent(at(5 * U, 5 * U), Vector2::new(U, 0)),
        agent(at(5 * U, 5 * U), Vector2::new(0, U)),
    ];
    assert_eq!(align(&pair, 0, (80 * U) as u32), Vector2 { x: -65536, y: 131072 });
    assert_eq!(cohesion(&pair, 0, (80 * U) as u32), Vector2 { x: 0, y: 0 });
    assert_eq!(
        neighbour_mean_of(Rule::Cohesion, &pair, 0, (80 * U) as u32),
        Some(Vector2 { x: 5 * U, y: 5 * U })
    );
}

#[test]
fn a_coincident_agent_is_passed_over_among_others() {
    let three = vec![
        agent(at(0, 0), Vector2::zero()),
        agent(at(0, 0), Vector2::zero()),
        agent(at(10 * U, 0), Vector2::zero()),
    ];
    assert_eq!(
        neighbour_mean_of(Rule::Separation, &three, 0, (80 * U) as u32),
        Some(Vector2 { x: -6553, y: 0 })
    );
    assert_eq!(separate(&three, 0, (80 * U) as u32), Vector2 { x: -2 * U, y: 0 });
}

#[test]
fn separation_means_weigh_near_neighbours_more() {
    let flock = four();
    let range = (80 * U) as u32;
    assert_eq!(
        neighbour_mean_of(Rule::Separation, &flock, 0, range),
        Some(Vector2 { x: -3276, y: -1638 })
    );
    assert_eq!(
        neighbour_mean_of(Rule::Separation, &flock, 1, range),
        Some(Vector2 { x: 3931, y: -1310 })
    );
    assert_eq!(
        neighbour_mean_of(Rule::Separation, &flock, 2, range),
        Some(Vector2 { x: -655, y: 2948 })
    );
    assert_eq!(neighbour_mean_of(Rule::Separation, &flock, 3, range), None);
}

#[test]
fn separation_force_points_away_from_the_neighbours() {
    let flock = four();
    let range = (80 * U) as u32;
    assert_eq!(separate(&flock, 0, range), Vector2 { x: -117224, y: -58612 });
    assert_eq!(separate(&flock, 1, range), Vector2 { x: 124334, y: -106970 });
    assert_eq!(separate(&flock, 2, range), Vector2 { x: -93963, y: 127947 });
}

#[test]
fn alignment_force_steers_for_the_mean_velocity() {
    let flock = four();
    let range = (160 * U) as u32;
    assert_eq!(
        neighbour_mean_of(Rule::Alignment, &flock, 0, range),
        Some(Vector2 { x: 32768, y: 32768 })
    );
    assert_eq!(align(&flock, 0, range), Vector2 { x: 92681, y: 92681 });
    assert_eq!(align(&flock, 1, range), Vector2 { x: 131072, y: -65536 });
    assert_eq!(align(&flock, 2, range), Vector2 { x: -65536, y: 131072 });
}

#[test]
fn cohesion_force_seeks_the_mean_location() {
    let flock = four();
    let range = (160 * U) as u32;
    assert_eq!(
        neighbour_mean_of(Rule::Cohesion, &flock, 0, range),
        Some(Vector2 { x: 327680, y: 655360 })
    );
    assert_eq!(cohesion(&flock, 0, range), Vector2 { x: 58617, y: 117234 });
    assert_eq!(cohesion(&flock, 1, range), Vector2 { x: -92681, y: 27145 });
    assert_eq!(cohesion(&flock, 2, range), Vector2 { x: -33747, y: -127158 });
}

#[test]
fn an_agent_without_neighbours_feels_no_force() {
    let flock = four();
    assert_eq!(separate(&flock, 3, (80 * U) as u32), Vector2 { x: 0, y: 0 });
    assert_eq!(align(&flock, 3, (160 * U) as u32), Vector2 { x: 0, y: 0 });
    assert_eq!(cohesion(&flock, 3, (160 * U) as u32), Vector2 { x: 0, y: 0 });
    let alone = vec![agent(at(0, 0), Vector2::new(U, 0))];
    assert_eq!(separate(&alone, 0, u32::MAX), Vector2 { x: 0, y: 0 });
    assert_eq!(align(&alone, 0, u32::MAX), Vector2 { x: 0, y: 0 });
    assert_eq!(cohesion(&alone, 0, u32::MAX), Vector2 { x: 0, y: 0 });
}

#[test]
fn an_agent_at_the_range_is_no_neighbour() {
    let pair = vec![agent(at(0, 0), Vector2::zero()), agent(at(10 * U, 0), Vector2::new(0, U))];
    assert_eq!(neighbour_mean_of(Rule::Alignment, &pair, 0, (10 * U) as u32), None);
    assert_eq!(
        neighbour_mean_of(Rule::Alignment, &pair, 0, (10 * U + 1) as u32),
        Some(Vector2 { x: 0, y: U })
    );
    assert_eq!(neighbour_mean_of(Rule::Alignment, &pair, 0, 0), None);
}

#[test]
fn means_round_toward_zero() {
    let flock = vec![
        agent(at(0, 0), Vector2::zero()),
        agent(at(-3, 0), Vector2::new(-5, -7)),
        agent(at(0, -4), Vector2::new(2, -2)),
        agent(at(1, 1), Vector2::zero()),
    ];
    let range = U as u32;
    assert_eq!(
        neighbour_mean_of(Rule::Alignment, &flock, 0, range),
        Some(Vector2 { x: -1, y: -3 })
    );
    assert_eq!(
        neighbour_mean_of(Rule::Cohesion, &flock, 0, range),
        Some(Vector2 { x: 0, y: -1 })
    );
    assert_eq!(
        neighbour_mean_of(Rule::Separation, &flock, 0, range),
        Some(Vector2 { x: -238609294, y: -357913941 })
    );
}

#[test]
fn update_runs_one_frame_of_one_agent() {
    let mut flock = Flock::new(rules());
    for v in four() {
        flock.push(v);
    }
    assert!(flock.is_ready(0));
    flock.update(0, Vector2::new(0, 100 * U));
    assert_eq!(flock.vehicles[0].location, at(511, 4235));
    assert_eq!(flock.vehicles[0].velocity, Vector2 { x: 511, y: 4235 });
    assert_eq!(flock.vehicles[0].acceleration, Vector2 { x: 0, y: 0 });
    assert_eq!(flock.vehicles[1], four()[1]);
    assert_eq!(flock.vehicles[2], four()[2]);
    assert_eq!(flock.vehicles[3], four()[3]);
    assert_eq!(flock.rules, rules());
}

#[test]
fn update_sees_the_agents_that_moved_before() {
    let mut flock = Flock::new(rules());
    for v in four() {
        flock.push(v);
    }
    flock.update(0, Vector2::new(0, 100 * U));
    assert!(flock.is_ready(1));
    flock.update(1, Vector2::new(-100 * U, 0));
    assert_eq!(flock.vehicles[1].location, at(654875, 64570));
    assert_eq!(flock.vehicles[1].velocity, Vector2 { x: -485, y: 64570 });
}

#[test]
fn update_wraps_the_location() {
    let mut flock = Flock::new(rules());
    flock.push(agent(at(1940 * U - 10, -20 * U + 5), Vector2::new(92681, -92681)));
    assert!(flock.is_ready(0));
    flock.update(0, Vector2::new(100 * U, 0));
    assert_eq!(flock.vehicles[0].velocity, Vector2 { x: 93882, y: -91126 });
    assert_eq!(flock.vehicles[0].location, at(-20 * U, 1220 * U));
}

#[test]
fn update_keeps_every_agent_within_its_speed_limit() {
    let mut flock = Flock::new(rules());
    let mut k: i64 = 0;
    while k < 12 {
        flock.push(agent(
            at((k % 4) * 30 * U, (k / 4) * 25 * U),
            Vector2::new((k - 6) * 9000, (5 - k) * 7000),
        ));
        k += 1;
    }
    let offsets = [(100 * U, 0), (0, -100 * U), (-70 * U, 70 * U), (0, 0)];
    let mut frame = 0;
    while frame < 50 {
        let mut i = 0;
        while i < flock.vehicles.len() {
            assert!(flock.is_ready(i));
            let (x, y) = offsets[(frame + i) % 4];
            flock.update(i, Vector2::new(x, y));
            let v = flock.vehicles[i];
            assert!(v.velocity.magnitude2() <= (2 * U * 2 * U) as u128);
            assert_eq!(v.acceleration, Vector2 { x: 0, y: 0 });
            i += 1;
        }
        frame += 1;
    }
}

#[test]
fn is_ready_tells_what_update_needs() {
    let mut flock = Flock::new(rules());
    flock.push(agent(at(0, 0), Vector2::zero()));
    assert!(flock.is_ready(0));
    assert!(!flock.is_ready(1));
    flock.vehicles[0].velocity = Vector2::new(2 * U, 1);
    assert!(!flock.is_ready(0));
    flock.vehicles[0].velocity = Vector2::new(2 * U, 0);
    assert!(flock.is_ready(0));
    flock.vehicles[0].location = at(i32::MAX as i64 - 2 * U + 1, 0);
    assert!(!flock.is_ready(0));
    flock.vehicles[0].location = at(i32::MAX as i64 - 2 * U, i32::MIN as i64 + 2 * U);
    assert!(flock.is_ready(0));
    flock.vehicles[0].acceleration = Vector2::new(0, i64::MAX - 4 * 1966 - 2 * U + 1);
    assert!(!flock.is_ready(0));
    flock.vehicles[0].acceleration = Vector2::new(-(i64::MAX - 4 * 1966 - 2 * U), 0);
    assert!(flock.is_ready(0));
}

#[test]
fn a_new_flock_is_empty() {
    let mut flock = Flock::new(rules());
    assert_eq!(flock.vehicles.len(), 0);
    assert_eq!(flock.rules, rules());
    flock.push(agent(at(1, 2), Vector2::zero()));
    flock.push(agent(at(3, 4), Vector2::zero()));
    assert_eq!(flock.vehicles.len(), 2);
    assert_eq!(flock.vehicles[1].location, at(3, 4));
}
