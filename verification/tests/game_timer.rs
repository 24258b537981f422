use skunkworks::game_timer::{duration_to_nanos, GameTimer};
use std::time::{Duration, Instant};

fn wait(duration: Duration) {
    let start = Instant::now();
    while start.elapsed() < duration {}
}

#[test]
fn new_timer_has_no_tick_and_no_frame_time() {
    let timer = GameTimer::new();
    assert_eq!(timer.get_ticks(), 0);
    assert_eq!(timer.get_frame_time(), 0);
}

#[test]
fn default_timer_is_a_new_timer() {
    let timer = GameTimer::default();
    assert_eq!(timer.get_ticks(), 0);
    assert_eq!(timer.get_frame_time(), 0);
}

#[test]
fn tick_counts() {
    let mut timer = GameTimer::new();
    timer.tick();
    assert_eq!(timer.get_ticks(), 1);
    timer.tick();
    timer.tick();
    assert_eq!(timer.get_ticks(), 3);
}

#[test]
fn tick_measures_the_time_since_the_timer_was_made() {
    let before = Instant::now();
    let mut timer = GameTimer::new();
    wait(Duration::from_millis(20));
    timer.tick();
    let outer = before.elapsed().as_nanos() as u64;
    assert!(timer.get_frame_time() >= 20_000_000);
    assert!(timer.get_frame_time() <= outer);
}

#[test]
fn tick_measures_the_time_since_the_last_tick() {
    let mut timer = GameTimer::new();
    wait(Duration::from_millis(30));
    timer.tick();
    let before = Instant::now();
    wait(Duration::from_millis(5));
    timer.tick();
    let outer = before.elapsed().as_nanos() as u64 + 30_000_000;
    assert!(timer.get_frame_time() >= 5_000_000);
    assert!(timer.get_frame_time() < outer);
}

#[test]
fn duration_to_nanos_adds_seconds_and_nanoseconds() {
    assert_eq!(duration_to_nanos(0, 0), 0);
    assert_eq!(duration_to_nanos(0, 999_999_999), 999_999_999);
    assert_eq!(duration_to_nanos(1, 500), 1_000_000_500);
    assert_eq!(duration_to_nanos(18_446_744_073, 709_551_615), u64::MAX);
}

#[test]
fn duration_to_nanos_stops_at_the_largest_number() {
    assert_eq!(duration_to_nanos(18_446_744_073, 709_551_616), u64::MAX);
    assert_eq!(duration_to_nanos(18_446_744_074, 0), u64::MAX);
    assert_eq!(duration_to_nanos(u64::MAX, 999_999_999), u64::MAX);
}
