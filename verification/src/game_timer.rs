//! A frame timer: how long the last frame took, and how many frames there
//! have been.

use std::time::{Duration, Instant};
use vstd::prelude::*;

verus! {

/// `std::time::Instant`: a moment of the monotonic clock.  It is carried
/// from tick to tick and never looked into.
#[verifier::external_type_specification]
#[verifier::external_body]
pub struct ExInstant(Instant);

/// `std::time::Instant::now`: the present moment.  Nothing is claimed of it.
#[verifier::external_body]
fn now() -> (instant: Instant) {
    Instant::now()
}

/// `std::time::Instant::elapsed`: the time that has passed since `since`.
/// Nothing is claimed of it.
#[verifier::external_body]
fn elapsed(since: &Instant) -> (duration: Duration) {
    since.elapsed()
}

/// `std::time::Duration::as_secs`: the whole seconds of a duration.  Nothing
/// is claimed of them.
#[verifier::external_body]
fn whole_seconds(duration: &Duration) -> (seconds: u64) {
    duration.as_secs()
}

/// `std::time::Duration::subsec_nanos`: the part of a duration beyond its
/// whole seconds, in nanoseconds, which is less than a second.
#[verifier::external_body]
fn subsecond_nanos(duration: &Duration) -> (nanos: u32)
    ensures
        nanos < 1_000_000_000,
{
    duration.subsec_nanos()
}

/// The nanoseconds in `seconds` whole seconds and `nanos` nanoseconds; what
/// exceeds a `u64` counts as `u64::MAX`.
pub open spec fn nanoseconds(seconds: int, nanos: int) -> int {
    if seconds * 1_000_000_000 + nanos <= u64::MAX {
        seconds * 1_000_000_000 + nanos
    } else {
        u64::MAX as int
    }
}

/// A duration given by its whole seconds and the nanoseconds beyond them, in
/// nanoseconds.
pub fn duration_to_nanos(seconds: u64, nanos: u32) -> (total: u64)
    ensures
        total == nanoseconds(seconds as int, nanos as int),
{
    let total: u128 = seconds as u128 * 1_000_000_000 + nanos as u128;
    if total <= 0xffff_ffff_ffff_ffff {
        total as u64
    } else {
        0xffff_ffff_ffff_ffff
    }
}

/// Measures frames.
pub struct GameTimer {
    previous_instant: Instant,
    frame_time: u64,
    tick_counter: usize,
}

impl GameTimer {
    /// The number of ticks so far.
    pub closed spec fn ticks(&self) -> nat {
        self.tick_counter as nat
    }

    /// The time between the last two ticks, in nanoseconds.
    pub closed spec fn frame_time(&self) -> nat {
        self.frame_time as nat
    }

    /// A timer that starts now, with no tick and no frame time yet.
    pub fn new() -> (timer: GameTimer)
        ensures
            timer.ticks() == 0,
            timer.frame_time() == 0,
    {
        GameTimer { previous_instant: now(), frame_time: 0, tick_counter: 0 }
    }

    /// The time between the last two ticks, in nanoseconds.
    pub fn get_frame_time(&self) -> (nanos: u64)
        ensures
            nanos == self.frame_time(),
    {
        self.frame_time
    }

    /// The number of ticks so far.
    pub fn get_ticks(&self) -> (ticks: usize)
        ensures
            ticks == self.ticks(),
    {
        self.tick_counter
    }

    /// Ends a frame: the frame time is the time since the last tick, or
    /// since the timer was made, and the ticks count one more.
    pub fn tick(&mut self)
        requires
            old(self).ticks() < usize::MAX,
        ensures
            final(self).ticks() == old(self).ticks() + 1,
    {
        let passed = elapsed(&self.previous_instant);
        self.frame_time = duration_to_nanos(whole_seconds(&passed), subsecond_nanos(&passed));
        self.previous_instant = now();
        self.tick_counter = self.tick_counter + 1;
    }
}

impl Default for GameTimer {
    fn default() -> (timer: GameTimer)
        ensures
            timer.ticks() == 0,
            timer.frame_time() == 0,
    {
        GameTimer::new()
    }
}

} // verus!
