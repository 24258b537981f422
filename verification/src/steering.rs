//! A steering agent: its kinematic state, the forces that its behaviours
//! ask for, and the integration step.

use crate::fixed::{
    abs, affine, affine_transform, floor_sqrt, floor_sqrt_of, lemma_floor_sqrt, trunc_div, ONE,
};
use crate::vector::{
    lemma_limited_bound, lemma_limited_within, lemma_with_length_bound, lemma_with_length_within,
    limit_vector2, within, Point2, Vec2, Vector2,
};
use vstd::prelude::*;

verus! {

/// The force that turns `velocity` toward the direction of `desired` at the
/// speed `speed`.  A zero `desired` has no direction: the force is zero.
pub open spec fn steering(desired: Vec2, speed: int, velocity: Vec2) -> Vec2 {
    if desired.is_zero() {
        Vec2::zero()
    } else {
        desired.with_length(speed).minus(velocity)
    }
}

/// The speed at which an agent approaches a target whose squared distance is
/// `distance2`: full speed at the slowing radius and beyond, inside it the
/// share of `max_speed` that the distance, rounded down, is of the radius.
pub open spec fn arrival_speed(distance2: int, slowing_radius: int, max_speed: int) -> int {
    if distance2 < slowing_radius * slowing_radius {
        affine(floor_sqrt(distance2), 0, slowing_radius, 0, max_speed)
    } else {
        max_speed
    }
}

/// A coordinate put back into `min..=max` from the opposite side: one that
/// left below `min` comes back at `max`, one that left above `max` at `min`.
pub open spec fn wrapped(c: int, min: int, max: int) -> int {
    if c < min {
        max
    } else if c > max {
        min
    } else {
        c
    }
}

/// A coordinate kept inside `min..=max`: one that left comes back to the
/// bound that it crossed.
pub open spec fn clamped(c: int, min: int, max: int) -> int {
    if c < min {
        min
    } else if c > max {
        max
    } else {
        c
    }
}

/// The velocity coordinate `v` of an agent whose location coordinate is `c`,
/// reversed if the agent has left `min..=max`.
pub open spec fn reflected(c: int, v: int, min: int, max: int) -> int {
    if c < min || c > max {
        -v
    } else {
        v
    }
}

/// By how much a heading turns for the random `sample` (a fixed-point number,
/// meant to lie in `0..ONE`): between minus and plus half of `max_turn`.
pub open spec fn heading_change(sample: int, max_turn: int) -> int {
    (sample * max_turn) / (ONE as int) - max_turn / 2
}

/// A coordinate is no larger than the length of its vector.
pub proof fn lemma_coordinates_within_length(v: Vec2, len: int)
    requires
        len >= 0,
        v.magnitude2() <= len * len,
    ensures
        abs(v.x) <= len,
        abs(v.y) <= len,
{
    assert(abs(v.x) <= len && abs(v.y) <= len) by (nonlinear_arith)
        requires
            v.x * v.x + v.y * v.y <= len * len,
            len >= 0,
    ;
}

/// Inside the slowing radius the approach speed is below the full speed.
pub proof fn lemma_arrival_speed(distance2: int, slowing_radius: int, max_speed: int)
    requires
        0 <= distance2,
        0 <= slowing_radius,
        0 <= max_speed,
    ensures
        0 <= arrival_speed(distance2, slowing_radius, max_speed) <= max_speed,
        distance2 < slowing_radius * slowing_radius && max_speed > 0 ==> arrival_speed(
            distance2,
            slowing_radius,
            max_speed,
        ) < max_speed,
{
    if distance2 < slowing_radius * slowing_radius {
        lemma_floor_sqrt(distance2);
        let d = floor_sqrt(distance2);
        assert(d < slowing_radius) by (nonlinear_arith)
            requires
                d * d <= distance2,
                distance2 < slowing_radius * slowing_radius,
                d >= 0,
                slowing_radius >= 0,
        ;
        let s = arrival_speed(distance2, slowing_radius, max_speed);
        assert(s == (d * max_speed) / slowing_radius) by (nonlinear_arith)
            requires
                s == trunc_div((d - 0) * (max_speed - 0), slowing_radius - 0),
                d >= 0,
                max_speed >= 0,
                slowing_radius > 0,
        ;
        assert(0 <= s <= max_speed && (max_speed > 0 ==> s < max_speed)) by (nonlinear_arith)
            requires
                s == (d * max_speed) / slowing_radius,
                0 <= d < slowing_radius,
                max_speed >= 0,
        ;
    }
}

/// An agent that steers: where it is, how it moves, and the limits on its
/// speed and on each force applied to it.
#[derive(Clone, Copy, Debug, PartialEq, Eq, Structural)]
pub struct Vehicle {
    pub location: Point2,
    /// The heading that the wander behaviour turns from frame to frame, an
    /// angle in the unit that `turn` is given its `max_turn` in.
    pub wander_angle: i64,
    /// The displacement of one frame.
    pub velocity: Vector2,
    /// The forces applied since the last integration step.
    pub acceleration: Vector2,
    /// No force is applied with a greater length.
    pub max_force: u32,
    /// No integration step leaves a greater speed.
    pub max_speed: u32,
}

impl Vehicle {
    /// The velocity is no faster than `max_speed`.
    pub open spec fn wf(self) -> bool {
        self.velocity@.magnitude2() <= self.max_speed * self.max_speed
    }

    /// The acceleration can take one more force: no coordinate of it comes
    /// within `max_force` of what a `Vector2` can hold.
    pub open spec fn has_room(self) -> bool {
        &&& abs(self.acceleration.x as int) + self.max_force <= i64::MAX
        &&& abs(self.acceleration.y as int) + self.max_force <= i64::MAX
    }

    /// The agent can take a step: its location is farther than `max_speed`
    /// from the edge of what a `Point2` can hold.
    pub open spec fn can_move(self) -> bool {
        &&& i32::MIN <= self.location.x - self.max_speed
        &&& self.location.x + self.max_speed <= i32::MAX
        &&& i32::MIN <= self.location.y - self.max_speed
        &&& self.location.y + self.max_speed <= i32::MAX
    }

    /// The force of the seek behaviour: toward `target` at full speed, and
    /// none within one unit of it.
    pub open spec fn seek_steering(self, target: Vec2) -> Vec2 {
        let desired = target.minus(self.location@);
        if desired.magnitude2() > ONE * ONE {
            steering(desired, self.max_speed as int, self.velocity@)
        } else {
            Vec2::zero()
        }
    }

    /// The force of the flee behaviour: away from `target` at full speed,
    /// and none at `safety_range` from it or farther.
    pub open spec fn flee_steering(self, target: Vec2, safety_range: int) -> Vec2 {
        let desired = self.location@.minus(target);
        if desired.magnitude2() < safety_range * safety_range {
            steering(desired, self.max_speed as int, self.velocity@)
        } else {
            Vec2::zero()
        }
    }

    /// The force of the arrive behaviour: toward `target`, at a speed that
    /// falls with the distance inside `slowing_radius`.
    pub open spec fn arrive_steering(self, target: Vec2, slowing_radius: int) -> Vec2 {
        let desired = target.minus(self.location@);
        steering(
            desired,
            arrival_speed(desired.magnitude2(), slowing_radius, self.max_speed as int),
            self.velocity@,
        )
    }

    /// The force of the wander behaviour: toward the point `offset` of a
    /// circle whose centre lies ahead of the agent by its velocity times
    /// `circle_radius`, and none if that point is within one unit.
    pub open spec fn wander_steering(self, circle_radius: int, offset: Vec2) -> Vec2 {
        let desired = self.velocity@.scaled(circle_radius).plus(offset);
        if desired.magnitude2() > ONE * ONE {
            steering(desired, self.max_speed as int, self.velocity@)
        } else {
            Vec2::zero()
        }
    }

    /// The velocity after the acceleration was added and the speed limited.
    pub open spec fn next_velocity(self) -> Vec2 {
        self.velocity@.plus(self.acceleration@).limited(self.max_speed as int)
    }

    /// An agent at rest in its acceleration, whose velocity is `velocity`
    /// limited to `max_speed`.
    pub fn new(velocity: Vector2, location: Point2, max_force: u32, max_speed: u32) -> (v: Vehicle)
        ensures
            v.wf(),
            v.location == location,
            v.wander_angle == 0,
            v.velocity@ == velocity@.limited(max_speed as int),
            abs(v.velocity.x as int) <= max_speed,
            abs(v.velocity.y as int) <= max_speed,
            v.acceleration@ == Vec2::zero(),
            v.max_force == max_force,
            v.max_speed == max_speed,
    {
        Vehicle {
            location,
            wander_angle: 0,
            velocity: limit_vector2(max_speed, velocity),
            acceleration: Vector2::zero(),
            max_force,
            max_speed,
        }
    }

    /// The steering force toward the direction `desired` at `speed`.
    pub fn steer(&self, desired: Vector2, speed: u32) -> (force: Vector2)
        requires
            self.wf(),
        ensures
            force@ == steering(desired@, speed as int, self.velocity@),
            abs(force@.x) <= speed + self.max_speed,
            abs(force@.y) <= speed + self.max_speed,
    {
        if desired.is_zero() {
            return Vector2::zero();
        }
        let wanted = desired.with_length(speed);
        proof {
            lemma_with_length_bound(desired@, speed as int);
            lemma_coordinates_within_length(self.velocity@, self.max_speed as int);
        }
        wanted.minus(self.velocity)
    }

    /// The force that seeks `target`.
    pub fn seek_force(&self, target: Point2) -> (force: Vector2)
        requires
            self.wf(),
        ensures
            force@ == self.seek_steering(target@),
            abs(force@.x) <= 2 * self.max_speed,
            abs(force@.y) <= 2 * self.max_speed,
    {
        let desired = self.location.toward(target);
        if desired.magnitude2() > 0x1_0000_0000 {
            self.steer(desired, self.max_speed)
        } else {
            Vector2::zero()
        }
    }

    /// The force that flees `target` inside `safety_range`.
    pub fn flee_force(&self, target: Point2, safety_range: u32) -> (force: Vector2)
        requires
            self.wf(),
        ensures
            force@ == self.flee_steering(target@, safety_range as int),
            abs(force@.x) <= 2 * self.max_speed,
            abs(force@.y) <= 2 * self.max_speed,
    {
        let desired = target.toward(self.location);
        let range: u128 = safety_range as u128;
        assert(range * range <= 0xffff_ffff * 0xffff_ffff) by (nonlinear_arith)
            requires
                0 <= range <= 0xffff_ffff,
        ;
        if desired.magnitude2() < range * range {
            self.steer(desired, self.max_speed)
        } else {
            Vector2::zero()
        }
    }

    /// The force that arrives at `target`, slowing down inside
    /// `slowing_radius`.
    pub fn arrive_force(&self, target: Point2, slowing_radius: u32) -> (force: Vector2)
        requires
            self.wf(),
        ensures
            force@ == self.arrive_steering(target@, slowing_radius as int),
            abs(force@.x) <= 2 * self.max_speed,
            abs(force@.y) <= 2 * self.max_speed,
    {
        let desired = self.location.toward(target);
        let distance2 = desired.magnitude2();
        let radius: u128 = slowing_radius as u128;
        assert(radius * radius <= 0xffff_ffff * 0xffff_ffff) by (nonlinear_arith)
            requires
                0 <= radius <= 0xffff_ffff,
        ;
        proof {
            lemma_arrival_speed(distance2 as int, slowing_radius as int, self.max_speed as int);
        }
        let speed: u32 = if distance2 < radius * radius {
            let distance = floor_sqrt_of(distance2);
            assert(distance < slowing_radius) by (nonlinear_arith)
                requires
                    distance * distance <= distance2,
                    distance2 < slowing_radius * slowing_radius,
            ;
            let ramped = affine_transform(
                distance as i64,
                0,
                slowing_radius as i64,
                0,
                self.max_speed as i64,
            );
            ramped as u32
        } else {
            self.max_speed
        };
        self.steer(desired, speed)
    }

    /// The force that wanders toward the point `offset` of the wander circle.
    pub fn wander(&self, circle_radius: u32, offset: Vector2) -> (force: Vector2)
        requires
            self.wf(),
            offset@.magnitude2() <= circle_radius * circle_radius,
        ensures
            force@ == self.wander_steering(circle_radius as int, offset@),
            abs(force@.x) <= 2 * self.max_speed,
            abs(force@.y) <= 2 * self.max_speed,
    {
        proof {
            lemma_coordinates_within_length(self.velocity@, self.max_speed as int);
            lemma_coordinates_within_length(offset@, circle_radius as int);
            lemma_scaled_bound(self.velocity@.x, self.max_speed as int, circle_radius as int);
            lemma_scaled_bound(self.velocity@.y, self.max_speed as int, circle_radius as int);
            assert(self.max_speed * circle_radius <= 0xffff_ffff * 0xffff_ffff) by (nonlinear_arith)
                requires
                    0 <= self.max_speed <= 0xffff_ffff,
                    0 <= circle_radius <= 0xffff_ffff,
            ;
        }
        let ahead = self.velocity.scaled(circle_radius);
        let desired = ahead.plus(offset);
        if desired.magnitude2() > 0x1_0000_0000 {
            self.steer(desired, self.max_speed)
        } else {
            Vector2::zero()
        }
    }

    /// Turns the wander heading by the random `sample`.
    pub fn turn(&mut self, sample: u32, max_turn: u32)
        requires
            i64::MIN <= old(self).wander_angle + heading_change(sample as int, max_turn as int)
                <= i64::MAX,
        ensures
            final(self).wander_angle == old(self).wander_angle + heading_change(
                sample as int,
                max_turn as int,
            ),
            sample < ONE ==> abs(final(self).wander_angle - old(self).wander_angle) <= (max_turn
                + 1) / 2,
            final(self).location == old(self).location,
            final(self).velocity == old(self).velocity,
            final(self).acceleration == old(self).acceleration,
            final(self).max_force == old(self).max_force,
            final(self).max_speed == old(self).max_speed,
    {
        assert(0 <= sample * max_turn <= 0xffff_ffff * 0xffff_ffff) by (nonlinear_arith)
            requires
                0 <= sample <= 0xffff_ffff,
                0 <= max_turn <= 0xffff_ffff,
        ;
        let product: u64 = sample as u64 * max_turn as u64;
        let swing: i64 = (product / 65536) as i64;
        let change: i64 = swing - (max_turn / 2) as i64;
        if sample < 65536 {
            assert(sample * max_turn <= 65535 * max_turn) by (nonlinear_arith)
                requires
                    0 <= sample <= 65535,
                    0 <= max_turn,
            ;
        }
        self.wander_angle = self.wander_angle + change;
    }

    /// Adds `force`, limited to `max_force`, to the acceleration.
    pub fn apply_force(&mut self, force: Vector2)
        requires
            old(self).has_room(),
        ensures
            final(self).acceleration@ == old(self).acceleration@.plus(
                force@.limited(old(self).max_force as int),
            ),
            final(self).acceleration@.minus(old(self).acceleration@).magnitude2() <= old(
                self,
            ).max_force * old(self).max_force,
            abs(final(self).acceleration.x as int) <= abs(old(self).acceleration.x as int) + old(
                self,
            ).max_force,
            abs(final(self).acceleration.y as int) <= abs(old(self).acceleration.y as int) + old(
                self,
            ).max_force,
            final(self).location == old(self).location,
            final(self).wander_angle == old(self).wander_angle,
            final(self).velocity == old(self).velocity,
            final(self).max_force == old(self).max_force,
            final(self).max_speed == old(self).max_speed,
    {
        let limited = limit_vector2(self.max_force, force);
        proof {
            lemma_limited_bound(force@, self.max_force as int);
        }
        self.acceleration = self.acceleration.plus(limited);
    }

    /// One integration step: the acceleration is added to the velocity, the
    /// speed is limited, the location moves by the new velocity and the
    /// acceleration starts again from zero.
    pub fn apply_acceleration(&mut self)
        requires
            old(self).velocity@.plus(old(self).acceleration@).fits_vector(),
            old(self).can_move(),
        ensures
            final(self).velocity@ == old(self).next_velocity(),
            final(self).velocity@.magnitude2() <= old(self).max_speed * old(self).max_speed,
            abs(final(self).velocity.x as int) <= old(self).max_speed,
            abs(final(self).velocity.y as int) <= old(self).max_speed,
            final(self).wf(),
            final(self).location@ == old(self).location@.plus(old(self).next_velocity()),
            final(self).acceleration@ == Vec2::zero(),
            final(self).wander_angle == old(self).wander_angle,
            final(self).max_force == old(self).max_force,
            final(self).max_speed == old(self).max_speed,
    {
        let sum = self.velocity.plus(self.acceleration);
        proof {
            lemma_limited_bound(sum@, self.max_speed as int);
        }
        self.velocity = limit_vector2(self.max_speed, sum);
        self.location = self.location.displaced(self.velocity);
        self.acceleration = Vector2::zero();
    }

    /// Brings a location that left the rectangle back in from the opposite
    /// edge.
    pub fn constrain_location(&mut self, x_min: i32, x_max: i32, y_min: i32, y_max: i32)
        ensures
            final(self).location.x == wrapped(
                old(self).location.x as int,
                x_min as int,
                x_max as int,
            ),
            final(self).location.y == wrapped(
                old(self).location.y as int,
                y_min as int,
                y_max as int,
            ),
            final(self).wander_angle == old(self).wander_angle,
            final(self).velocity == old(self).velocity,
            final(self).acceleration == old(self).acceleration,
            final(self).max_force == old(self).max_force,
            final(self).max_speed == old(self).max_speed,
    {
        if self.location.x < x_min {
            self.location.x = x_max;
        } else if self.location.x > x_max {
            self.location.x = x_min;
        }
        if self.location.y < y_min {
            self.location.y = y_max;
        } else if self.location.y > y_max {
            self.location.y = y_min;
        }
    }

    /// Makes an agent that left the rectangle bounce: its location comes
    /// back to the edge that it crossed, and its velocity is reversed in the
    /// coordinate in which it left.
    pub fn bounce_location(&mut self, x_min: i32, x_max: i32, y_min: i32, y_max: i32)
        requires
            old(self).velocity.x != i64::MIN,
            old(self).velocity.y != i64::MIN,
        ensures
            final(self).location.x == clamped(
                old(self).location.x as int,
                x_min as int,
                x_max as int,
            ),
            final(self).location.y == clamped(
                old(self).location.y as int,
                y_min as int,
                y_max as int,
            ),
            final(self).velocity.x == reflected(
                old(self).location.x as int,
                old(self).velocity.x as int,
                x_min as int,
                x_max as int,
            ),
            final(self).velocity.y == reflected(
                old(self).location.y as int,
                old(self).velocity.y as int,
                y_min as int,
                y_max as int,
            ),
            old(self).wf() ==> final(self).wf(),
            final(self).wander_angle == old(self).wander_angle,
            final(self).acceleration == old(self).acceleration,
            final(self).max_force == old(self).max_force,
            final(self).max_speed == old(self).max_speed,
    {
        if self.location.x < x_min {
            self.location.x = x_min;
            self.velocity.x = -self.velocity.x;
        } else if self.location.x > x_max {
            self.location.x = x_max;
            self.velocity.x = -self.velocity.x;
        }
        if self.location.y < y_min {
            self.location.y = y_min;
            self.velocity.y = -self.velocity.y;
        } else if self.location.y > y_max {
            self.location.y = y_max;
            self.velocity.y = -self.velocity.y;
        }
        proof {
            let a = old(self).velocity@;
            let b = self.velocity@;
            assert(b.x * b.x == a.x * a.x && b.y * b.y == a.y * a.y) by (nonlinear_arith)
                requires
                    b.x == a.x || b.x == -a.x,
                    b.y == a.y || b.y == -a.y,
            ;
        }
    }

    /// Seeks `target`: the seek force is applied.
    pub fn seek(&mut self, target: Point2)
        requires
            old(self).wf(),
            old(self).has_room(),
        ensures
            final(self).acceleration@ == old(self).acceleration@.plus(
                old(self).seek_steering(target@).limited(old(self).max_force as int),
            ),
            final(self).location == old(self).location,
            final(self).wander_angle == old(self).wander_angle,
            final(self).velocity == old(self).velocity,
            final(self).max_force == old(self).max_force,
            final(self).max_speed == old(self).max_speed,
    {
        let force = self.seek_force(target);
        self.apply_force(force);
    }

    /// Flees `target` inside `safety_range`: the flee force is applied.
    pub fn flee(&mut self, target: Point2, safety_range: u32)
        requires
            old(self).wf(),
            old(self).has_room(),
        ensures
            final(self).acceleration@ == old(self).acceleration@.plus(
                old(self).flee_steering(target@, safety_range as int).limited(
                    old(self).max_force as int,
                ),
            ),
            final(self).location == old(self).location,
            final(self).wander_angle == old(self).wander_angle,
            final(self).velocity == old(self).velocity,
            final(self).max_force == old(self).max_force,
            final(self).max_speed == old(self).max_speed,
    {
        let force = self.flee_force(target, safety_range);
        self.apply_force(force);
    }

    /// Arrives at `target`, slowing down inside `slowing_radius`: the arrive
    /// force is applied.
    pub fn arrive(&mut self, target: Point2, slowing_radius: u32)
        requires
            old(self).wf(),
            old(self).has_room(),
        ensures
            final(self).acceleration@ == old(self).acceleration@.plus(
                old(self).arrive_steering(target@, slowing_radius as int).limited(
                    old(self).max_force as int,
                ),
            ),
            final(self).location == old(self).location,
            final(self).wander_angle == old(self).wander_angle,
            final(self).velocity == old(self).velocity,
            final(self).max_force == old(self).max_force,
            final(self).max_speed == old(self).max_speed,
    {
        let force = self.arrive_force(target, slowing_radius);
        self.apply_force(force);
    }
}

/// The fixed-point product of a coordinate bounded by `bound` with `factor`
/// is bounded by the product of the bounds.
pub proof fn lemma_scaled_bound(x: int, bound: int, factor: int)
    requires
        abs(x) <= bound,
        0 <= factor,
    ensures
        abs(trunc_div(x * factor, ONE as int)) <= (bound * factor) / (ONE as int),
        0 <= bound * factor,
{
    let a = abs(x) * factor;
    assert(abs(x * factor) == a && 0 <= a <= bound * factor) by (nonlinear_arith)
        requires
            a == abs(x) * factor,
            0 <= abs(x) <= bound,
            factor >= 0,
    ;
    assert(a / 65536 <= (bound * factor) / 65536);
}

/// Seeking approaches.  Take an agent with no force pending whose velocity
/// heads for the target without passing it (coordinate by coordinate; an
/// agent at rest is one), and whose full speed is no more than its distance
/// to the target where the seek force acts.  After the seek force and the
/// integration step the agent is no farther from the target than before,
/// and its velocity still heads for where the target was seen from.
pub proof fn lemma_seek_approaches(v: Vehicle, target: Vec2)
    requires
        v.acceleration@ == Vec2::zero(),
        within(v.velocity@.x, target.minus(v.location@).x),
        within(v.velocity@.y, target.minus(v.location@).y),
        target.minus(v.location@).magnitude2() > ONE * ONE ==> v.max_speed * v.max_speed
            <= target.minus(v.location@).magnitude2(),
    ensures
        ({
            let way = target.minus(v.location@);
            let force = v.seek_steering(target).limited(v.max_force as int);
            let velocity = v.velocity@.plus(force).limited(v.max_speed as int);
            let location = v.location@.plus(velocity);
            &&& target.minus(location).magnitude2() <= way.magnitude2()
            &&& within(velocity.x, way.x)
            &&& within(velocity.y, way.y)
        }),
{
    let way = target.minus(v.location@);
    let steer = v.seek_steering(target);
    let force = steer.limited(v.max_force as int);
    let pushed = v.velocity@.plus(force);
    let velocity = pushed.limited(v.max_speed as int);
    let location = v.location@.plus(velocity);
    lemma_limited_within(steer, v.max_force as int);
    lemma_limited_within(pushed, v.max_speed as int);
    if way.magnitude2() > ONE * ONE {
        assert(!way.is_zero()) by (nonlinear_arith)
            requires
                way.x * way.x + way.y * way.y > 0,
        ;
        lemma_with_length_within(way, v.max_speed as int);
    }
    let rest = target.minus(location);
    assert(within(rest.x, way.x));
    assert(within(rest.y, way.y));
    assert(rest.x * rest.x + rest.y * rest.y <= way.x * way.x + way.y * way.y) by (nonlinear_arith)
        requires
            within(rest.x, way.x),
            within(rest.y, way.y),
    ;
}

/// Arriving slows down.  Inside the slowing radius, and not yet at the
/// target, the velocity that the arrive force steers for is slower than the
/// full speed; and an agent at rest with no force pending is slower than its
/// full speed after the arrive force and the integration step.
pub proof fn lemma_arrive_slows(v: Vehicle, target: Vec2, slowing_radius: int)
    requires
        0 <= slowing_radius,
        0 < v.max_speed,
        target.minus(v.location@).magnitude2() < slowing_radius * slowing_radius,
    ensures
        v.arrive_steering(target, slowing_radius).plus(
            if target.minus(v.location@).is_zero() {
                Vec2::zero()
            } else {
                v.velocity@
            },
        ).magnitude2() < v.max_speed * v.max_speed,
        v.velocity@ == Vec2::zero() && v.acceleration@ == Vec2::zero() ==> v.velocity@.plus(
            v.arrive_steering(target, slowing_radius).limited(v.max_force as int),
        ).limited(v.max_speed as int).magnitude2() < v.max_speed * v.max_speed,
{
    let way = target.minus(v.location@);
    let n = way.magnitude2();
    assert(n >= 0) by (nonlinear_arith)
        requires
            n == way.x * way.x + way.y * way.y,
    ;
    lemma_arrival_speed(n, slowing_radius, v.max_speed as int);
    let speed = arrival_speed(n, slowing_radius, v.max_speed as int);
    let wanted = way.with_length(speed);
    lemma_with_length_bound(way, speed);
    assert(speed * speed < v.max_speed * v.max_speed) by (nonlinear_arith)
        requires
            0 <= speed < v.max_speed,
    ;
    let steer = v.arrive_steering(target, slowing_radius);
    if way.is_zero() {
        assert(steer == Vec2::zero());
    } else {
        assert(steer.plus(v.velocity@) == wanted);
    }
    if v.velocity@ == Vec2::zero() && v.acceleration@ == Vec2::zero() {
        assert(steer.magnitude2() <= speed * speed) by {
            if way.is_zero() {
                assert(speed * speed >= 0) by (nonlinear_arith);
            } else {
                assert(steer == wanted);
            }
        }
        let force = steer.limited(v.max_force as int);
        lemma_limited_bound(steer, v.max_force as int);
        let pushed = v.velocity@.plus(force);
        assert(pushed == force);
        lemma_limited_bound(pushed, v.max_speed as int);
    }
}

} // verus!
