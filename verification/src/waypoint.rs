//! Actors that walk from waypoint to waypoint: the step toward the next
//! waypoint, the test for arrival, and what becomes of a waypoint that was
//! reached.

use crate::fixed::{abs, ceil_sqrt_of, ONE};
use crate::vector::{lemma_coordinates_below_root, rescale, Point2, Vec2};
use vstd::prelude::*;

verus! {

/// A point that an actor walks to.
#[derive(Clone, Copy, Debug, PartialEq, Eq, Structural)]
pub struct Waypoint {
    pub position: Point2,
}

impl Waypoint {
    pub fn new(x: i32, y: i32) -> (w: Waypoint)
        ensures
            w.position.x == x,
            w.position.y == y,
    {
        Waypoint { position: Point2 { x, y } }
    }
}

/// An actor that walks toward the first of its waypoints, at `speed` units
/// a second.
pub struct Actor {
    pub position: Point2,
    pub speed: u32,
    pub waypoints: Vec<Waypoint>,
}

/// What becomes of a waypoint that was reached.
#[derive(Clone, Copy, Debug, PartialEq, Eq, Structural)]
pub enum Traversal {
    /// The waypoint is dropped: the path is walked once.
    OneShot,
    /// The waypoint goes to the end of the queue: the path is walked for ever.
    Patrol,
}

/// How far an actor of speed `speed` gets in `delta_t` nanoseconds.
pub open spec fn step_length(speed: int, delta_t: int) -> int {
    (speed * delta_t) / 1_000_000_000
}

/// Where a step of length `step` toward `target` leads from `position`.  The
/// step is not shortened where the target is nearer than that.
pub open spec fn stepped(position: Vec2, target: Vec2, step: int) -> Vec2 {
    position.plus(target.minus(position).with_length(step))
}

/// `position` is within a hundredth of `speed` of `target`.
pub open spec fn within_reach(position: Vec2, target: Vec2, speed: int) -> bool {
    10_000 * target.minus(position).magnitude2() < speed * speed
}

/// The queue with its first element moved to the end.
pub open spec fn rotated<T>(s: Seq<T>) -> Seq<T> {
    if s.len() == 0 {
        s
    } else {
        s.subrange(1, s.len() as int).push(s[0])
    }
}

/// The queue after `k` rotations.
pub open spec fn rotated_by<T>(s: Seq<T>, k: nat) -> Seq<T>
    decreases k,
{
    if k == 0 {
        s
    } else {
        rotated(rotated_by(s, (k - 1) as nat))
    }
}

/// The queue once its first waypoint was reached.
pub open spec fn advanced(s: Seq<Waypoint>, traversal: Traversal) -> Seq<Waypoint> {
    if s.len() == 0 {
        s
    } else {
        match traversal {
            Traversal::OneShot => s.subrange(1, s.len() as int),
            Traversal::Patrol => rotated(s),
        }
    }
}

/// After `k` rotations, with `k` no more than the length, the queue starts
/// at its former element `k` and ends with its former first `k` elements.
pub proof fn lemma_rotated_by<T>(s: Seq<T>, k: nat)
    requires
        k <= s.len(),
    ensures
        rotated_by(s, k) == s.subrange(k as int, s.len() as int) + s.subrange(0, k as int),
    decreases k,
{
    let n = s.len() as int;
    if k == 0 {
        assert(s.subrange(0, n) + s.subrange(0, 0) =~= s);
    } else {
        lemma_rotated_by(s, (k - 1) as nat);
        let before = s.subrange(k - 1, n) + s.subrange(0, k - 1);
        assert(rotated(before) =~= s.subrange(k as int, n) + s.subrange(0, k as int));
    }
}

/// A patrol comes round: once each of the waypoints of a queue was reached,
/// and so moved to the end, the queue is what it was at the start, with the
/// same waypoint at its head.
pub proof fn lemma_patrol_comes_round<T>(s: Seq<T>)
    ensures
        rotated_by(s, s.len()) == s,
{
    lemma_rotated_by(s, s.len());
    assert(s.subrange(s.len() as int, s.len() as int) + s.subrange(0, s.len() as int) =~= s);
}

/// Moves the first element of `list` to its end.
pub fn move_first_to_last<T>(list: &mut Vec<T>)
    ensures
        final(list)@ == rotated(old(list)@),
{
    if list.len() > 0 {
        let first = list.remove(0);
        list.push(first);
    }
}

/// Whether the actor has reached its first waypoint: it has one, and is
/// within a hundredth of its speed of it.
pub fn actor_at_waypoint(actor: &Actor) -> (reached: bool)
    ensures
        reached == (actor.waypoints@.len() > 0 && within_reach(
            actor.position@,
            actor.waypoints@[0].position@,
            actor.speed as int,
        )),
{
    if actor.waypoints.len() > 0 {
        let distance2 = actor.position.distance2(actor.waypoints[0].position);
        let speed: u128 = actor.speed as u128;
        assert(speed * speed <= 0xffff_ffff * 0xffff_ffff) by (nonlinear_arith)
            requires
                0 <= speed <= 0xffff_ffff,
        ;
        if distance2 <= 0xffff_ffff_ffff_ffff {
            return 10_000 * distance2 < speed * speed;
        }
    }
    false
}

/// One step from `position` toward `target`, of the length that `speed`
/// covers in `delta_t` nanoseconds; `None` where the step leads out of what
/// a `Point2` can hold.
pub fn checked_step_towards(position: Point2, target: Point2, speed: u32, delta_t: u64) -> (p:
    Option<Point2>)
    ensures
        p.is_some() == stepped(
            position@,
            target@,
            step_length(speed as int, delta_t as int),
        ).fits_point(),
        p matches Some(q) ==> q@ == stepped(
            position@,
            target@,
            step_length(speed as int, delta_t as int),
        ),
{
    let way = position.toward(target);
    if way.is_zero() {
        return Some(position);
    }
    assert(0 <= speed * delta_t <= 0xffff_ffff * 0xffff_ffff_ffff_ffff) by (nonlinear_arith)
        requires
            0 <= speed <= 0xffff_ffff,
            0 <= delta_t <= 0xffff_ffff_ffff_ffff,
    ;
    let step: u128 = (speed as u128 * delta_t as u128) / 1_000_000_000;
    let m = ceil_sqrt_of(way.magnitude2());
    proof {
        lemma_coordinates_below_root(way@);
        assert(step <= 0xffff_ffff_ffff_ffff_ffff);
        assert(abs(way.x as int) * step <= 0x1_0000_0000 * 0xffff_ffff_ffff_ffff_ffff
            && abs(way.y as int) * step <= 0x1_0000_0000 * 0xffff_ffff_ffff_ffff_ffff)
            by (nonlinear_arith)
            requires
                0 <= abs(way.x as int) <= 0x1_0000_0000,
                0 <= abs(way.y as int) <= 0x1_0000_0000,
                0 <= step <= 0xffff_ffff_ffff_ffff_ffff,
        ;
    }
    let x: i128 = position.x as i128 + rescale(way.x, step, m);
    let y: i128 = position.y as i128 + rescale(way.y, step, m);
    if -0x8000_0000 <= x && x <= 0x7fff_ffff && -0x8000_0000 <= y && y <= 0x7fff_ffff {
        Some(Point2 { x: x as i32, y: y as i32 })
    } else {
        None
    }
}

/// One step from `position` toward `target`, of the length that `speed`
/// covers in `delta_t` nanoseconds.
pub fn step_towards(position: Point2, target: Point2, speed: u32, delta_t: u64) -> (p: Point2)
    requires
        stepped(position@, target@, step_length(speed as int, delta_t as int)).fits_point(),
    ensures
        p@ == stepped(position@, target@, step_length(speed as int, delta_t as int)),
{
    checked_step_towards(position, target, speed, delta_t).unwrap()
}

/// Moves the actor one step toward its first waypoint; an actor without a
/// waypoint stays where it is.
pub fn move_towards_next_waypoint(actor: &mut Actor, delta_t: u64)
    requires
        old(actor).waypoints@.len() > 0 ==> stepped(
            old(actor).position@,
            old(actor).waypoints@[0].position@,
            step_length(old(actor).speed as int, delta_t as int),
        ).fits_point(),
    ensures
        final(actor).speed == old(actor).speed,
        final(actor).waypoints@ == old(actor).waypoints@,
        old(actor).waypoints@.len() == 0 ==> final(actor).position == old(actor).position,
        old(actor).waypoints@.len() > 0 ==> final(actor).position@ == stepped(
            old(actor).position@,
            old(actor).waypoints@[0].position@,
            step_length(old(actor).speed as int, delta_t as int),
        ),
{
    if actor.waypoints.len() > 0 {
        actor.position = step_towards(
            actor.position,
            actor.waypoints[0].position,
            actor.speed,
            delta_t,
        );
    }
}

/// Takes the first waypoint off the head of the queue: dropped on a
/// one-shot path, moved to the end on a patrol.
pub fn advance(waypoints: &mut Vec<Waypoint>, traversal: Traversal)
    ensures
        final(waypoints)@ == advanced(old(waypoints)@, traversal),
{
    if waypoints.len() > 0 {
        match traversal {
            Traversal::OneShot => {
                waypoints.remove(0);
            },
            Traversal::Patrol => {
                move_first_to_last(waypoints);
            },
        }
    }
}

/// One tick of an actor: a step toward the first waypoint, and if that
/// brought the actor within reach of it, the queue advances.
pub fn update_player(player: &mut Actor, frame_time: u64, traversal: Traversal)
    requires
        old(player).waypoints@.len() > 0 ==> stepped(
            old(player).position@,
            old(player).waypoints@[0].position@,
            step_length(old(player).speed as int, frame_time as int),
        ).fits_point(),
    ensures
        final(player).speed == old(player).speed,
        old(player).waypoints@.len() == 0 ==> final(player).position == old(player).position
            && final(player).waypoints@ == old(player).waypoints@,
        old(player).waypoints@.len() > 0 ==> {
            &&& final(player).position@ == stepped(
                old(player).position@,
                old(player).waypoints@[0].position@,
                step_length(old(player).speed as int, frame_time as int),
            )
            &&& final(player).waypoints@ == if within_reach(
                final(player).position@,
                old(player).waypoints@[0].position@,
                old(player).speed as int,
            ) {
                advanced(old(player).waypoints@, traversal)
            } else {
                old(player).waypoints@
            }
        },
{
    move_towards_next_waypoint(player, frame_time);
    if actor_at_waypoint(player) {
        advance(&mut player.waypoints, traversal);
    }
}

/// An actor that keeps its waypoints and walks toward the one that
/// `destination_waypoint` names, round and round.
pub struct WaypointWalker {
    pub position: Point2,
    pub speed: u32,
    pub waypoints: Vec<Waypoint>,
    pub destination_waypoint: usize,
}

/// The destination that follows destination `d` among `n` waypoints.
pub open spec fn next_destination(d: int, n: int) -> int {
    (d + 1) % n
}

/// The destination after `k` arrivals.
pub open spec fn destination_after(d: int, n: int, k: nat) -> int
    decreases k,
{
    if k == 0 {
        d
    } else {
        next_destination(destination_after(d, n, (k - 1) as nat), n)
    }
}

/// After `k` arrivals the destination has moved on by `k`, round the end.
pub proof fn lemma_destination_after(d: int, n: int, k: nat)
    requires
        0 <= d < n,
    ensures
        destination_after(d, n, k) == (d + k) % n,
    decreases k,
{
    if k == 0 {
        vstd::arithmetic::div_mod::lemma_small_mod(d as nat, n as nat);
    } else {
        lemma_destination_after(d, n, (k - 1) as nat);
        vstd::arithmetic::div_mod::lemma_add_mod_noop(d + k - 1, 1, n);
        vstd::arithmetic::div_mod::lemma_mod_twice(d + k - 1, n);
        if n == 1 {
        } else {
            vstd::arithmetic::div_mod::lemma_small_mod(1, n as nat);
        }
    }
}

/// A walker comes round: after as many arrivals as it has waypoints, its
/// destination is the one it started with.
pub proof fn lemma_destination_comes_round(d: int, n: int)
    requires
        0 <= d < n,
    ensures
        destination_after(d, n, n as nat) == d,
{
    lemma_destination_after(d, n, n as nat);
    vstd::arithmetic::div_mod::lemma_mod_add_multiples_vanish(d, n);
    vstd::arithmetic::div_mod::lemma_small_mod(d as nat, n as nat);
}

impl WaypointWalker {
    /// The walker has a waypoint to walk to.
    pub open spec fn has_destination(self) -> bool {
        self.destination_waypoint < self.waypoints@.len()
    }

    /// The location of the waypoint that the walker walks to.
    pub open spec fn destination(self) -> Vec2 {
        self.waypoints@[self.destination_waypoint as int].position@
    }
}

/// Moves the walker one step toward its destination; a walker without one
/// stays where it is.
pub fn move_towards_destination(actor: &mut WaypointWalker, delta_t: u64)
    requires
        old(actor).has_destination() ==> stepped(
            old(actor).position@,
            old(actor).destination(),
            step_length(old(actor).speed as int, delta_t as int),
        ).fits_point(),
    ensures
        final(actor).speed == old(actor).speed,
        final(actor).waypoints@ == old(actor).waypoints@,
        final(actor).destination_waypoint == old(actor).destination_waypoint,
        !old(actor).has_destination() ==> final(actor).position == old(actor).position,
        old(actor).has_destination() ==> final(actor).position@ == stepped(
            old(actor).position@,
            old(actor).destination(),
            step_length(old(actor).speed as int, delta_t as int),
        ),
{
    if actor.destination_waypoint < actor.waypoints.len() {
        actor.position = step_towards(
            actor.position,
            actor.waypoints[actor.destination_waypoint].position,
            actor.speed,
            delta_t,
        );
    }
}

/// Passes on to the next waypoint if the walker is less than one unit from
/// its destination; after the last waypoint comes the first.
pub fn check_if_player_reached_waypoint(actor: &mut WaypointWalker)
    ensures
        final(actor).position == old(actor).position,
        final(actor).speed == old(actor).speed,
        final(actor).waypoints@ == old(actor).waypoints@,
        final(actor).destination_waypoint == if old(actor).has_destination() && old(
            actor,
        ).destination().minus(old(actor).position@).magnitude2() < ONE * ONE {
            next_destination(
                old(actor).destination_waypoint as int,
                old(actor).waypoints@.len() as int,
            )
        } else {
            old(actor).destination_waypoint as int
        },
{
    if actor.destination_waypoint < actor.waypoints.len() {
        let distance2 = actor.position.distance2(
            actor.waypoints[actor.destination_waypoint].position,
        );
        if distance2 < 0x1_0000_0000 {
            actor.destination_waypoint = (actor.destination_waypoint + 1) % actor.waypoints.len();
        }
    }
}

/// One tick of a walker: a step toward the destination, then the test for
/// arrival.
pub fn update_walker(actor: &mut WaypointWalker, delta_t: u64)
    requires
        old(actor).has_destination() ==> stepped(
            old(actor).position@,
            old(actor).destination(),
            step_length(old(actor).speed as int, delta_t as int),
        ).fits_point(),
    ensures
        final(actor).speed == old(actor).speed,
        final(actor).waypoints@ == old(actor).waypoints@,
        !old(actor).has_destination() ==> final(actor).position == old(actor).position
            && final(actor).destination_waypoint == old(actor).destination_waypoint,
        old(actor).has_destination() ==> {
            &&& final(actor).position@ == stepped(
                old(actor).position@,
                old(actor).destination(),
                step_length(old(actor).speed as int, delta_t as int),
            )
            &&& final(actor).destination_waypoint == if old(actor).destination().minus(
                final(actor).position@,
            ).magnitude2() < ONE * ONE {
                next_destination(
                    old(actor).destination_waypoint as int,
                    old(actor).waypoints@.len() as int,
                )
            } else {
                old(actor).destination_waypoint as int
            }
        },
{
    move_towards_destination(actor, delta_t);
    check_if_player_reached_waypoint(actor);
}

} // verus!
