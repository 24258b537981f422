//! A flock: agents held side by side and addressed by index, each steered by
//! the neighbours that lie within a rule's range.

use crate::fixed::{abs, div_toward_zero, trunc_div, ONE};
use crate::steering::{
    lemma_coordinates_within_length, lemma_scaled_bound, steering, wrapped, Vehicle,
};
use crate::vector::{lemma_limited_bound, magnitude_of, Point2, Vec2, Vector2};
use vstd::prelude::*;

verus! {

/// The three rules by which neighbours steer an agent.
#[derive(Clone, Copy, Debug, PartialEq, Eq, Structural)]
pub enum Rule {
    Separation,
    Alignment,
    Cohesion,
}

/// The push that a neighbour exerts, `away` being the displacement from the
/// neighbour to the agent: along `away`, and inversely proportional to the
/// distance.
pub open spec fn repulsion(away: Vec2) -> Vec2 {
    if away.is_zero() {
        Vec2::zero()
    } else {
        Vec2 {
            x: trunc_div(away.x * ONE * ONE, away.magnitude2()),
            y: trunc_div(away.y * ONE * ONE, away.magnitude2()),
        }
    }
}

/// Agent `j` is a neighbour of agent `i` under `rule`: another agent, closer
/// than `range`, and for separation not at the very same location.
pub open spec fn counts(rule: Rule, vs: Seq<Vehicle>, i: int, j: int, range: int) -> bool {
    let d2 = vs[i].location@.minus(vs[j].location@).magnitude2();
    j != i && d2 < range * range && (rule == Rule::Separation ==> d2 > 0)
}

/// What neighbour `j` adds to the sum of `rule` for agent `i`.
pub open spec fn contribution(rule: Rule, vs: Seq<Vehicle>, i: int, j: int) -> Vec2 {
    match rule {
        Rule::Separation => repulsion(vs[i].location@.minus(vs[j].location@)),
        Rule::Alignment => vs[j].velocity@,
        Rule::Cohesion => vs[j].location@,
    }
}

/// How many of the first `k` agents are neighbours of agent `i`.
pub open spec fn neighbour_count(rule: Rule, vs: Seq<Vehicle>, i: int, range: int, k: int) -> int
    decreases k,
{
    if k <= 0 {
        0
    } else {
        neighbour_count(rule, vs, i, range, k - 1) + if counts(rule, vs, i, k - 1, range) {
            1int
        } else {
            0int
        }
    }
}

/// The sum of what the neighbours among the first `k` agents contribute.
pub open spec fn neighbour_sum(rule: Rule, vs: Seq<Vehicle>, i: int, range: int, k: int) -> Vec2
    decreases k,
{
    if k <= 0 {
        Vec2::zero()
    } else if counts(rule, vs, i, k - 1, range) {
        neighbour_sum(rule, vs, i, range, k - 1).plus(contribution(rule, vs, i, k - 1))
    } else {
        neighbour_sum(rule, vs, i, range, k - 1)
    }
}

/// The mean of what the neighbours of agent `i` contribute.
pub open spec fn neighbour_mean(rule: Rule, vs: Seq<Vehicle>, i: int, range: int) -> Vec2 {
    neighbour_sum(rule, vs, i, range, vs.len() as int).divided(
        neighbour_count(rule, vs, i, range, vs.len() as int),
    )
}

/// Agent `i` has a neighbour under `rule`.
pub open spec fn has_neighbour(rule: Rule, vs: Seq<Vehicle>, i: int, range: int) -> bool {
    neighbour_count(rule, vs, i, range, vs.len() as int) > 0
}

/// The separation force: away from the neighbours, the near ones counting
/// more; zero without a neighbour.
pub open spec fn separation_steering(vs: Seq<Vehicle>, i: int, range: int) -> Vec2 {
    if has_neighbour(Rule::Separation, vs, i, range) {
        steering(
            neighbour_mean(Rule::Separation, vs, i, range),
            vs[i].max_speed as int,
            vs[i].velocity@,
        )
    } else {
        Vec2::zero()
    }
}

/// The alignment force: toward the mean velocity of the neighbours; zero
/// without a neighbour.
pub open spec fn alignment_steering(vs: Seq<Vehicle>, i: int, range: int) -> Vec2 {
    if has_neighbour(Rule::Alignment, vs, i, range) {
        steering(
            neighbour_mean(Rule::Alignment, vs, i, range),
            vs[i].max_speed as int,
            vs[i].velocity@,
        )
    } else {
        Vec2::zero()
    }
}

/// The cohesion force: the seek force toward the mean location of the
/// neighbours; zero without a neighbour.
pub open spec fn cohesion_steering(vs: Seq<Vehicle>, i: int, range: int) -> Vec2 {
    if has_neighbour(Rule::Cohesion, vs, i, range) {
        vs[i].seek_steering(neighbour_mean(Rule::Cohesion, vs, i, range))
    } else {
        Vec2::zero()
    }
}

/// Agents at the very same location do not count for separation.
pub proof fn lemma_no_separation_from_coincident(vs: Seq<Vehicle>, i: int, range: int, k: int)
    requires
        0 <= i < vs.len(),
        0 <= k <= vs.len(),
        forall|j: int| 0 <= j < k ==> vs[j].location == vs[i].location,
    ensures
        neighbour_count(Rule::Separation, vs, i, range, k) == 0,
    decreases k,
{
    if k > 0 {
        lemma_no_separation_from_coincident(vs, i, range, k - 1);
        let away = vs[i].location@.minus(vs[k - 1].location@);
        assert(away.is_zero());
        assert(away.magnitude2() == 0) by (nonlinear_arith)
            requires
                away.x == 0,
                away.y == 0,
                away.magnitude2() == away.x * away.x + away.y * away.y,
        ;
    }
}

/// Agents that all stand on one spot exert no separation force on each
/// other: nothing is divided by their distance, which is zero.
pub proof fn lemma_coincident_agents_do_not_repel(vs: Seq<Vehicle>, i: int, range: int)
    requires
        0 <= i < vs.len(),
        forall|j: int| 0 <= j < vs.len() ==> vs[j].location == vs[i].location,
    ensures
        separation_steering(vs, i, range) == Vec2::zero(),
{
    lemma_no_separation_from_coincident(vs, i, range, vs.len() as int);
}

/// The least coordinate that a neighbour can contribute under `rule`.
pub open spec fn least_share(rule: Rule) -> int {
    match rule {
        Rule::Separation => -0x1_0000_0000,
        Rule::Alignment => i64::MIN as int,
        Rule::Cohesion => i32::MIN as int,
    }
}

/// The greatest coordinate that a neighbour can contribute under `rule`.
pub open spec fn greatest_share(rule: Rule) -> int {
    match rule {
        Rule::Separation => 0x1_0000_0000,
        Rule::Alignment => i64::MAX as int,
        Rule::Cohesion => i32::MAX as int,
    }
}

/// A mean lies between the bounds of what it is the mean of.
pub proof fn lemma_mean_bounds(sum: int, count: int, least: int, greatest: int)
    requires
        count > 0,
        least <= 0 <= greatest,
        least * count <= sum <= greatest * count,
    ensures
        least <= trunc_div(sum, count) <= greatest,
{
    if sum >= 0 {
        assert(sum / count <= greatest && sum / count >= 0) by (nonlinear_arith)
            requires
                0 <= sum <= greatest * count,
                count > 0,
        ;
    } else {
        let m = -sum;
        let l = -least;
        assert(l * count == -(least * count)) by (nonlinear_arith)
            requires
                l == -least,
        ;
        assert(m / count <= l && m / count >= 0) by (nonlinear_arith)
            requires
                0 <= m <= l * count,
                count > 0,
        ;
    }
}

/// One coordinate of the push of a neighbour at the squared distance `d2`.
fn repel(x: i64, d2: u128) -> (q: i128)
    requires
        0 < d2 <= i128::MAX,
        x * x <= d2,
        abs(x as int) <= 0xffff_ffff,
    ensures
        q == trunc_div(x * ONE * ONE, d2 as int),
        abs(q as int) <= 0x1_0000_0000,
{
    let wide: i128 = x as i128;
    let product: i128 = wide * 0x1_0000_0000;
    assert(x * ONE * ONE == product) by (nonlinear_arith)
        requires
            ONE == 65536,
            product == x * 0x1_0000_0000,
    ;
    let q = div_toward_zero(product, d2);
    proof {
        let a = abs(x as int);
        assert(a <= d2) by (nonlinear_arith)
            requires
                a == abs(x as int),
                x * x <= d2,
        ;
        assert((a * 0x1_0000_0000) / (d2 as int) <= 0x1_0000_0000) by (nonlinear_arith)
            requires
                0 <= a <= d2,
                d2 > 0,
        ;
    }
    q
}

/// The mean of what the neighbours of agent `index` contribute under `rule`,
/// if it has any.
pub fn neighbour_mean_of(rule: Rule, vehicles: &Vec<Vehicle>, index: usize, range: u32) -> (mean:
    Option<Vector2>)
    requires
        index < vehicles.len(),
    ensures
        mean.is_some() == has_neighbour(rule, vehicles@, index as int, range as int),
        mean matches Some(m) ==> {
            &&& m@ == neighbour_mean(rule, vehicles@, index as int, range as int)
            &&& least_share(rule) <= m.x <= greatest_share(rule)
            &&& least_share(rule) <= m.y <= greatest_share(rule)
        },
{
    let me = vehicles[index];
    let reach: u128 = range as u128;
    assert(reach * reach <= 0xffff_ffff * 0xffff_ffff) by (nonlinear_arith)
        requires
            0 <= reach <= 0xffff_ffff,
    ;
    let limit: u128 = reach * reach;
    let ghost vs = vehicles@;
    let ghost i = index as int;
    let ghost r = range as int;
    let mut sum_x: i128 = 0;
    let mut sum_y: i128 = 0;
    let mut count: usize = 0;
    let mut j: usize = 0;
    while j < vehicles.len()
        invariant
            j <= vehicles.len(),
            index < vehicles.len(),
            vs == vehicles@,
            i == index,
            r == range,
            me == vs[i],
            limit == r * r,
            limit <= 0xffff_ffff * 0xffff_ffff,
            count <= j,
            count == neighbour_count(rule, vs, i, r, j as int),
            (Vec2 { x: sum_x as int, y: sum_y as int }) == neighbour_sum(rule, vs, i, r, j as int),
            least_share(rule) * count <= sum_x <= greatest_share(rule) * count,
            least_share(rule) * count <= sum_y <= greatest_share(rule) * count,
        decreases vehicles.len() - j,
    {
        let other = vehicles[j];
        let away = other.location.toward(me.location);
        let d2 = away.magnitude2();
        let apart = match rule {
            Rule::Separation => d2 > 0,
            _ => true,
        };
        if j != index && d2 < limit && apart {
            assert(counts(rule, vs, i, j as int, r));
            let (tx, ty): (i128, i128) = match rule {
                Rule::Separation => {
                    assert(away.x * away.x <= d2 && away.y * away.y <= d2) by (nonlinear_arith)
                        requires
                            d2 == away.x * away.x + away.y * away.y,
                    ;
                    (repel(away.x, d2), repel(away.y, d2))
                },
                Rule::Alignment => (other.velocity.x as i128, other.velocity.y as i128),
                Rule::Cohesion => (other.location.x as i128, other.location.y as i128),
            };
            assert((Vec2 { x: tx as int, y: ty as int }) == contribution(rule, vs, i, j as int));
            assert(least_share(rule) * (count + 1) == least_share(rule) * count + least_share(rule))
                by (nonlinear_arith);
            assert(greatest_share(rule) * (count + 1) == greatest_share(rule) * count
                + greatest_share(rule)) by (nonlinear_arith);
            assert(-0x8000_0000_0000_0000 * 0xffff_ffff_ffff_ffff <= least_share(rule) * count
                && greatest_share(rule) * count <= 0x7fff_ffff_ffff_ffff * 0xffff_ffff_ffff_ffff)
                by (nonlinear_arith)
                requires
                    -0x8000_0000_0000_0000 <= least_share(rule) <= 0,
                    0 <= greatest_share(rule) <= 0x7fff_ffff_ffff_ffff,
                    0 <= count <= 0xffff_ffff_ffff_ffff,
            ;
            sum_x = sum_x + tx;
            sum_y = sum_y + ty;
            count = count + 1;
        } else {
            assert(!counts(rule, vs, i, j as int, r));
        }
        j = j + 1;
    }
    if count > 0 {
        proof {
            lemma_mean_bounds(sum_x as int, count as int, least_share(rule), greatest_share(rule));
            lemma_mean_bounds(sum_y as int, count as int, least_share(rule), greatest_share(rule));
        }
        let x = div_toward_zero(sum_x, count as u128);
        let y = div_toward_zero(sum_y, count as u128);
        Some(Vector2 { x: x as i64, y: y as i64 })
    } else {
        None
    }
}

/// The separation force on agent `index`.
pub fn separate(vehicles: &Vec<Vehicle>, index: usize, range: u32) -> (force: Vector2)
    requires
        index < vehicles.len(),
        vehicles[index as int].wf(),
    ensures
        force@ == separation_steering(vehicles@, index as int, range as int),
        abs(force@.x) <= 2 * vehicles[index as int].max_speed,
        abs(force@.y) <= 2 * vehicles[index as int].max_speed,
{
    match neighbour_mean_of(Rule::Separation, vehicles, index, range) {
        Some(mean) => vehicles[index].steer(mean, vehicles[index].max_speed),
        None => Vector2::zero(),
    }
}

/// The alignment force on agent `index`.
pub fn align(vehicles: &Vec<Vehicle>, index: usize, range: u32) -> (force: Vector2)
    requires
        index < vehicles.len(),
        vehicles[index as int].wf(),
    ensures
        force@ == alignment_steering(vehicles@, index as int, range as int),
        abs(force@.x) <= 2 * vehicles[index as int].max_speed,
        abs(force@.y) <= 2 * vehicles[index as int].max_speed,
{
    match neighbour_mean_of(Rule::Alignment, vehicles, index, range) {
        Some(mean) => vehicles[index].steer(mean, vehicles[index].max_speed),
        None => Vector2::zero(),
    }
}

/// The cohesion force on agent `index`.
pub fn cohesion(vehicles: &Vec<Vehicle>, index: usize, range: u32) -> (force: Vector2)
    requires
        index < vehicles.len(),
        vehicles[index as int].wf(),
    ensures
        force@ == cohesion_steering(vehicles@, index as int, range as int),
        abs(force@.x) <= 2 * vehicles[index as int].max_speed,
        abs(force@.y) <= 2 * vehicles[index as int].max_speed,
{
    match neighbour_mean_of(Rule::Cohesion, vehicles, index, range) {
        Some(mean) => {
            let centre = Point2 { x: mean.x as i32, y: mean.y as i32 };
            assert(centre@ == mean@);
            vehicles[index].seek_force(centre)
        },
        None => Vector2::zero(),
    }
}

/// What a flock is run with: for each rule its range and its weight, the
/// weight and the circle of the wander behaviour, and the rectangle that
/// locations are wrapped into.
#[derive(Clone, Copy, Debug, PartialEq, Eq, Structural)]
pub struct Rules {
    /// Agents closer than this are kept apart.
    pub separation_range: u32,
    /// The factor of the separation force, a fixed-point number.
    pub separation_weight: u32,
    /// Agents closer than this align their velocities.
    pub align_range: u32,
    /// The factor of the alignment force.
    pub align_weight: u32,
    /// Agents closer than this are drawn together.
    pub cohesion_range: u32,
    /// The factor of the cohesion force.
    pub cohesion_weight: u32,
    /// The factor of the wander force.
    pub wander_weight: u32,
    /// The radius of the wander circle, and how many times the velocity its
    /// centre lies ahead.
    pub circle_radius: u32,
    pub x_min: i32,
    pub x_max: i32,
    pub y_min: i32,
    pub y_max: i32,
}

/// A force as it reaches the acceleration: weighted, then limited.
pub open spec fn weighted(force: Vec2, weight: int, max_force: int) -> Vec2 {
    force.scaled(weight).limited(max_force)
}

/// The acceleration of agent `i` once the four forces of a frame were
/// applied: separation, alignment, cohesion and wander, in this order.
pub open spec fn accumulated(vs: Seq<Vehicle>, i: int, rules: Rules, offset: Vec2) -> Vec2 {
    let v = vs[i];
    let limit = v.max_force as int;
    v.acceleration@.plus(
        weighted(
            separation_steering(vs, i, rules.separation_range as int),
            rules.separation_weight as int,
            limit,
        ),
    ).plus(
        weighted(
            alignment_steering(vs, i, rules.align_range as int),
            rules.align_weight as int,
            limit,
        ),
    ).plus(
        weighted(
            cohesion_steering(vs, i, rules.cohesion_range as int),
            rules.cohesion_weight as int,
            limit,
        ),
    ).plus(
        weighted(
            v.wander_steering(rules.circle_radius as int, offset),
            rules.wander_weight as int,
            limit,
        ),
    )
}

/// The agents of a simulation and the rules that they follow.
pub struct Flock {
    pub vehicles: Vec<Vehicle>,
    pub rules: Rules,
}

impl Flock {
    /// Agent `i` can take a frame: its velocity is within its speed limit,
    /// its acceleration leaves room for four forces and the velocity, and
    /// its location is farther than one step from the edge of what a
    /// `Point2` can hold.
    pub open spec fn ready(self, i: int) -> bool {
        let v = self.vehicles@[i];
        &&& 0 <= i < self.vehicles@.len()
        &&& v.wf()
        &&& abs(v.acceleration.x as int) + 4 * v.max_force + v.max_speed <= i64::MAX
        &&& abs(v.acceleration.y as int) + 4 * v.max_force + v.max_speed <= i64::MAX
        &&& v.can_move()
    }

    /// Whether agent `index` can take a frame.
    pub fn is_ready(&self, index: usize) -> (ready: bool)
        ensures
            ready == self.ready(index as int),
    {
        if index >= self.vehicles.len() {
            return false;
        }
        let v = self.vehicles[index];
        let speed: u128 = v.max_speed as u128;
        assert(speed * speed <= 0xffff_ffff * 0xffff_ffff) by (nonlinear_arith)
            requires
                0 <= speed <= 0xffff_ffff,
        ;
        let room: i128 = 0x7fff_ffff_ffff_ffff - 4 * (v.max_force as i128) - v.max_speed as i128;
        let x: i128 = v.location.x as i128;
        let y: i128 = v.location.y as i128;
        let step: i128 = v.max_speed as i128;
        v.velocity.magnitude2() <= speed * speed && magnitude_of(v.acceleration.x) as i128 <= room
            && magnitude_of(v.acceleration.y) as i128 <= room && -0x8000_0000 <= x - step && x
            + step <= 0x7fff_ffff && -0x8000_0000 <= y - step && y + step <= 0x7fff_ffff
    }

    /// A flock without agents.
    pub fn new(rules: Rules) -> (flock: Flock)
        ensures
            flock.vehicles@.len() == 0,
            flock.rules == rules,
    {
        Flock { vehicles: Vec::new(), rules }
    }

    /// Adds an agent at the end.
    pub fn push(&mut self, vehicle: Vehicle)
        ensures
            final(self).vehicles@ == old(self).vehicles@.push(vehicle),
            final(self).rules == old(self).rules,
    {
        self.vehicles.push(vehicle);
    }

    /// One frame of agent `index`: the four forces are weighted, limited and
    /// accumulated, the agent is integrated, and its location is wrapped
    /// into the rectangle of the rules.  `offset` is the point of the wander
    /// circle, relative to its centre, that the agent's heading selects.
    pub fn update(&mut self, index: usize, offset: Vector2)
        requires
            old(self).ready(index as int),
            offset@.magnitude2() <= old(self).rules.circle_radius * old(self).rules.circle_radius,
        ensures
            final(self).rules == old(self).rules,
            final(self).vehicles@.len() == old(self).vehicles@.len(),
            forall|j: int|
                0 <= j < old(self).vehicles@.len() && j != index ==> final(self).vehicles@[j]
                    == old(self).vehicles@[j],
            ({
                let rules = old(self).rules;
                let before = old(self).vehicles@[index as int];
                let after = final(self).vehicles@[index as int];
                &&& after.velocity@ == before.velocity@.plus(
                    accumulated(old(self).vehicles@, index as int, rules, offset@),
                ).limited(before.max_speed as int)
                &&& after.wf()
                &&& after.location.x == wrapped(
                    before.location.x + after.velocity.x,
                    rules.x_min as int,
                    rules.x_max as int,
                )
                &&& after.location.y == wrapped(
                    before.location.y + after.velocity.y,
                    rules.y_min as int,
                    rules.y_max as int,
                )
                &&& after.acceleration@ == Vec2::zero()
                &&& after.wander_angle == before.wander_angle
                &&& after.max_force == before.max_force
                &&& after.max_speed == before.max_speed
            }),
    {
        let rules = self.rules;
        let mut vehicle = self.vehicles[index];
        let separation = separate(&self.vehicles, index, rules.separation_range);
        let alignment = align(&self.vehicles, index, rules.align_range);
        let together = cohesion(&self.vehicles, index, rules.cohesion_range);
        let wandering = vehicle.wander(rules.circle_radius, offset);
        apply_weighted(&mut vehicle, separation, rules.separation_weight);
        apply_weighted(&mut vehicle, alignment, rules.align_weight);
        apply_weighted(&mut vehicle, together, rules.cohesion_weight);
        apply_weighted(&mut vehicle, wandering, rules.wander_weight);
        integrate(&mut vehicle, rules.x_min, rules.x_max, rules.y_min, rules.y_max);
        self.vehicles.set(index, vehicle);
    }
}

/// Applies `force` with its weight.
fn apply_weighted(vehicle: &mut Vehicle, force: Vector2, weight: u32)
    requires
        abs(force@.x) <= 2 * old(vehicle).max_speed,
        abs(force@.y) <= 2 * old(vehicle).max_speed,
        abs(old(vehicle).acceleration.x as int) + old(vehicle).max_force <= i64::MAX,
        abs(old(vehicle).acceleration.y as int) + old(vehicle).max_force <= i64::MAX,
    ensures
        final(vehicle).acceleration@ == old(vehicle).acceleration@.plus(
            weighted(force@, weight as int, old(vehicle).max_force as int),
        ),
        abs(final(vehicle).acceleration.x as int) <= abs(old(vehicle).acceleration.x as int) + old(
            vehicle,
        ).max_force,
        abs(final(vehicle).acceleration.y as int) <= abs(old(vehicle).acceleration.y as int) + old(
            vehicle,
        ).max_force,
        final(vehicle).location == old(vehicle).location,
        final(vehicle).wander_angle == old(vehicle).wander_angle,
        final(vehicle).velocity == old(vehicle).velocity,
        final(vehicle).max_force == old(vehicle).max_force,
        final(vehicle).max_speed == old(vehicle).max_speed,
{
    proof {
        lemma_weighted_fits(
            force@,
            vehicle.max_speed as int,
            weight as int,
            vehicle.max_force as int,
        );
    }
    vehicle.apply_force(force.scaled(weight));
}

/// Integrates the agent and wraps its location.
fn integrate(vehicle: &mut Vehicle, x_min: i32, x_max: i32, y_min: i32, y_max: i32)
    requires
        old(vehicle).wf(),
        abs(old(vehicle).acceleration.x as int) + old(vehicle).max_speed <= i64::MAX,
        abs(old(vehicle).acceleration.y as int) + old(vehicle).max_speed <= i64::MAX,
        old(vehicle).can_move(),
    ensures
        final(vehicle).velocity@ == old(vehicle).next_velocity(),
        final(vehicle).wf(),
        final(vehicle).location.x == wrapped(
            old(vehicle).location.x + final(vehicle).velocity.x,
            x_min as int,
            x_max as int,
        ),
        final(vehicle).location.y == wrapped(
            old(vehicle).location.y + final(vehicle).velocity.y,
            y_min as int,
            y_max as int,
        ),
        final(vehicle).acceleration@ == Vec2::zero(),
        final(vehicle).wander_angle == old(vehicle).wander_angle,
        final(vehicle).max_force == old(vehicle).max_force,
        final(vehicle).max_speed == old(vehicle).max_speed,
{
    proof {
        lemma_coordinates_within_length(vehicle.velocity@, vehicle.max_speed as int);
        lemma_limited_bound(
            vehicle.velocity@.plus(vehicle.acceleration@),
            vehicle.max_speed as int,
        );
    }
    vehicle.apply_acceleration();
    vehicle.constrain_location(x_min, x_max, y_min, y_max);
}

/// A force between agents, weighted, fits a `Vector2`, and limited it moves
/// no coordinate of the acceleration by more than the limit.
pub proof fn lemma_weighted_fits(force: Vec2, max_speed: int, weight: int, limit: int)
    requires
        abs(force.x) <= 2 * max_speed,
        abs(force.y) <= 2 * max_speed,
        0 <= max_speed <= u32::MAX,
        0 <= weight <= u32::MAX,
        0 <= limit,
    ensures
        force.scaled(weight).fits_vector(),
        abs(weighted(force, weight, limit).x) <= limit,
        abs(weighted(force, weight, limit).y) <= limit,
{
    lemma_scaled_bound(force.x, 2 * max_speed, weight);
    lemma_scaled_bound(force.y, 2 * max_speed, weight);
    assert((2 * max_speed) * weight <= 2 * 0xffff_ffff * 0xffff_ffff) by (nonlinear_arith)
        requires
            0 <= max_speed <= 0xffff_ffff,
            0 <= weight <= 0xffff_ffff,
    ;
    lemma_limited_bound(force.scaled(weight), limit);
}

} // verus!
