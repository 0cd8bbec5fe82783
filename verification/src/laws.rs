//! What holds of the simulation whatever the flock, the parameters and the
//! length of a tick.

use vstd::prelude::*;
use crate::agent::Agent;
use crate::behavior::{
    cohesion_count, contribution, distance_squared, is_neighbor, lemma_tally_without_neighbors,
    separation_push, tally, Behavior,
};
use crate::flock::finding;
use crate::integrator::{
    advanced, integrated, lemma_limited, limited, steered, wrapped, Strengths,
};
use crate::parameter::{clamped, ParameterName, ParameterSet};
use crate::scalar::{HALF_SIZE, MAX_SPEED, SCALE};
use crate::vector::{
    lemma_stretched_along_axis, lemma_stretched_reaches, lemma_stretched_to,
    lemma_unit_has_length_one, Vector,
};

verus! {

/// Reading a parameter after it was written gives the written value brought
/// between the parameter's bounds; the bounds themselves do not change, and
/// the value read lies between them.
pub proof fn law_write_is_clamped(before: ParameterSet, name: ParameterName, value: int)
    requires
        before.setting(name).min <= before.setting(name).max,
    ensures
        before.setting(name).with_value(value).value == clamped(
            value,
            before.setting(name).min,
            before.setting(name).max,
        ),
        before.setting(name).with_value(value).min == before.setting(name).min,
        before.setting(name).with_value(value).max == before.setting(name).max,
        before.setting(name).min <= before.setting(name).with_value(value).value
            <= before.setting(name).max,
{
}

/// An agent without a neighbour under a behaviour gets the zero vector from
/// that behaviour.
pub proof fn law_no_neighbor_no_finding(kind: Behavior, agents: Seq<Agent>, me: int, range: int)
    requires
        forall|other: int|
            0 <= other < agents.len() ==> !is_neighbor(kind, agents, me, other, range),
    ensures
        finding(kind, agents, me, range) == Vector::zero(),
        kind == Behavior::Cohesion ==> cohesion_count(agents, me, range) == 0,
{
    lemma_tally_without_neighbors(kind, agents, me, range, agents.len() as int);
}

/// After the integrator no agent is faster than the speed limit.
pub proof fn law_speed_is_limited(agent: Agent, strengths: Strengths, elapsed: int)
    ensures
        integrated(agent, strengths, elapsed).velocity.norm_squared() <= MAX_SPEED * MAX_SPEED,
{
    lemma_limited(steered(agent, strengths));
}

/// Holding the speed to the limit turns no velocity around: neither
/// coordinate changes its sign, and a velocity within the limit stays as it
/// is.
pub proof fn law_limit_keeps_direction(velocity: Vector)
    ensures
        velocity.x >= 0 ==> limited(velocity).x >= 0,
        velocity.x <= 0 ==> limited(velocity).x <= 0,
        velocity.y >= 0 ==> limited(velocity).y >= 0,
        velocity.y <= 0 ==> limited(velocity).y <= 0,
        velocity.norm_squared() <= MAX_SPEED * MAX_SPEED ==> limited(velocity) == velocity,
{
    lemma_stretched_to(velocity, MAX_SPEED as int);
}

/// A velocity along one axis that is faster than the speed limit is held to
/// exactly the limit, along the same axis and the same way.
pub proof fn law_limit_is_exact_along_an_axis(speed: int)
    requires
        speed > MAX_SPEED,
    ensures
        limited(Vector { x: speed, y: 0 }) == (Vector { x: MAX_SPEED as int, y: 0 }),
        limited(Vector { x: -speed, y: 0 }) == (Vector { x: -MAX_SPEED, y: 0 }),
        limited(Vector { x: 0, y: speed }) == (Vector { x: 0, y: MAX_SPEED as int }),
        limited(Vector { x: 0, y: -speed }) == (Vector { x: 0, y: -MAX_SPEED }),
{
    let limit: int = MAX_SPEED as int;
    assert(speed * speed > limit * limit) by (nonlinear_arith)
        requires
            speed > limit,
            limit > 0,
    ;
    assert((-speed) * (-speed) == speed * speed) by (nonlinear_arith);
    assert(0 * 0 == 0) by (nonlinear_arith);
    lemma_stretched_along_axis(Vector { x: speed, y: 0 }, limit);
    lemma_stretched_along_axis(Vector { x: -speed, y: 0 }, limit);
    lemma_stretched_along_axis(Vector { x: 0, y: speed }, limit);
    lemma_stretched_along_axis(Vector { x: 0, y: -speed }, limit);
}

/// After the integrator every agent is inside the world, on both axes.
pub proof fn law_position_stays_inside(agent: Agent, strengths: Strengths, elapsed: int)
    ensures
        integrated(agent, strengths, elapsed).position.within(HALF_SIZE as int),
{
}

/// A coordinate beyond the upper edge of the world is set exactly onto the
/// lower edge, one beyond the lower edge exactly onto the upper edge, and one
/// inside the world or on an edge is left alone.
pub proof fn law_wrap_is_exact(coordinate: int)
    ensures
        coordinate > HALF_SIZE ==> wrapped(coordinate) == -HALF_SIZE,
        coordinate < -HALF_SIZE ==> wrapped(coordinate) == HALF_SIZE,
        -HALF_SIZE <= coordinate <= HALF_SIZE ==> wrapped(coordinate) == coordinate,
{
}

/// A tick of no length moves no agent that is inside the world, whatever its
/// velocity.
pub proof fn law_no_time_no_move(agent: Agent, strengths: Strengths)
    requires
        agent.position@.within(HALF_SIZE as int),
    ensures
        integrated(agent, strengths, 0).position == agent.position@,
{
    let velocity = limited(steered(agent, strengths));
    assert(velocity.x * 0 == 0) by (nonlinear_arith);
    assert(velocity.y * 0 == 0) by (nonlinear_arith);
    assert(advanced(agent.position@, velocity, 0) == agent.position@);
}

/// A velocity above the speed limit is held to the limit and not below it:
/// what comes out is shorter than the limit by two millionths at most, is not
/// zero, and makes an acute angle with the velocity that went in.
pub proof fn law_limit_reaches_the_limit(velocity: Vector)
    requires
        velocity.norm_squared() > MAX_SPEED * MAX_SPEED,
    ensures
        (MAX_SPEED - 2) * (MAX_SPEED - 2) <= limited(velocity).norm_squared(),
        limited(velocity) != Vector::zero(),
        limited(velocity).dot(velocity) > 0,
{
    assert(velocity != Vector::zero()) by (nonlinear_arith)
        requires
            velocity.x * velocity.x + velocity.y * velocity.y > MAX_SPEED * MAX_SPEED,
            MAX_SPEED * MAX_SPEED >= 0,
    ;
    lemma_stretched_reaches(velocity, MAX_SPEED as int);
}

/// After the integrator an agent that moves faces the way it moves, with a
/// vector of length one: at most `SCALE` long and at least two millionths
/// less. An agent at rest faces nowhere.
pub proof fn law_facing_has_length_one(agent: Agent, strengths: Strengths, elapsed: int)
    ensures
        ({
            let motion = integrated(agent, strengths, elapsed);
            &&& motion.facing.norm_squared() <= SCALE * SCALE
            &&& motion.velocity == Vector::zero() ==> motion.facing == Vector::zero()
            &&& motion.velocity != Vector::zero() ==> (SCALE - 2) * (SCALE - 2)
                <= motion.facing.norm_squared() && motion.facing.dot(motion.velocity) > 0
        }),
{
    let velocity = integrated(agent, strengths, elapsed).velocity;
    lemma_stretched_to(velocity, SCALE as int);
    if velocity != Vector::zero() {
        lemma_unit_has_length_one(velocity);
    }
}

/// The sum of the pushes that separation finds for the first `upto` agents.
pub open spec fn total_push(agents: Seq<Agent>, range: int, upto: int) -> Vector
    decreases upto,
{
    if upto <= 0 {
        Vector::zero()
    } else {
        total_push(agents, range, upto - 1).plus(separation_push(agents, upto - 1, range))
    }
}

/// The push that the agent `me` gets from the first `upto` agents.
spec fn push_from(agents: Seq<Agent>, range: int, me: int, upto: int) -> Vector {
    tally(Behavior::Separation, agents, me, range, upto).sum
}

/// The push that the agent `other` gives to the agent `me`.
spec fn push_between(agents: Seq<Agent>, range: int, me: int, other: int) -> Vector {
    if is_neighbor(Behavior::Separation, agents, me, other, range) {
        contribution(Behavior::Separation, agents, me, other, range)
    } else {
        Vector::zero()
    }
}

/// The sum of the pushes that the first `rows` agents get from the first
/// `upto` agents.
spec fn push_among(agents: Seq<Agent>, range: int, rows: int, upto: int) -> Vector
    decreases rows,
{
    if rows <= 0 {
        Vector::zero()
    } else {
        push_among(agents, range, rows - 1, upto).plus(push_from(agents, range, rows - 1, upto))
    }
}

/// The sum of the pushes that the agent `other` gives to the first `rows`
/// agents.
spec fn push_onto(agents: Seq<Agent>, range: int, rows: int, other: int) -> Vector
    decreases rows,
{
    if rows <= 0 {
        Vector::zero()
    } else {
        push_onto(agents, range, rows - 1, other).plus(
            push_between(agents, range, rows - 1, other),
        )
    }
}

/// What one agent gives to another is the opposite of what it gets from it.
proof fn lemma_push_is_mutual(agents: Seq<Agent>, range: int, me: int, other: int)
    ensures
        push_between(agents, range, me, other).plus(push_between(agents, range, other, me))
            == Vector::zero(),
{
    let p = agents[me].position@;
    let q = agents[other].position@;
    assert(distance_squared(p, q) == distance_squared(q, p)) by (nonlinear_arith)
        requires
            distance_squared(p, q) == (p.x - q.x) * (p.x - q.x) + (p.y - q.y) * (p.y - q.y),
            distance_squared(q, p) == (q.x - p.x) * (q.x - p.x) + (q.y - p.y) * (q.y - p.y),
    ;
}

/// Looking at one agent more adds, for each of the first `rows` agents, what
/// that agent gives to it.
proof fn lemma_one_more_giver(agents: Seq<Agent>, range: int, rows: int, upto: int)
    requires
        0 <= upto,
    ensures
        push_among(agents, range, rows, upto + 1) == push_among(agents, range, rows, upto).plus(
            push_onto(agents, range, rows, upto),
        ),
    decreases rows,
{
    if rows > 0 {
        lemma_one_more_giver(agents, range, rows - 1, upto);
        assert(push_from(agents, range, rows - 1, upto + 1) == push_from(
            agents,
            range,
            rows - 1,
            upto,
        ).plus(push_between(agents, range, rows - 1, upto)));
    }
}

/// What the agent `other` gives to the first `rows` agents is the opposite of
/// what it gets from them.
proof fn lemma_given_is_taken(agents: Seq<Agent>, range: int, rows: int, other: int)
    requires
        0 <= rows,
    ensures
        push_onto(agents, range, rows, other).plus(push_from(agents, range, other, rows))
            == Vector::zero(),
    decreases rows,
{
    if rows > 0 {
        lemma_given_is_taken(agents, range, rows - 1, other);
        lemma_push_is_mutual(agents, range, rows - 1, other);
        assert(push_from(agents, range, other, rows) == push_from(agents, range, other, rows - 1).plus(
            push_between(agents, range, other, rows - 1),
        ));
    }
}

/// The pushes that the first `count` agents give to one another cancel.
proof fn lemma_pushes_among_cancel(agents: Seq<Agent>, range: int, count: int)
    requires
        0 <= count,
    ensures
        push_among(agents, range, count, count) == Vector::zero(),
    decreases count,
{
    if count > 0 {
        let last: int = count - 1;
        lemma_pushes_among_cancel(agents, range, last);
        lemma_one_more_giver(agents, range, last, last);
        lemma_given_is_taken(agents, range, last, last);
        assert(push_between(agents, range, last, last) == Vector::zero());
        assert(push_from(agents, range, last, count) == push_from(agents, range, last, last).plus(
            push_between(agents, range, last, last),
        ));
    }
}

/// The total push of the first `upto` agents is what they get from the whole
/// flock.
proof fn lemma_total_push(agents: Seq<Agent>, range: int, upto: int)
    ensures
        total_push(agents, range, upto) == push_among(agents, range, upto, agents.len() as int),
    decreases upto,
{
    if upto > 0 {
        lemma_total_push(agents, range, upto - 1);
    }
}

/// The pushes that separation finds for the agents of a flock add up to the
/// zero vector: what one agent is pushed away from another, the other is
/// pushed away from it.
pub proof fn law_pushes_cancel(agents: Seq<Agent>, range: int)
    ensures
        total_push(agents, range, agents.len() as int) == Vector::zero(),
{
    lemma_total_push(agents, range, agents.len() as int);
    lemma_pushes_among_cancel(agents, range, agents.len() as int);
}

} // verus!
