//! The step that ends a tick. It turns what the three behaviours found for an
//! agent into a new velocity, holds the speed to the limit, moves the agent,
//! carries it over the edge of the world to the other side, and says which
//! way it faces.

use vstd::prelude::*;
use crate::agent::Agent;
use crate::parameter::PARAMETER_LIMIT;
use crate::scalar::{
    lemma_quotient_bound, magnitude, quotient, HALF_SIZE, MAX_SPEED, TICKS_PER_SECOND, SCALE,
};
use crate::vector::{
    lemma_stretched_reaches, lemma_stretched_to, normalize_or_zero, Vec2, Vector,
};

verus! {

/// How strongly each behaviour acts on the velocity.
#[derive(Clone, Copy, Debug, PartialEq, Eq, Structural)]
pub struct Strengths {
    pub cohesion: i64,
    pub separation: i64,
    pub alignment: i64,
}

impl Strengths {
    /// Whether each strength is one that a parameter can hold.
    pub open spec fn valid(self) -> bool {
        &&& -PARAMETER_LIMIT <= self.cohesion <= PARAMETER_LIMIT
        &&& -PARAMETER_LIMIT <= self.separation <= PARAMETER_LIMIT
        &&& -PARAMETER_LIMIT <= self.alignment <= PARAMETER_LIMIT
    }

    /// Tells whether the strengths are valid.
    pub fn is_valid(&self) -> (valid: bool)
        ensures
            valid == self.valid(),
    {
        -PARAMETER_LIMIT <= self.cohesion && self.cohesion <= PARAMETER_LIMIT && -PARAMETER_LIMIT
            <= self.separation && self.separation <= PARAMETER_LIMIT && -PARAMETER_LIMIT
            <= self.alignment && self.alignment <= PARAMETER_LIMIT
    }
}

/// Where an agent is, how it moves and which way it faces, in exact
/// integers.
pub struct Motion {
    pub position: Vector,
    pub velocity: Vector,
    pub facing: Vector,
}

/// The way from the agent to the centre that cohesion found; no pull at all
/// for an agent without a neighbour.
pub open spec fn pull(agent: Agent) -> Vector {
    if agent.cohesion_count == 0 {
        Vector::zero()
    } else {
        agent.cohesion@.minus(agent.position@)
    }
}

/// The velocity of the agent with the three influences added, each weighted
/// by its strength, before the speed limit.
pub open spec fn steered(agent: Agent, strengths: Strengths) -> Vector {
    let toward = pull(agent);
    agent.velocity@.plus(
        Vector {
            x: agent.separation.x * strengths.separation + toward.x * strengths.cohesion
                + agent.alignment.x * strengths.alignment,
            y: agent.separation.y * strengths.separation + toward.y * strengths.cohesion
                + agent.alignment.y * strengths.alignment,
        }.divided_by(SCALE as int),
    )
}

/// `velocity` where it is no faster than the speed limit, else the vector of
/// the same direction whose length is the limit.
pub open spec fn limited(velocity: Vector) -> Vector {
    if velocity.norm_squared() > MAX_SPEED * MAX_SPEED {
        velocity.stretched_to(MAX_SPEED as int)
    } else {
        velocity
    }
}

/// The point reached from `position` with `velocity` after `elapsed`
/// millionths of a second.
pub open spec fn advanced(position: Vector, velocity: Vector, elapsed: int) -> Vector {
    position.plus(
        Vector { x: velocity.x * elapsed, y: velocity.y * elapsed }.divided_by(
            TICKS_PER_SECOND as int,
        ),
    )
}

/// A coordinate beyond one edge of the world is set onto the opposite edge;
/// one inside the world, or on an edge, stays.
pub open spec fn wrapped(coordinate: int) -> int {
    if coordinate > HALF_SIZE {
        -HALF_SIZE
    } else if coordinate < -HALF_SIZE {
        HALF_SIZE as int
    } else {
        coordinate
    }
}

/// What a tick of `elapsed` millionths of a second makes of the agent's
/// motion.
pub open spec fn integrated(agent: Agent, strengths: Strengths, elapsed: int) -> Motion {
    let velocity = limited(steered(agent, strengths));
    let reached = advanced(agent.position@, velocity, elapsed);
    Motion {
        position: Vector { x: wrapped(reached.x), y: wrapped(reached.y) },
        velocity,
        facing: velocity.unit_or_zero(),
    }
}

/// The limited velocity is no faster than the speed limit, on neither axis
/// and as a whole.
pub proof fn lemma_limited(velocity: Vector)
    ensures
        limited(velocity).norm_squared() <= MAX_SPEED * MAX_SPEED,
        limited(velocity).within(MAX_SPEED as int),
{
    let out = limited(velocity);
    if velocity.norm_squared() > MAX_SPEED * MAX_SPEED {
        lemma_stretched_to(velocity, MAX_SPEED as int);
    } else {
        let limit: int = MAX_SPEED as int;
        assert(-limit <= out.x <= limit) by (nonlinear_arith)
            requires
                out.x * out.x + out.y * out.y <= limit * limit,
                0 <= limit,
        ;
        assert(-limit <= out.y <= limit) by (nonlinear_arith)
            requires
                out.x * out.x + out.y * out.y <= limit * limit,
                0 <= limit,
        ;
    }
}

/// Brings a coordinate that left the world back in on the opposite edge.
pub fn wrap(coordinate: i64) -> (inside: i64)
    ensures
        inside == wrapped(coordinate as int),
        -HALF_SIZE <= inside <= HALF_SIZE,
        coordinate > HALF_SIZE ==> inside == -HALF_SIZE,
        coordinate < -HALF_SIZE ==> inside == HALF_SIZE,
        -HALF_SIZE <= coordinate <= HALF_SIZE ==> inside == coordinate,
{
    if coordinate < -HALF_SIZE {
        HALF_SIZE
    } else if coordinate > HALF_SIZE {
        -HALF_SIZE
    } else {
        coordinate
    }
}

/// Holds a velocity to the speed limit. A velocity above the limit comes out
/// shorter than the limit by two millionths at most.
pub fn limit_speed(velocity: Vec2) -> (held: Vec2)
    ensures
        held@ == limited(velocity@),
        held@.norm_squared() <= MAX_SPEED * MAX_SPEED,
        held@.within(MAX_SPEED as int),
        velocity@.norm_squared() > MAX_SPEED * MAX_SPEED ==> (MAX_SPEED - 2) * (MAX_SPEED - 2)
            <= held@.norm_squared() && held@.dot(velocity@) > 0,
{
    proof {
        lemma_limited(velocity@);
        if velocity@.norm_squared() > MAX_SPEED * MAX_SPEED {
            assert(velocity@ != Vector::zero()) by (nonlinear_arith)
                requires
                    velocity@.x * velocity@.x + velocity@.y * velocity@.y > MAX_SPEED * MAX_SPEED,
                    MAX_SPEED * MAX_SPEED >= 0,
            ;
            lemma_stretched_reaches(velocity@, MAX_SPEED as int);
        }
    }
    if velocity.norm_squared() > 10_000_000_000_000_000 {
        velocity.stretched_to(MAX_SPEED)
    } else {
        velocity
    }
}

/// One coordinate of the steered velocity.
fn steer_axis(
    velocity: i64,
    separation: i64,
    toward: i64,
    alignment: i64,
    strengths: Strengths,
) -> (out: i64)
    requires
        strengths.valid(),
        -1_000_000_000_000 <= velocity <= 1_000_000_000_000,
        -1_000_000_000_000_000 <= separation <= 1_000_000_000_000_000,
        -1_000_000_000 <= toward <= 1_000_000_000,
        -1_000_000_000_000 <= alignment <= 1_000_000_000_000,
    ensures
        out == velocity + quotient(
            separation * strengths.separation + toward * strengths.cohesion + alignment
                * strengths.alignment,
            SCALE as int,
        ),
{
    let ghost limit: int = PARAMETER_LIMIT as int;
    let ghost ss: int = strengths.separation as int;
    let ghost cs: int = strengths.cohesion as int;
    let ghost als: int = strengths.alignment as int;
    assert(magnitude(separation * ss) <= 1_000_000_000_000_000 * limit) by (nonlinear_arith)
        requires
            -limit <= ss <= limit,
            -1_000_000_000_000_000 <= separation <= 1_000_000_000_000_000,
    ;
    assert(magnitude(toward * cs) <= 1_000_000_000 * limit) by (nonlinear_arith)
        requires
            -limit <= cs <= limit,
            -1_000_000_000 <= toward <= 1_000_000_000,
    ;
    assert(magnitude(alignment * als) <= 1_000_000_000_000 * limit) by (nonlinear_arith)
        requires
            -limit <= als <= limit,
            -1_000_000_000_000 <= alignment <= 1_000_000_000_000,
    ;
    let sum: i128 = separation as i128 * strengths.separation as i128 + toward as i128
        * strengths.cohesion as i128 + alignment as i128 * strengths.alignment as i128;
    proof {
        lemma_quotient_bound(sum as int, SCALE as int, 2_000_000_000_000_000_000);
    }
    let change: i128 = sum / (SCALE as i128);
    (velocity as i128 + change) as i64
}

/// One coordinate of the point reached after `elapsed` millionths of a
/// second.
fn advance_axis(position: i64, velocity: i64, elapsed: u32) -> (out: i64)
    requires
        -HALF_SIZE <= position <= HALF_SIZE,
        -MAX_SPEED <= velocity <= MAX_SPEED,
    ensures
        out == position + quotient(velocity * elapsed, TICKS_PER_SECOND as int),
{
    let ghost span: int = elapsed as int;
    assert(magnitude(velocity * span) <= 500_000_000_000 * 1_000_000) by (nonlinear_arith)
        requires
            -100_000_000 <= velocity <= 100_000_000,
            0 <= span <= 0xffff_ffff,
    ;
    proof {
        lemma_quotient_bound(velocity * span, TICKS_PER_SECOND as int, 500_000_000_000);
    }
    let step: i128 = (velocity as i128 * elapsed as i128) / (TICKS_PER_SECOND as i128);
    (position as i128 + step) as i64
}

/// Ends a tick for one agent: steers, holds the speed, moves the agent for
/// `elapsed` millionths of a second, wraps it at the edge of the world and
/// turns it the way it moves. What the behaviours found stays as it is.
pub fn integrate(agent: Agent, strengths: Strengths, elapsed: u32) -> (next: Agent)
    requires
        agent.valid(),
        strengths.valid(),
    ensures
        next.position@ == integrated(agent, strengths, elapsed as int).position,
        next.velocity@ == integrated(agent, strengths, elapsed as int).velocity,
        next.facing@ == integrated(agent, strengths, elapsed as int).facing,
        next.cohesion == agent.cohesion,
        next.cohesion_count == agent.cohesion_count,
        next.separation == agent.separation,
        next.alignment == agent.alignment,
        next.valid(),
        next.velocity@.norm_squared() <= MAX_SPEED * MAX_SPEED,
        next.position@.within(HALF_SIZE as int),
        next.facing@.norm_squared() <= SCALE * SCALE,
        next.velocity@ != Vector::zero() ==> (SCALE - 2) * (SCALE - 2)
            <= next.facing@.norm_squared(),
        next.velocity@ == Vector::zero() ==> next.facing@ == Vector::zero(),
{
    let toward = if agent.cohesion_count == 0 {
        Vec2::zero()
    } else {
        Vec2 { x: agent.cohesion.x - agent.position.x, y: agent.cohesion.y - agent.position.y }
    };
    assert(toward@ == pull(agent));
    let steered_velocity = Vec2 {
        x: steer_axis(
            agent.velocity.x,
            agent.separation.x,
            toward.x,
            agent.alignment.x,
            strengths,
        ),
        y: steer_axis(
            agent.velocity.y,
            agent.separation.y,
            toward.y,
            agent.alignment.y,
            strengths,
        ),
    };
    assert(steered_velocity@ == steered(agent, strengths));
    let velocity = limit_speed(steered_velocity);
    let position = Vec2 {
        x: wrap(advance_axis(agent.position.x, velocity.x, elapsed)),
        y: wrap(advance_axis(agent.position.y, velocity.y, elapsed)),
    };
    let facing = normalize_or_zero(velocity);
    Agent {
        position,
        velocity,
        facing,
        cohesion: agent.cohesion,
        cohesion_count: agent.cohesion_count,
        separation: agent.separation,
        alignment: agent.alignment,
    }
}

} // verus!
