//! One simulated agent, and what holds of every agent that the simulation
//! stores.

use vstd::prelude::*;
use crate::scalar::HALF_SIZE;
use crate::vector::Vec2;

verus! {

/// The largest number of agents that one flock may hold.
pub const MAX_AGENTS: usize = 1_000_000;

/// The highest speed along one axis that an agent may be given.
pub const VELOCITY_LIMIT: i64 = 1_000_000_000_000;

/// How far along one axis the push away from neighbours can reach: every one
/// of [`MAX_AGENTS`] neighbours at the far side of the world.
pub const SEPARATION_LIMIT: i64 = 1_000_000_000_000_000;

/// An agent: where it is, how it moves, which way it faces, and what the
/// three behaviours found for it in the current tick.
#[derive(Clone, Copy, Debug, PartialEq, Eq, Structural)]
pub struct Agent {
    /// Where the agent is.
    pub position: Vec2,
    /// How far the agent moves in one second.
    pub velocity: Vec2,
    /// The direction of the velocity as a vector of length one, or the zero
    /// vector for an agent at rest.
    pub facing: Vec2,
    /// The centre of the neighbours that cohesion looks at, or the zero
    /// vector where there are none.
    pub cohesion: Vec2,
    /// How many neighbours cohesion looks at. It tells an agent without
    /// neighbours from one whose neighbours have their centre at the origin.
    pub cohesion_count: usize,
    /// The sum of the offsets from the neighbours that separation looks at.
    pub separation: Vec2,
    /// The mean of the weighted velocities of the neighbours that alignment
    /// looks at, or the zero vector where there are none.
    pub alignment: Vec2,
}

impl Agent {
    /// Whether the agent is inside the world and none of its vectors is
    /// beyond what the arithmetic of a tick can hold.
    pub open spec fn valid(self) -> bool {
        &&& self.position@.within(HALF_SIZE as int)
        &&& self.velocity@.within(VELOCITY_LIMIT as int)
        &&& self.cohesion@.within(HALF_SIZE as int)
        &&& self.separation@.within(SEPARATION_LIMIT as int)
        &&& self.alignment@.within(VELOCITY_LIMIT as int)
    }

    /// An agent at `position` that moves with `velocity`, the rest zero.
    pub fn new(position: Vec2, velocity: Vec2) -> (agent: Agent)
        ensures
            agent == (Agent {
                position,
                velocity,
                facing: Vec2 { x: 0, y: 0 },
                cohesion: Vec2 { x: 0, y: 0 },
                cohesion_count: 0,
                separation: Vec2 { x: 0, y: 0 },
                alignment: Vec2 { x: 0, y: 0 },
            }),
    {
        Agent {
            position,
            velocity,
            facing: Vec2::zero(),
            cohesion: Vec2::zero(),
            cohesion_count: 0,
            separation: Vec2::zero(),
            alignment: Vec2::zero(),
        }
    }

    /// Tells whether the agent is valid.
    pub fn is_valid(&self) -> (valid: bool)
        ensures
            valid == self.valid(),
    {
        fits(self.position, HALF_SIZE) && fits(self.velocity, VELOCITY_LIMIT) && fits(
            self.cohesion,
            HALF_SIZE,
        ) && fits(self.separation, SEPARATION_LIMIT) && fits(self.alignment, VELOCITY_LIMIT)
    }
}

/// Tells whether both coordinates of `v` lie between `-bound` and `bound`.
pub fn fits(v: Vec2, bound: i64) -> (inside: bool)
    requires
        0 <= bound,
    ensures
        inside == v@.within(bound as int),
{
    -bound <= v.x && v.x <= bound && -bound <= v.y && v.y <= bound
}

/// Whether `agents` can be the agents of one flock: not too many, and each
/// of them valid.
pub open spec fn well_formed(agents: Seq<Agent>) -> bool {
    &&& agents.len() <= MAX_AGENTS
    &&& forall|i: int| 0 <= i < agents.len() ==> (#[trigger] agents[i]).valid()
}

/// Tells whether `agents` can be the agents of one flock.
pub fn is_well_formed(agents: &Vec<Agent>) -> (yes: bool)
    ensures
        yes == well_formed(agents@),
{
    if agents.len() > MAX_AGENTS {
        return false;
    }
    let mut checked: usize = 0;
    while checked < agents.len()
        invariant
            checked <= agents.len(),
            agents.len() <= MAX_AGENTS,
            forall|i: int| 0 <= i < checked ==> (#[trigger] agents@[i]).valid(),
        decreases agents.len() - checked,
    {
        if !agents[checked].is_valid() {
            return false;
        }
        checked = checked + 1;
    }
    true
}

} // verus!
