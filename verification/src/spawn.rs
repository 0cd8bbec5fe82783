//! Where the agents of a new flock stand: each at a random point of the
//! world, at rest.

use vstd::prelude::*;
use rand::rngs::ThreadRng;
use rand::Rng;
use crate::agent::Agent;
use crate::scalar::HALF_SIZE;
use crate::vector::Vec2;

verus! {

/// The random number generator of the current thread, `rand::rngs::ThreadRng`.
/// Nothing is known of what it holds.
#[verifier::external_type_specification]
#[verifier::external_body]
pub struct ExThreadRng(ThreadRng);

/// Calls `rand::thread_rng`, which hands out the generator of the current
/// thread. Nothing is claimed of the generator. The call panics only where
/// the system cannot seed the generator.
#[verifier::external_body]
fn thread_generator() -> (generator: ThreadRng) {
    rand::thread_rng()
}

/// Calls `rand::Rng::gen_range` on the half-open range from `low` to `high`.
/// The range must not be empty. Claimed of the number drawn: it lies in the
/// range, `low` included and `high` not. Which number it is depends on
/// chance. The call panics only where the generator is due for new seed and
/// the system cannot give it.
#[verifier::external_body]
fn draw(generator: &mut ThreadRng, low: i64, high: i64) -> (drawn: i64)
    requires
        low < high,
    ensures
        low <= drawn < high,
{
    generator.gen_range(low..high)
}

/// Whether `agent` can be an agent of a new flock: at rest at a point of the
/// world that is not on its upper or right edge, with nothing found for it
/// yet.
pub open spec fn freshly_placed(agent: Agent) -> bool {
    &&& -HALF_SIZE <= agent.position.x < HALF_SIZE
    &&& -HALF_SIZE <= agent.position.y < HALF_SIZE
    &&& agent == (Agent {
        position: agent.position,
        velocity: Vec2 { x: 0, y: 0 },
        facing: Vec2 { x: 0, y: 0 },
        cohesion: Vec2 { x: 0, y: 0 },
        cohesion_count: 0,
        separation: Vec2 { x: 0, y: 0 },
        alignment: Vec2 { x: 0, y: 0 },
    })
}

/// Places `count` agents at random points of the world, each at rest.
pub fn scatter(count: usize) -> (agents: Vec<Agent>)
    ensures
        agents@.len() == count,
        forall|i: int| 0 <= i < count ==> freshly_placed(#[trigger] agents@[i]),
        forall|i: int| 0 <= i < count ==> (#[trigger] agents@[i]).valid(),
{
    let mut generator = thread_generator();
    let mut agents: Vec<Agent> = Vec::new();
    let mut placed: usize = 0;
    while placed < count
        invariant
            placed <= count,
            agents@.len() == placed,
            forall|i: int| 0 <= i < placed ==> freshly_placed(#[trigger] agents@[i]),
            forall|i: int| 0 <= i < placed ==> (#[trigger] agents@[i]).valid(),
        decreases count - placed,
    {
        let x: i64 = draw(&mut generator, -HALF_SIZE, HALF_SIZE);
        let y: i64 = draw(&mut generator, -HALF_SIZE, HALF_SIZE);
        let agent = Agent::new(Vec2::new(x, y), Vec2::zero());
        assert(freshly_placed(agent));
        assert(agent.valid());
        agents.push(agent);
        placed = placed + 1;
    }
    agents
}

} // verus!
