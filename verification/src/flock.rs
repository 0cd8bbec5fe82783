//! The flock: every agent of a simulation, and the passes of a tick over
//! them.
//!
//! A tick runs the three behaviours, each over all agents, and then the
//! integrator. The behaviours read only positions and velocities and write
//! only their own finding, so each of them sees the flock as it was when the
//! tick began; the integrator runs once all three are done.

use vstd::prelude::*;
use crate::agent::{is_well_formed, well_formed, Agent, MAX_AGENTS};
use crate::behavior::{
    alignment, alignment_direction, cohesion, cohesion_center, cohesion_count,
    lemma_tally_reads_motion, separation, separation_push, Behavior,
};
use crate::integrator::{integrate, integrated, Motion, Strengths};
use crate::parameter::{ParameterName, ParameterSet};
use crate::scalar::{HALF_SIZE, MAX_SPEED};
use crate::spawn::{freshly_placed, scatter};
use crate::vector::{Vec2, Vector};

verus! {

/// What the behaviour `kind` finds for the agent `me`.
pub open spec fn finding(kind: Behavior, agents: Seq<Agent>, me: int, range: int) -> Vector {
    match kind {
        Behavior::Cohesion => cohesion_center(agents, me, range),
        Behavior::Separation => separation_push(agents, me, range),
        Behavior::Alignment => alignment_direction(agents, me, range),
    }
}

/// Whether `after` is the agent `me` of `before` once the behaviour `kind`
/// has run with the range `range`: it holds what the behaviour found for it,
/// and nothing else about it has changed.
pub open spec fn told(kind: Behavior, before: Seq<Agent>, me: int, range: int, after: Agent) -> bool {
    match kind {
        Behavior::Cohesion => {
            &&& after.cohesion@ == cohesion_center(before, me, range)
            &&& after.cohesion_count == cohesion_count(before, me, range)
            &&& after == (Agent {
                cohesion: after.cohesion,
                cohesion_count: after.cohesion_count,
                ..before[me]
            })
        },
        Behavior::Separation => {
            &&& after.separation@ == separation_push(before, me, range)
            &&& after == (Agent { separation: after.separation, ..before[me] })
        },
        Behavior::Alignment => {
            &&& after.alignment@ == alignment_direction(before, me, range)
            &&& after == (Agent { alignment: after.alignment, ..before[me] })
        },
    }
}

/// Whether `after` is `before` once the behaviour `kind` has run over every
/// agent with the range `range`.
pub open spec fn behaved(kind: Behavior, before: Seq<Agent>, after: Seq<Agent>, range: int) -> bool {
    &&& after.len() == before.len()
    &&& forall|i: int| 0 <= i < before.len() ==> told(kind, before, i, range, #[trigger] after[i])
}

/// The motion that an agent holds.
pub open spec fn motion_of(agent: Agent) -> Motion {
    Motion { position: agent.position@, velocity: agent.velocity@, facing: agent.facing@ }
}

/// Whether `after` is `before` once the integrator has run over every agent.
pub open spec fn moved(
    before: Seq<Agent>,
    after: Seq<Agent>,
    strengths: Strengths,
    elapsed: int,
) -> bool {
    &&& after.len() == before.len()
    &&& forall|i: int|
        0 <= i < before.len() ==> {
            &&& motion_of(#[trigger] after[i]) == integrated(before[i], strengths, elapsed)
            &&& after[i].cohesion == before[i].cohesion
            &&& after[i].cohesion_count == before[i].cohesion_count
            &&& after[i].separation == before[i].separation
            &&& after[i].alignment == before[i].alignment
        }
}

/// The strengths that a set of parameters holds.
pub open spec fn strengths_in(parameters: ParameterSet) -> Strengths {
    Strengths {
        cohesion: parameters.value_of(ParameterName::CoherenceStrength) as i64,
        separation: parameters.value_of(ParameterName::SeparationStrength) as i64,
        alignment: parameters.value_of(ParameterName::AlignmentStrength) as i64,
    }
}

/// Whether `after` is `before` one tick of `elapsed` millionths of a second
/// later:
/// each agent holds what the three behaviours found for it in `before`, and
/// its motion is what the integrator makes of `before` and those findings.
pub open spec fn ticked(
    before: Seq<Agent>,
    after: Seq<Agent>,
    parameters: ParameterSet,
    elapsed: int,
) -> bool {
    &&& after.len() == before.len()
    &&& forall|i: int|
        0 <= i < before.len() ==> {
            let agent = #[trigger] after[i];
            let steering = Agent {
                cohesion: agent.cohesion,
                cohesion_count: agent.cohesion_count,
                separation: agent.separation,
                alignment: agent.alignment,
                ..before[i]
            };
            &&& agent.cohesion@ == cohesion_center(
                before,
                i,
                parameters.value_of(ParameterName::CoherenceRange),
            )
            &&& agent.cohesion_count == cohesion_count(
                before,
                i,
                parameters.value_of(ParameterName::CoherenceRange),
            )
            &&& agent.separation@ == separation_push(
                before,
                i,
                parameters.value_of(ParameterName::SeparationRange),
            )
            &&& agent.alignment@ == alignment_direction(
                before,
                i,
                parameters.value_of(ParameterName::AlignmentRange),
            )
            &&& motion_of(agent) == integrated(steering, strengths_in(parameters), elapsed)
        }
}

/// Reads the three strengths out of a set of parameters.
pub fn strengths_of(parameters: &ParameterSet) -> (strengths: Strengths)
    ensures
        strengths == strengths_in(*parameters),
        strengths.valid(),
{
    Strengths {
        cohesion: parameters.get(ParameterName::CoherenceStrength),
        separation: parameters.get(ParameterName::SeparationStrength),
        alignment: parameters.get(ParameterName::AlignmentStrength),
    }
}

/// Runs the behaviour `kind` over every agent.
fn behave(agents: &Vec<Agent>, kind: Behavior, range: i64) -> (after: Vec<Agent>)
    requires
        well_formed(agents@),
    ensures
        well_formed(after@),
        behaved(kind, agents@, after@, range as int),
{
    let mut after: Vec<Agent> = Vec::new();
    let mut me: usize = 0;
    while me < agents.len()
        invariant
            well_formed(agents@),
            after@.len() == me,
            me <= agents@.len(),
            forall|i: int| 0 <= i < me ==> (#[trigger] after@[i]).valid(),
            forall|i: int| 0 <= i < me ==> told(kind, agents@, i, range as int, #[trigger] after@[i]),
        decreases agents.len() - me,
    {
        let mut agent = agents[me];
        assert(agent.valid());
        match kind {
            Behavior::Cohesion => {
                let (center, count) = cohesion(agents, me, range);
                agent.cohesion = center;
                agent.cohesion_count = count;
            },
            Behavior::Separation => {
                agent.separation = separation(agents, me, range);
            },
            Behavior::Alignment => {
                agent.alignment = alignment(agents, me, range);
            },
        }
        assert(told(kind, agents@, me as int, range as int, agent));
        after.push(agent);
        me = me + 1;
    }
    after
}

/// Runs the integrator over every agent.
fn integrate_all(agents: &Vec<Agent>, strengths: Strengths, elapsed: u32) -> (after: Vec<Agent>)
    requires
        well_formed(agents@),
        strengths.valid(),
    ensures
        well_formed(after@),
        moved(agents@, after@, strengths, elapsed as int),
        forall|i: int|
            0 <= i < after@.len() ==> (#[trigger] after@[i]).velocity@.norm_squared() <= MAX_SPEED
                * MAX_SPEED && after@[i].position@.within(HALF_SIZE as int),
{
    let mut after: Vec<Agent> = Vec::new();
    let mut me: usize = 0;
    while me < agents.len()
        invariant
            well_formed(agents@),
            strengths.valid(),
            after@.len() == me,
            me <= agents@.len(),
            forall|i: int|
                0 <= i < me ==> {
                    &&& (#[trigger] after@[i]).valid()
                    &&& motion_of(after@[i]) == integrated(agents@[i], strengths, elapsed as int)
                    &&& after@[i].cohesion == agents@[i].cohesion
                    &&& after@[i].cohesion_count == agents@[i].cohesion_count
                    &&& after@[i].separation == agents@[i].separation
                    &&& after@[i].alignment == agents@[i].alignment
                    &&& after@[i].velocity@.norm_squared() <= MAX_SPEED * MAX_SPEED
                    &&& after@[i].position@.within(HALF_SIZE as int)
                },
        decreases agents.len() - me,
    {
        let agent = agents[me];
        assert(agent.valid());
        let next = integrate(agent, strengths, elapsed);
        after.push(next);
        me = me + 1;
    }
    after
}

/// Every agent of a simulation. An agent is known by its index, which never
/// changes.
pub struct Flock {
    agents: Vec<Agent>,
}

impl View for Flock {
    type V = Seq<Agent>;

    closed spec fn view(&self) -> Seq<Agent> {
        self.agents@
    }
}

impl Flock {
    /// What holds of every flock: its agents are well formed.
    #[verifier::type_invariant]
    pub closed spec fn sound(self) -> bool {
        well_formed(self.agents@)
    }

    /// The flock of the given agents; none where there are too many of them
    /// or one of them is not valid.
    pub fn from_agents(agents: Vec<Agent>) -> (flock: Option<Flock>)
        ensures
            flock is Some <==> well_formed(agents@),
            flock matches Some(f) ==> f@ == agents@,
    {
        if !is_well_formed(&agents) {
            return None;
        }
        Some(Flock { agents })
    }

    /// A flock of `count` agents, each at rest at a random point of the
    /// world; none where `count` is more than a flock may hold.
    pub fn scatter(count: usize) -> (flock: Option<Flock>)
        ensures
            flock is Some <==> count <= MAX_AGENTS,
            flock matches Some(f) ==> f@.len() == count && well_formed(f@) && forall|i: int|
                0 <= i < count ==> freshly_placed(#[trigger] f@[i]),
    {
        if count > MAX_AGENTS {
            return None;
        }
        Some(Flock { agents: scatter(count) })
    }

    /// How many agents the flock holds.
    pub fn len(&self) -> (len: usize)
        ensures
            len == self@.len(),
            well_formed(self@),
    {
        proof {
            use_type_invariant(self);
        }
        self.agents.len()
    }

    /// The agents of the flock, in the order of their indices.
    pub fn agents(&self) -> (agents: &Vec<Agent>)
        ensures
            agents@ == self@,
            well_formed(self@),
    {
        proof {
            use_type_invariant(self);
        }
        &self.agents
    }

    /// The agent with the given index, if there is one.
    pub fn agent(&self, index: usize) -> (agent: Option<Agent>)
        ensures
            index < self@.len() ==> agent == Some(self@[index as int]),
            index >= self@.len() ==> agent is None,
    {
        if index < self.agents.len() {
            Some(self.agents[index])
        } else {
            None
        }
    }

    /// Writes to every agent the centre of its neighbours, found within the
    /// cohesion range of `parameters`.
    pub fn coherence_update(&mut self, parameters: &ParameterSet)
        ensures
            behaved(
                Behavior::Cohesion,
                old(self)@,
                final(self)@,
                parameters.value_of(ParameterName::CoherenceRange),
            ),
            well_formed(final(self)@),
    {
        proof {
            use_type_invariant(&*self);
        }
        let range = parameters.get(ParameterName::CoherenceRange);
        self.agents = behave(&self.agents, Behavior::Cohesion, range);
    }

    /// Writes to every agent the push away from its neighbours, found within
    /// the separation range of `parameters`.
    pub fn separation_update(&mut self, parameters: &ParameterSet)
        ensures
            behaved(
                Behavior::Separation,
                old(self)@,
                final(self)@,
                parameters.value_of(ParameterName::SeparationRange),
            ),
            well_formed(final(self)@),
    {
        proof {
            use_type_invariant(&*self);
        }
        let range = parameters.get(ParameterName::SeparationRange);
        self.agents = behave(&self.agents, Behavior::Separation, range);
    }

    /// Writes to every agent the mean heading of its neighbours, found within
    /// the alignment range of `parameters`.
    pub fn alignment_update(&mut self, parameters: &ParameterSet)
        ensures
            behaved(
                Behavior::Alignment,
                old(self)@,
                final(self)@,
                parameters.value_of(ParameterName::AlignmentRange),
            ),
            well_formed(final(self)@),
    {
        proof {
            use_type_invariant(&*self);
        }
        let range = parameters.get(ParameterName::AlignmentRange);
        self.agents = behave(&self.agents, Behavior::Alignment, range);
    }

    /// Ends a tick of `elapsed` millionths of a second: steers and moves every agent
    /// by what the behaviours wrote to it. Afterwards no agent is faster than
    /// the speed limit, and each is inside the world.
    pub fn final_update(&mut self, parameters: &ParameterSet, elapsed: u32)
        ensures
            moved(old(self)@, final(self)@, strengths_in(*parameters), elapsed as int),
            well_formed(final(self)@),
            forall|i: int|
                0 <= i < final(self)@.len() ==> (#[trigger] final(self)@[i]).velocity@.norm_squared()
                    <= MAX_SPEED * MAX_SPEED && final(self)@[i].position@.within(HALF_SIZE as int),
    {
        proof {
            use_type_invariant(&*self);
        }
        let strengths = strengths_of(parameters);
        self.agents = integrate_all(&self.agents, strengths, elapsed);
    }

    /// Runs one tick of `elapsed` millionths of a second: the three behaviours, each
    /// over the flock as it is when the tick begins, then the integrator.
    pub fn tick(&mut self, parameters: &ParameterSet, elapsed: u32)
        ensures
            ticked(old(self)@, final(self)@, *parameters, elapsed as int),
            well_formed(final(self)@),
            forall|i: int|
                0 <= i < final(self)@.len() ==> (#[trigger] final(self)@[i]).velocity@.norm_squared()
                    <= MAX_SPEED * MAX_SPEED && final(self)@[i].position@.within(HALF_SIZE as int),
    {
        let ghost before = self@;
        self.coherence_update(parameters);
        let ghost first = self@;
        self.separation_update(parameters);
        let ghost second = self@;
        self.alignment_update(parameters);
        let ghost third = self@;
        self.final_update(parameters, elapsed);
        proof {
            let after = self@;
            let count: int = before.len() as int;
            let separation_range: int = parameters.value_of(ParameterName::SeparationRange);
            let alignment_range: int = parameters.value_of(ParameterName::AlignmentRange);
            let cohesion_range: int = parameters.value_of(ParameterName::CoherenceRange);
            assert forall|i: int| 0 <= i < count implies (#[trigger] first[i]).position
                == before[i].position && first[i].velocity == before[i].velocity by {
                assert(told(Behavior::Cohesion, before, i, cohesion_range, first[i]));
            }
            assert forall|i: int| 0 <= i < count implies (#[trigger] second[i]).position
                == before[i].position && second[i].velocity == before[i].velocity by {
                assert(told(Behavior::Separation, first, i, separation_range, second[i]));
                assert(told(Behavior::Cohesion, before, i, cohesion_range, first[i]));
            }
            assert forall|i: int| 0 <= i < count implies {
                let agent = #[trigger] after[i];
                let steering = Agent {
                    cohesion: agent.cohesion,
                    cohesion_count: agent.cohesion_count,
                    separation: agent.separation,
                    alignment: agent.alignment,
                    ..before[i]
                };
                &&& agent.cohesion@ == cohesion_center(
                    before,
                    i,
                    parameters.value_of(ParameterName::CoherenceRange),
                )
                &&& agent.cohesion_count == cohesion_count(
                    before,
                    i,
                    parameters.value_of(ParameterName::CoherenceRange),
                )
                &&& agent.separation@ == separation_push(before, i, separation_range)
                &&& agent.alignment@ == alignment_direction(before, i, alignment_range)
                &&& motion_of(agent) == integrated(
                    steering,
                    strengths_in(*parameters),
                    elapsed as int,
                )
            } by {
                lemma_tally_reads_motion(
                    Behavior::Separation,
                    first,
                    before,
                    i,
                    separation_range,
                    count,
                );
                lemma_tally_reads_motion(
                    Behavior::Alignment,
                    second,
                    before,
                    i,
                    alignment_range,
                    count,
                );
                assert(told(Behavior::Cohesion, before, i, cohesion_range, first[i]));
                assert(told(Behavior::Separation, first, i, separation_range, second[i]));
                assert(told(Behavior::Alignment, second, i, alignment_range, third[i]));
                assert(third[i] == (Agent {
                    cohesion: first[i].cohesion,
                    cohesion_count: first[i].cohesion_count,
                    separation: second[i].separation,
                    alignment: third[i].alignment,
                    ..before[i]
                }));
            }
        }
    }
}

} // verus!
