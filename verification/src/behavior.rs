//! The three behaviours of a flock. Each looks, for one agent, at every other
//! agent within its range and folds what it finds into one vector: cohesion
//! the centre of the neighbours, separation the push away from them,
//! alignment their mean heading.
//!
//! An agent is known by its index; it is never its own neighbour, even where
//! another agent stands on the same spot. Every fold is a sum, so the order
//! in which the others are visited does not matter.

use vstd::prelude::*;
use crate::agent::{well_formed, Agent, MAX_AGENTS, SEPARATION_LIMIT, VELOCITY_LIMIT};
use crate::scalar::{
    floor_sqrt, isqrt, lemma_floor_sqrt, lemma_quotient_bound, magnitude, HALF_SIZE,
};
use crate::vector::{Vec2, Vector, FINE};

verus! {

/// Which of the three behaviours is meant.
#[derive(Clone, Copy, Debug, PartialEq, Eq, Structural)]
pub enum Behavior {
    Cohesion,
    Separation,
    Alignment,
}

/// How many neighbours a behaviour found, and the sum of what each gave.
pub struct Tally {
    pub count: int,
    pub sum: Vector,
}

impl Tally {
    /// The tally of no neighbour at all.
    pub open spec fn zero() -> Tally {
        Tally { count: 0, sum: Vector::zero() }
    }

    /// The tally with one more neighbour, which gives `term`.
    pub open spec fn with(self, term: Vector) -> Tally {
        Tally { count: self.count + 1, sum: self.sum.plus(term) }
    }

    /// The sum divided by the number of neighbours, or the zero vector where
    /// there is none.
    pub open spec fn mean(self) -> Vector {
        if self.count == 0 {
            Vector::zero()
        } else {
            self.sum.divided_by(self.count)
        }
    }
}

/// The square of the distance between `p` and `q`.
pub open spec fn distance_squared(p: Vector, q: Vector) -> int {
    p.minus(q).norm_squared()
}

/// Whether the distance between `p` and `q` is less than `range`.
pub open spec fn closer_than(p: Vector, q: Vector, range: int) -> bool {
    0 < range && distance_squared(p, q) < range * range
}

/// Whether the distance between `p` and `q` is at most `range`.
pub open spec fn within_reach(p: Vector, q: Vector, range: int) -> bool {
    0 <= range && distance_squared(p, q) <= range * range
}

/// Whether, for the behaviour `kind` with the range `range`, the agent
/// `other` is a neighbour of the agent `me`: another agent, closer than the
/// range, or for separation no further than the range.
pub open spec fn is_neighbor(
    kind: Behavior,
    agents: Seq<Agent>,
    me: int,
    other: int,
    range: int,
) -> bool {
    &&& other != me
    &&& match kind {
        Behavior::Separation => within_reach(agents[me].position@, agents[other].position@, range),
        _ => closer_than(agents[me].position@, agents[other].position@, range),
    }
}

/// The distance that belongs to the squared distance `squared`, in
/// [`FINE`]-th parts of a millionth, rounded down.
pub open spec fn fine_distance(squared: int) -> int {
    floor_sqrt(squared * FINE * FINE)
}

/// What the neighbour `other` gives to the agent `me`: to cohesion its
/// position, to separation the offset from it to `me`, to alignment its
/// velocity times the distance and divided by the range. The distance is
/// taken to a [`FINE`]-th of a millionth, so that the weight is right for
/// short ranges too.
pub open spec fn contribution(
    kind: Behavior,
    agents: Seq<Agent>,
    me: int,
    other: int,
    range: int,
) -> Vector {
    match kind {
        Behavior::Cohesion => agents[other].position@,
        Behavior::Separation => agents[me].position@.minus(agents[other].position@),
        Behavior::Alignment => {
            let distance = fine_distance(
                distance_squared(agents[me].position@, agents[other].position@),
            );
            Vector {
                x: agents[other].velocity.x * distance,
                y: agents[other].velocity.y * distance,
            }.divided_by(range * FINE)
        },
    }
}

/// What the behaviour `kind` found for the agent `me` among the first `upto`
/// agents.
pub open spec fn tally(kind: Behavior, agents: Seq<Agent>, me: int, range: int, upto: int) -> Tally
    decreases upto,
{
    if upto <= 0 {
        Tally::zero()
    } else {
        let before = tally(kind, agents, me, range, upto - 1);
        if is_neighbor(kind, agents, me, upto - 1, range) {
            before.with(contribution(kind, agents, me, upto - 1, range))
        } else {
            before
        }
    }
}

/// The centre of the neighbours of `me` that are closer than `range`, or the
/// zero vector where there is none.
pub open spec fn cohesion_center(agents: Seq<Agent>, me: int, range: int) -> Vector {
    tally(Behavior::Cohesion, agents, me, range, agents.len() as int).mean()
}

/// How many neighbours of `me` are closer than `range`.
pub open spec fn cohesion_count(agents: Seq<Agent>, me: int, range: int) -> int {
    tally(Behavior::Cohesion, agents, me, range, agents.len() as int).count
}

/// The sum of the offsets to `me` from every neighbour that is no further
/// than `range`.
pub open spec fn separation_push(agents: Seq<Agent>, me: int, range: int) -> Vector {
    tally(Behavior::Separation, agents, me, range, agents.len() as int).sum
}

/// The mean of the velocities of the neighbours of `me` that are closer than
/// `range`, each weighted by its distance over the range; the zero vector
/// where there is none.
pub open spec fn alignment_direction(agents: Seq<Agent>, me: int, range: int) -> Vector {
    tally(Behavior::Alignment, agents, me, range, agents.len() as int).mean()
}

/// A behaviour that finds no neighbour among the first `upto` agents has the
/// empty tally.
pub proof fn lemma_tally_without_neighbors(
    kind: Behavior,
    agents: Seq<Agent>,
    me: int,
    range: int,
    upto: int,
)
    requires
        forall|other: int| 0 <= other < upto ==> !is_neighbor(kind, agents, me, other, range),
    ensures
        tally(kind, agents, me, range, upto) == Tally::zero(),
    decreases upto,
{
    if upto > 0 {
        lemma_tally_without_neighbors(kind, agents, me, range, upto - 1);
    }
}

/// A tally reads, of the agents it looks at, only the positions and the
/// velocities: two flocks that agree on those give the same tally.
pub proof fn lemma_tally_reads_motion(
    kind: Behavior,
    first: Seq<Agent>,
    second: Seq<Agent>,
    me: int,
    range: int,
    upto: int,
)
    requires
        0 <= me < first.len(),
        0 <= upto <= first.len(),
        first.len() == second.len(),
        forall|i: int|
            0 <= i < first.len() ==> (#[trigger] first[i]).position == second[i].position
                && first[i].velocity == second[i].velocity,
    ensures
        tally(kind, first, me, range, upto) == tally(kind, second, me, range, upto),
    decreases upto,
{
    if upto > 0 {
        lemma_tally_reads_motion(kind, first, second, me, range, upto - 1);
        assert(first[upto - 1].position == second[upto - 1].position);
        assert(first[me].position == second[me].position);
    }
}

/// What a neighbour gives to alignment is no faster than the neighbour.
pub proof fn lemma_alignment_contribution(agents: Seq<Agent>, me: int, other: int, range: int)
    requires
        well_formed(agents),
        0 <= me < agents.len(),
        0 <= other < agents.len(),
        is_neighbor(Behavior::Alignment, agents, me, other, range),
    ensures
        contribution(Behavior::Alignment, agents, me, other, range).within(VELOCITY_LIMIT as int),
{
    let squared: int = distance_squared(agents[me].position@, agents[other].position@);
    assert(0 <= squared) by (nonlinear_arith)
        requires
            squared == (agents[me].position.x - agents[other].position.x) * (agents[me].position.x
                - agents[other].position.x) + (agents[me].position.y - agents[other].position.y)
                * (agents[me].position.y - agents[other].position.y),
    ;
    let fine: int = FINE as int;
    let wide: int = squared * fine * fine;
    let reach: int = range * fine;
    assert(0 <= wide < reach * reach) by (nonlinear_arith)
        requires
            wide == squared * fine * fine,
            reach == range * fine,
            0 <= squared < range * range,
            0 < fine,
    ;
    lemma_floor_sqrt(wide);
    let distance: int = fine_distance(squared);
    assert(0 < reach) by (nonlinear_arith)
        requires
            reach == range * fine,
            0 < range,
            0 < fine,
    ;
    assert(distance < reach) by (nonlinear_arith)
        requires
            0 <= distance,
            0 < reach,
            distance * distance < reach * reach,
    ;
    let limit: int = VELOCITY_LIMIT as int;
    let vx: int = agents[other].velocity.x as int;
    let vy: int = agents[other].velocity.y as int;
    assert(agents[other].valid());
    assert(magnitude(vx * distance) <= limit * reach) by (nonlinear_arith)
        requires
            -limit <= vx <= limit,
            0 <= distance < reach,
    ;
    assert(magnitude(vy * distance) <= limit * reach) by (nonlinear_arith)
        requires
            -limit <= vy <= limit,
            0 <= distance < reach,
    ;
    lemma_quotient_bound(vx * distance, reach, limit);
    lemma_quotient_bound(vy * distance, reach, limit);
}

/// The square of the distance between two points of the world.
fn squared_distance(p: Vec2, q: Vec2) -> (squared: i128)
    requires
        p@.within(HALF_SIZE as int),
        q@.within(HALF_SIZE as int),
    ensures
        squared == distance_squared(p@, q@),
        0 <= squared <= 2_000_000_000_000_000_000,
{
    let dx: i128 = p.x as i128 - q.x as i128;
    let dy: i128 = p.y as i128 - q.y as i128;
    assert(0 <= dx * dx <= 1_000_000_000_000_000_000) by (nonlinear_arith)
        requires
            -1_000_000_000 <= dx <= 1_000_000_000,
    ;
    assert(0 <= dy * dy <= 1_000_000_000_000_000_000) by (nonlinear_arith)
        requires
            -1_000_000_000 <= dy <= 1_000_000_000,
    ;
    dx * dx + dy * dy
}

/// The square of a range.
fn squared_range(range: i64) -> (squared: i128)
    ensures
        squared == range * range,
{
    assert(0 <= range * range <= 0x8000_0000_0000_0000 * 0x8000_0000_0000_0000)
        by (nonlinear_arith)
        requires
            -0x8000_0000_0000_0000 <= range <= 0x8000_0000_0000_0000,
    ;
    range as i128 * range as i128
}

/// Tells whether, for the behaviour `kind`, the agent `other` is a neighbour
/// of the agent `me`.
pub fn neighbors(kind: Behavior, agents: &Vec<Agent>, me: usize, other: usize, range: i64) -> (yes:
    bool)
    requires
        well_formed(agents@),
        me < agents.len(),
        other < agents.len(),
    ensures
        yes == is_neighbor(kind, agents@, me as int, other as int, range as int),
{
    if other == me {
        return false;
    }
    assert(agents@[me as int].valid());
    assert(agents@[other as int].valid());
    let squared: i128 = squared_distance(agents[me].position, agents[other].position);
    let limit: i128 = squared_range(range);
    match kind {
        Behavior::Separation => 0 <= range && squared <= limit,
        _ => 0 < range && squared < limit,
    }
}

/// Finds, for the agent `me`, the centre of the other agents closer than
/// `range`, and how many they are; the zero vector where there is none.
pub fn cohesion(agents: &Vec<Agent>, me: usize, range: i64) -> (found: (Vec2, usize))
    requires
        well_formed(agents@),
        me < agents.len(),
    ensures
        found.0@ == cohesion_center(agents@, me as int, range as int),
        found.1 == cohesion_count(agents@, me as int, range as int),
        found.0@.within(HALF_SIZE as int),
{
    let ghost kind = Behavior::Cohesion;
    let mut count: i128 = 0;
    let mut x: i128 = 0;
    let mut y: i128 = 0;
    let mut other: usize = 0;
    while other < agents.len()
        invariant
            well_formed(agents@),
            me < agents.len(),
            other <= agents.len(),
            kind == Behavior::Cohesion,
            tally(kind, agents@, me as int, range as int, other as int) == (Tally {
                count: count as int,
                sum: Vector { x: x as int, y: y as int },
            }),
            0 <= count <= other,
            -count * HALF_SIZE <= x <= count * HALF_SIZE,
            -count * HALF_SIZE <= y <= count * HALF_SIZE,
        decreases agents.len() - other,
    {
        assert(agents@[other as int].valid());
        assert(count * HALF_SIZE <= MAX_AGENTS * HALF_SIZE) by (nonlinear_arith)
            requires
                0 <= count <= MAX_AGENTS,
        ;
        if neighbors(Behavior::Cohesion, agents, me, other, range) {
            let there = agents[other].position;
            assert((count + 1) * HALF_SIZE == count * HALF_SIZE + HALF_SIZE) by (nonlinear_arith);
            x = x + there.x as i128;
            y = y + there.y as i128;
            count = count + 1;
        }
        other = other + 1;
    }
    if count == 0 {
        (Vec2::zero(), 0)
    } else {
        proof {
            assert(magnitude(x as int) <= HALF_SIZE * count) by (nonlinear_arith)
                requires
                    -count * HALF_SIZE <= x <= count * HALF_SIZE,
            ;
            assert(magnitude(y as int) <= HALF_SIZE * count) by (nonlinear_arith)
                requires
                    -count * HALF_SIZE <= y <= count * HALF_SIZE,
            ;
            lemma_quotient_bound(x as int, count as int, HALF_SIZE as int);
            lemma_quotient_bound(y as int, count as int, HALF_SIZE as int);
        }
        (Vec2 { x: (x / count) as i64, y: (y / count) as i64 }, count as usize)
    }
}

/// Finds, for the agent `me`, the sum of the offsets to it from the other
/// agents no further than `range`.
pub fn separation(agents: &Vec<Agent>, me: usize, range: i64) -> (push: Vec2)
    requires
        well_formed(agents@),
        me < agents.len(),
    ensures
        push@ == separation_push(agents@, me as int, range as int),
        push@.within(SEPARATION_LIMIT as int),
{
    let ghost kind = Behavior::Separation;
    let here = agents[me].position;
    assert(agents@[me as int].valid());
    let mut count: i128 = 0;
    let mut x: i128 = 0;
    let mut y: i128 = 0;
    let mut other: usize = 0;
    while other < agents.len()
        invariant
            well_formed(agents@),
            me < agents.len(),
            other <= agents.len(),
            here == agents@[me as int].position,
            here@.within(HALF_SIZE as int),
            kind == Behavior::Separation,
            tally(kind, agents@, me as int, range as int, other as int) == (Tally {
                count: count as int,
                sum: Vector { x: x as int, y: y as int },
            }),
            0 <= count <= other,
            -count * 1_000_000_000 <= x <= count * 1_000_000_000,
            -count * 1_000_000_000 <= y <= count * 1_000_000_000,
        decreases agents.len() - other,
    {
        assert(agents@[other as int].valid());
        if neighbors(Behavior::Separation, agents, me, other, range) {
            let there = agents[other].position;
            x = x + (here.x as i128 - there.x as i128);
            y = y + (here.y as i128 - there.y as i128);
            count = count + 1;
        }
        other = other + 1;
    }
    Vec2 { x: x as i64, y: y as i64 }
}

/// Finds, for the agent `me`, the mean of the velocities of the other agents
/// closer than `range`, each weighted by its distance over the range; the
/// zero vector where there is none.
pub fn alignment(agents: &Vec<Agent>, me: usize, range: i64) -> (direction: Vec2)
    requires
        well_formed(agents@),
        me < agents.len(),
    ensures
        direction@ == alignment_direction(agents@, me as int, range as int),
        direction@.within(VELOCITY_LIMIT as int),
{
    let ghost kind = Behavior::Alignment;
    let here = agents[me].position;
    assert(agents@[me as int].valid());
    let mut count: i128 = 0;
    let mut x: i128 = 0;
    let mut y: i128 = 0;
    let mut other: usize = 0;
    while other < agents.len()
        invariant
            well_formed(agents@),
            me < agents.len(),
            other <= agents.len(),
            here == agents@[me as int].position,
            here@.within(HALF_SIZE as int),
            kind == Behavior::Alignment,
            tally(kind, agents@, me as int, range as int, other as int) == (Tally {
                count: count as int,
                sum: Vector { x: x as int, y: y as int },
            }),
            0 <= count <= other,
            -count * VELOCITY_LIMIT <= x <= count * VELOCITY_LIMIT,
            -count * VELOCITY_LIMIT <= y <= count * VELOCITY_LIMIT,
        decreases agents.len() - other,
    {
        assert(agents@[other as int].valid());
        assert(count * VELOCITY_LIMIT <= MAX_AGENTS * VELOCITY_LIMIT) by (nonlinear_arith)
            requires
                0 <= count <= MAX_AGENTS,
        ;
        if neighbors(Behavior::Alignment, agents, me, other, range) {
            let there = agents[other];
            let squared: i128 = squared_distance(here, there.position);
            assert(squared * FINE * FINE <= 2_000_000_000_000_000_000_000_000_000_000_000_000)
                by (nonlinear_arith)
                requires
                    0 <= squared <= 2_000_000_000_000_000_000,
                    FINE == 1_000_000_000,
            ;
            assert(0 <= squared * FINE * FINE) by (nonlinear_arith)
                requires
                    0 <= squared,
                    FINE == 1_000_000_000,
            ;
            assert(0 <= squared * FINE <= 2_000_000_000_000_000_000_000_000_000)
                by (nonlinear_arith)
                requires
                    0 <= squared <= 2_000_000_000_000_000_000,
                    FINE == 1_000_000_000,
            ;
            let wide: i128 = squared * (FINE as i128) * (FINE as i128);
            let distance: i128 = isqrt(wide as u128) as i128;
            let reach: i128 = range as i128 * (FINE as i128);
            proof {
                lemma_floor_sqrt(wide as int);
                lemma_alignment_contribution(agents@, me as int, other as int, range as int);
                assert(distance <= 2_000_000_000_000_000_000) by (nonlinear_arith)
                    requires
                        0 <= distance,
                        distance * distance
                            <= 2_000_000_000_000_000_000_000_000_000_000_000_000,
                ;
                assert(-2_000_000_000_000_000_000_000_000_000_000 <= there.velocity.x * distance
                    <= 2_000_000_000_000_000_000_000_000_000_000) by (nonlinear_arith)
                    requires
                        -1_000_000_000_000 <= there.velocity.x <= 1_000_000_000_000,
                        0 <= distance <= 2_000_000_000_000_000_000,
                ;
                assert(-2_000_000_000_000_000_000_000_000_000_000 <= there.velocity.y * distance
                    <= 2_000_000_000_000_000_000_000_000_000_000) by (nonlinear_arith)
                    requires
                        -1_000_000_000_000 <= there.velocity.y <= 1_000_000_000_000,
                        0 <= distance <= 2_000_000_000_000_000_000,
                ;
                assert((count + 1) * VELOCITY_LIMIT == count * VELOCITY_LIMIT + VELOCITY_LIMIT)
                    by (nonlinear_arith);
            }
            let wx: i128 = (there.velocity.x as i128 * distance) / reach;
            let wy: i128 = (there.velocity.y as i128 * distance) / reach;
            x = x + wx;
            y = y + wy;
            count = count + 1;
        }
        other = other + 1;
    }
    if count == 0 {
        Vec2::zero()
    } else {
        proof {
            assert(magnitude(x as int) <= VELOCITY_LIMIT * count) by (nonlinear_arith)
                requires
                    -count * VELOCITY_LIMIT <= x <= count * VELOCITY_LIMIT,
            ;
            assert(magnitude(y as int) <= VELOCITY_LIMIT * count) by (nonlinear_arith)
                requires
                    -count * VELOCITY_LIMIT <= y <= count * VELOCITY_LIMIT,
            ;
            lemma_quotient_bound(x as int, count as int, VELOCITY_LIMIT as int);
            lemma_quotient_bound(y as int, count as int, VELOCITY_LIMIT as int);
        }
        Vec2 { x: (x / count) as i64, y: (y / count) as i64 }
    }
}

} // verus!
