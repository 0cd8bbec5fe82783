use boids::agent::{fits, is_well_formed, Agent, MAX_AGENTS, SEPARATION_LIMIT, VELOCITY_LIMIT};
use boids::behavior::{alignment, cohesion, neighbors, separation, Behavior};
use boids::flock::{strengths_of, Flock};
use boids::integrator::{integrate, limit_speed, wrap, Strengths};
use boids::parameter::{Parameter, ParameterName, ParameterSet};
use boids::scalar::{HALF_SIZE, MAX_SPEED, SCALE};
use boids::spawn::scatter;
use boids::vector::Vec2;

const U: i64 = SCALE;

fn at(x: i64, y: i64) -> Agent {
    Agent::new(Vec2::new(x, y), Vec2::zero())
}

fn moving(x: i64, y: i64, vx: i64, vy: i64) -> Agent {
    Agent::new(Vec2::new(x, y), Vec2::new(vx, vy))
}

fn parameters(ranges: [i64; 3], strengths: [i64; 3]) -> ParameterSet {
    let fixed = |value: i64| Parameter::new(value, value).unwrap();
    ParameterSet::new(
        fixed(ranges[0]),
        fixed(strengths[0]),
        fixed(ranges[1]),
        fixed(strengths[1]),
        fixed(ranges[2]),
        fixed(strengths[2]),
    )
}

#[test]
fn new_agent_is_at_rest_with_nothing_found() {
    let agent = at(3, 4);
    assert_eq!(agent.position, Vec2::new(3, 4));
    assert_eq!(agent.velocity, Vec2::zero());
    assert_eq!(agent.facing, Vec2::zero());
    assert_eq!(agent.cohesion, Vec2::zero());
    assert_eq!(agent.cohesion_count, 0);
    assert_eq!(agent.separation, Vec2::zero());
    assert_eq!(agent.alignment, Vec2::zero());
    assert!(agent.is_valid());
}

#[test]
fn validity_has_sharp_bounds() {
    assert!(at(HALF_SIZE, -HALF_SIZE).is_valid());
    assert!(!at(HALF_SIZE + 1, 0).is_valid());
    assert!(!at(0, -HALF_SIZE - 1).is_valid());
    assert!(moving(0, 0, VELOCITY_LIMIT, -VELOCITY_LIMIT).is_valid());
    assert!(!moving(0, 0, VELOCITY_LIMIT + 1, 0).is_valid());
    let mut agent = at(0, 0);
    agent.separation = Vec2::new(SEPARATION_LIMIT, 0);
    assert!(agent.is_valid());
    agent.separation = Vec2::new(SEPARATION_LIMIT + 1, 0);
    assert!(!agent.is_valid());
    agent.separation = Vec2::zero();
    agent.cohesion = Vec2::new(0, HALF_SIZE + 1);
    assert!(!agent.is_valid());
    agent.cohesion = Vec2::zero();
    agent.alignment = Vec2::new(0, VELOCITY_LIMIT + 1);
    assert!(!agent.is_valid());
    assert!(fits(Vec2::new(5, -5), 5));
    assert!(!fits(Vec2::new(6, 0), 5));
}

#[test]
fn neighbor_at_distance_five_counts_for_cohesion_not_for_separation() {
    let agents = vec![at(0, 0), at(3 * U, 4 * U)];
    assert_eq!(cohesion(&agents, 0, 10 * U), (Vec2::new(3 * U, 4 * U), 1));
    assert_eq!(separation(&agents, 0, 3 * U), Vec2::zero());
    assert!(neighbors(Behavior::Cohesion, &agents, 0, 1, 10 * U));
    assert!(!neighbors(Behavior::Separation, &agents, 0, 1, 3 * U));
}

#[test]
fn an_agent_is_not_its_own_neighbor_but_one_on_the_same_spot_is() {
    let agents = vec![at(U, U), at(U, U)];
    for kind in [Behavior::Cohesion, Behavior::Separation, Behavior::Alignment] {
        assert!(!neighbors(kind, &agents, 0, 0, 10 * U));
        assert!(neighbors(kind, &agents, 0, 1, 10 * U));
    }
    assert_eq!(cohesion(&agents, 0, 10 * U), (Vec2::new(U, U), 1));
}

#[test]
fn the_range_is_open_for_cohesion_and_alignment_and_closed_for_separation() {
    let agents = vec![at(0, 0), moving(3 * U, 4 * U, 8 * U, 0)];
    assert_eq!(cohesion(&agents, 0, 5 * U), (Vec2::zero(), 0));
    assert_eq!(alignment(&agents, 0, 5 * U), Vec2::zero());
    assert_eq!(separation(&agents, 0, 5 * U), Vec2::new(-3 * U, -4 * U));
    assert_eq!(cohesion(&agents, 0, 5 * U + 1), (Vec2::new(3 * U, 4 * U), 1));
    assert_eq!(separation(&agents, 0, 5 * U - 1), Vec2::zero());
}

#[test]
fn ranges_of_zero_or_less() {
    let agents = vec![at(U, U), at(U, U)];
    assert_eq!(separation(&agents, 0, 0), Vec2::zero());
    assert!(neighbors(Behavior::Separation, &agents, 0, 1, 0));
    assert!(!neighbors(Behavior::Cohesion, &agents, 0, 1, 0));
    assert!(!neighbors(Behavior::Separation, &agents, 0, 1, -5));
    assert!(!neighbors(Behavior::Alignment, &agents, 0, 1, -5));
}

#[test]
fn cohesion_is_the_mean_of_the_neighbors() {
    let agents = vec![at(0, 0), at(2 * U, 0), at(0, 4 * U), at(-5 * U, -1), at(400 * U, 0)];
    assert_eq!(cohesion(&agents, 0, 10 * U), (Vec2::new(-U, 1_333_333), 3));
    assert_eq!(cohesion(&agents, 4, 10 * U), (Vec2::zero(), 0));
}

#[test]
fn neighbors_around_the_origin_have_their_centre_there() {
    let agents = vec![at(3 * U, 4 * U), at(0, 0), at(U, 0), at(-U, 0)];
    assert_eq!(cohesion(&agents, 0, 10 * U), (Vec2::zero(), 3));
    assert_eq!(cohesion(&agents, 1, 2 * U), (Vec2::zero(), 2));
}

#[test]
fn pushes_of_a_flock_cancel() {
    let agents = vec![at(0, 0), at(2 * U, U), at(-U, 3 * U), at(U, U), at(40 * U, 0), at(U, U)];
    for range in [0, U, 2 * U, 3 * U, 50 * U] {
        let mut total = (0_i64, 0_i64);
        for me in 0..agents.len() {
            let push = separation(&agents, me, range);
            total = (total.0 + push.x, total.1 + push.y);
        }
        assert_eq!(total, (0, 0));
    }
}

#[test]
fn alignment_is_right_for_a_range_of_a_few_millionths() {
    let agents = vec![at(0, 0), moving(3, 4, 70 * U, -70 * U), moving(1, 1, 10 * U, 0)];
    // distances 5 and 1.41421356..., range 7: (70, -70) * 5 / 7 = (50, -50),
    // (10, 0) * 1.41421356... / 7 = (2.020305, 0); mean = (26.010152, -25)
    assert_eq!(alignment(&agents, 0, 7), Vec2::new(26_010_152, -25 * U));
}

#[test]
fn separation_is_the_sum_of_the_offsets() {
    let agents = vec![at(U, U), at(2 * U, U), at(U, 3 * U), at(-U, -U), at(400 * U, 0)];
    assert_eq!(separation(&agents, 0, 3 * U), Vec2::new(-U + 2 * U, -2 * U + 2 * U));
    assert_eq!(separation(&agents, 4, 3 * U), Vec2::zero());
}

#[test]
fn alignment_weights_each_neighbor_by_distance_over_range() {
    let agents = vec![
        at(0, 0),
        moving(3 * U, 4 * U, 10 * U, -20 * U),
        moving(0, -8 * U, 5 * U, 5 * U),
        moving(300 * U, 0, 90 * U, 90 * U),
    ];
    // (10, -20) * 5 / 10 = (5, -10); (5, 5) * 8 / 10 = (4, 4); mean = (4.5, -3)
    assert_eq!(alignment(&agents, 0, 10 * U), Vec2::new(4_500_000, -3 * U));
    assert_eq!(alignment(&agents, 3, 10 * U), Vec2::zero());
}

#[test]
fn wrap_sets_a_coordinate_onto_the_opposite_edge() {
    assert_eq!(wrap(HALF_SIZE + 1), -HALF_SIZE);
    assert_eq!(wrap(-HALF_SIZE - 1), HALF_SIZE);
    assert_eq!(wrap(HALF_SIZE), HALF_SIZE);
    assert_eq!(wrap(-HALF_SIZE), -HALF_SIZE);
    assert_eq!(wrap(0), 0);
    assert_eq!(wrap(i64::MAX), -HALF_SIZE);
    assert_eq!(wrap(i64::MIN), HALF_SIZE);
}

#[test]
fn speed_is_held_to_the_limit() {
    assert_eq!(limit_speed(Vec2::new(200 * U, 0)), Vec2::new(100 * U, 0));
    assert_eq!(limit_speed(Vec2::new(0, -101 * U)), Vec2::new(0, -100 * U));
    assert_eq!(limit_speed(Vec2::new(60 * U, 80 * U)), Vec2::new(60 * U, 80 * U));
    assert_eq!(limit_speed(Vec2::new(120 * U, -160 * U)), Vec2::new(60 * U, -80 * U));
    let held = limit_speed(Vec2::new(123_456_789_012, 987_654_321_098));
    assert!(held.norm_squared() <= (MAX_SPEED as u128) * (MAX_SPEED as u128));
    assert!(held.norm_squared() >= ((MAX_SPEED - 2) as u128) * ((MAX_SPEED - 2) as u128));
}

#[test]
fn integrator_adds_the_weighted_influences() {
    let strengths = Strengths { cohesion: 100_000, separation: 200_000, alignment: 500_000 };
    let mut agent = moving(10 * U, 10 * U, U, -U);
    agent.cohesion = Vec2::new(30 * U, 10 * U);
    agent.cohesion_count = 2;
    agent.separation = Vec2::new(-5 * U, 5 * U);
    agent.alignment = Vec2::new(2 * U, 4 * U);
    let next = integrate(agent, strengths, 500_000);
    // x: 1 + (-5 * 0.2 + 20 * 0.1 + 2 * 0.5) = 3; y: -1 + (5 * 0.2 + 0 + 4 * 0.5) = 2
    assert_eq!(next.velocity, Vec2::new(3 * U, 2 * U));
    assert_eq!(next.position, Vec2::new(11_500_000, 11 * U));
    assert_eq!(next.facing, Vec2::new(3 * U, 2 * U).stretched_to(U));
    assert_eq!(next.cohesion, agent.cohesion);
    assert_eq!(next.cohesion_count, 2);
    assert_eq!(next.separation, agent.separation);
    assert_eq!(next.alignment, agent.alignment);
}

#[test]
fn an_agent_without_neighbors_is_not_pulled() {
    let strengths = Strengths { cohesion: U, separation: 0, alignment: 0 };
    let agent = at(10 * U, -10 * U);
    let next = integrate(agent, strengths, 1_000_000);
    assert_eq!(next.velocity, Vec2::zero());
    assert_eq!(next.position, agent.position);
    assert_eq!(next.facing, Vec2::zero());
}

#[test]
fn a_neighbor_at_the_origin_pulls_toward_it() {
    let strengths = Strengths { cohesion: 100_000, separation: 0, alignment: 0 };
    let mut agent = at(3 * U, 4 * U);
    agent.cohesion_count = 1;
    let next = integrate(agent, strengths, 0);
    assert_eq!(next.velocity, Vec2::new(-300_000, -400_000));
    assert_eq!(next.facing, Vec2::new(-600_000, -800_000));

    let set = parameters([10 * U, 0, 0], [100_000, 0, 0]);
    let mut flock = Flock::from_agents(vec![at(3 * U, 4 * U), at(0, 0)]).unwrap();
    flock.tick(&set, 0);
    assert_eq!(flock.agent(0).unwrap().cohesion, Vec2::zero());
    assert_eq!(flock.agent(0).unwrap().cohesion_count, 1);
    assert_eq!(flock.agent(0).unwrap().velocity, Vec2::new(-300_000, -400_000));
    assert_eq!(flock.agent(1).unwrap().velocity, Vec2::new(300_000, 400_000));
}

#[test]
fn half_a_millisecond_moves_an_agent() {
    let strengths = Strengths { cohesion: 100_000, separation: 100_000, alignment: 50_000 };
    let next = integrate(moving(0, 0, 100 * U, 0), strengths, 500);
    assert_eq!(next.position, Vec2::new(50_000, 0));
    assert_eq!(next.velocity, Vec2::new(100 * U, 0));
    let long = integrate(moving(0, 0, 0, -U), strengths, 400_000_000);
    assert_eq!(long.position, Vec2::new(0, -400 * U));
    let longest = integrate(moving(0, 0, 0, -U), strengths, u32::MAX);
    assert_eq!(longest.position, Vec2::new(0, HALF_SIZE));
}

#[test]
fn integrator_carries_an_agent_over_the_edge() {
    let strengths = Strengths { cohesion: 0, separation: 0, alignment: 0 };
    let right = integrate(moving(HALF_SIZE - 1, 0, 100 * U, 0), strengths, 1_000_000);
    assert_eq!(right.position, Vec2::new(-HALF_SIZE, 0));
    let down = integrate(moving(7, -HALF_SIZE, 0, -1_000), strengths, 1_000);
    assert_eq!(down.position, Vec2::new(7, HALF_SIZE));
    let edge = integrate(moving(HALF_SIZE - 5, 0, 5_000, 0), strengths, 1_000);
    assert_eq!(edge.position, Vec2::new(HALF_SIZE, 0));
}

#[test]
fn fast_agent_is_slowed_to_the_limit_in_its_direction() {
    let agent = moving(0, 0, 200 * U, 0);
    let mut flock = Flock::from_agents(vec![agent]).unwrap();
    flock.tick(&ParameterSet::standard(), 10_000);
    let after = flock.agent(0).unwrap();
    assert_eq!(after.velocity, Vec2::new(100 * U, 0));
    assert_eq!(after.position, Vec2::new(U, 0));
    assert_eq!(after.facing, Vec2::new(U, 0));
}

#[test]
fn single_agent_moves_only_with_its_own_velocity() {
    let parameters = ParameterSet::standard();
    let mut resting = Flock::from_agents(vec![at(40 * U, -70 * U)]).unwrap();
    resting.tick(&parameters, 16_000);
    let after = resting.agent(0).unwrap();
    assert_eq!(after, at(40 * U, -70 * U));

    let mut drifting = Flock::from_agents(vec![moving(40 * U, -70 * U, 2 * U, -4 * U)]).unwrap();
    drifting.tick(&parameters, 500_000);
    let after = drifting.agent(0).unwrap();
    assert_eq!(after.position, Vec2::new(41 * U, -72 * U));
    assert_eq!(after.velocity, Vec2::new(2 * U, -4 * U));
    assert_eq!(after.cohesion, Vec2::zero());
    assert_eq!(after.cohesion_count, 0);
    assert_eq!(after.separation, Vec2::zero());
    assert_eq!(after.alignment, Vec2::zero());
}

#[test]
fn a_tick_of_no_length_moves_nobody() {
    let agents = vec![
        moving(0, 0, 50 * U, 50 * U),
        moving(20 * U, 0, -300 * U, 7),
        moving(HALF_SIZE, -HALF_SIZE, 90 * U, -90 * U),
        at(-3, 12),
    ];
    let mut flock = Flock::from_agents(agents.clone()).unwrap();
    flock.tick(&ParameterSet::standard(), 0);
    for (index, agent) in agents.iter().enumerate() {
        assert_eq!(flock.agent(index).unwrap().position, agent.position);
    }
}

#[test]
fn a_tick_runs_the_behaviours_on_the_flock_as_it_was() {
    let set = parameters([10 * U, 10 * U, 10 * U], [100_000, 200_000, 500_000]);
    let agents = vec![moving(0, 0, U, 0), moving(3 * U, 4 * U, 0, 2 * U), at(100 * U, 100 * U)];
    let mut whole = Flock::from_agents(agents.clone()).unwrap();
    whole.tick(&set, 100_000);

    let mut stepwise = Flock::from_agents(agents.clone()).unwrap();
    stepwise.coherence_update(&set);
    stepwise.separation_update(&set);
    stepwise.alignment_update(&set);
    let informed = stepwise.agents().clone();
    assert_eq!(informed[0].cohesion, Vec2::new(3 * U, 4 * U));
    assert_eq!(informed[0].cohesion_count, 1);
    assert_eq!(informed[0].separation, Vec2::new(-3 * U, -4 * U));
    assert_eq!(informed[0].alignment, Vec2::new(0, U));
    assert_eq!(informed[1].cohesion, Vec2::zero());
    assert_eq!(informed[1].cohesion_count, 1);
    assert_eq!(informed[1].separation, Vec2::new(3 * U, 4 * U));
    assert_eq!(informed[1].alignment, Vec2::new(500_000, 0));
    assert_eq!(informed[2].cohesion, Vec2::zero());
    assert_eq!(informed[2].cohesion_count, 0);
    assert_eq!(informed[0].position, agents[0].position);
    assert_eq!(informed[0].velocity, agents[0].velocity);
    stepwise.final_update(&set, 100_000);
    assert_eq!(whole.agents(), stepwise.agents());

    let strengths = strengths_of(&set);
    assert_eq!(strengths, Strengths { cohesion: 100_000, separation: 200_000, alignment: 500_000 });
    for index in 0..3 {
        assert_eq!(whole.agent(index).unwrap(), integrate(informed[index], strengths, 100_000));
    }
    // agent 0: v = (1, 0) + (-3 * 0.2 + 3 * 0.1 + 0, -4 * 0.2 + 4 * 0.1 + 1 * 0.5) = (0.7, 0.1)
    assert_eq!(whole.agent(0).unwrap().velocity, Vec2::new(700_000, 100_000));
    assert_eq!(whole.agent(0).unwrap().position, Vec2::new(70_000, 10_000));
    // agent 1: v = (0, 2) + (3 * 0.2 - 3 * 0.1 + 0.5 * 0.5, 4 * 0.2 - 4 * 0.1 + 0) = (0.55, 2.4)
    assert_eq!(whole.agent(1).unwrap().velocity, Vec2::new(550_000, 2_400_000));
    assert_eq!(whole.agent(2).unwrap(), agents[2]);
}

#[test]
fn after_many_ticks_everyone_is_inside_and_within_the_limit() {
    let mut flock = Flock::scatter(60).unwrap();
    let set = ParameterSet::standard();
    for _ in 0..40 {
        flock.tick(&set, 33_000);
        for agent in flock.agents() {
            assert!(agent.is_valid());
            assert!(agent.velocity.norm_squared() <= (MAX_SPEED as u128) * (MAX_SPEED as u128));
            assert!(fits(agent.position, HALF_SIZE));
            assert!(agent.facing.norm_squared() <= (U as u128) * (U as u128));
            if agent.velocity != Vec2::zero() {
                assert!(agent.facing.norm_squared() >= ((U - 2) as u128) * ((U - 2) as u128));
            }
        }
    }
    assert_eq!(flock.len(), 60);
}

#[test]
fn scattered_agents_rest_at_random_points_of_the_world() {
    let agents = scatter(200);
    assert_eq!(agents.len(), 200);
    for agent in &agents {
        assert!(-HALF_SIZE <= agent.position.x && agent.position.x < HALF_SIZE);
        assert!(-HALF_SIZE <= agent.position.y && agent.position.y < HALF_SIZE);
        assert_eq!(*agent, at(agent.position.x, agent.position.y));
    }
    assert!(agents.iter().any(|agent| agent.position.x != -HALF_SIZE));
    assert!(agents.iter().any(|agent| agent.position.y != -HALF_SIZE));
    assert!(agents.iter().any(|agent| agent.position != agents[0].position));
    assert!(scatter(0).is_empty());
}

#[test]
fn flock_refuses_what_is_not_well_formed() {
    assert!(Flock::from_agents(Vec::new()).is_some());
    assert!(Flock::from_agents(vec![at(0, 0), at(HALF_SIZE + 1, 0)]).is_none());
    assert!(Flock::from_agents(vec![moving(0, 0, 0, VELOCITY_LIMIT + 1)]).is_none());
    assert!(Flock::from_agents(vec![at(0, 0); MAX_AGENTS + 1]).is_none());
    assert!(Flock::scatter(MAX_AGENTS + 1).is_none());
    let flock = Flock::from_agents(vec![at(1, 2), at(3, 4)]).unwrap();
    assert_eq!(flock.len(), 2);
    assert_eq!(flock.agent(1), Some(at(3, 4)));
    assert_eq!(flock.agent(2), None);
    assert_eq!(flock.agents(), &vec![at(1, 2), at(3, 4)]);
}

#[test]
fn checks_tell_what_the_library_takes() {
    assert!(is_well_formed(&vec![at(0, 0), at(HALF_SIZE, 0)]));
    assert!(!is_well_formed(&vec![at(0, 0), at(HALF_SIZE + 1, 0)]));
    assert!(!is_well_formed(&vec![at(0, 0); MAX_AGENTS + 1]));
    assert!(Strengths { cohesion: 1, separation: -1, alignment: 1_000_000_000 }.is_valid());
    assert!(!Strengths { cohesion: 1, separation: -1, alignment: 1_000_000_001 }.is_valid());
    assert!(!Strengths { cohesion: -1_000_000_001, separation: 0, alignment: 0 }.is_valid());
}

#[test]
fn passes_of_a_tick_use_the_ranges_of_the_parameters() {
    let mut set = ParameterSet::standard();
    let agents = vec![at(0, 0), at(60 * U, 0)];
    let mut flock = Flock::from_agents(agents).unwrap();
    flock.coherence_update(&set);
    flock.separation_update(&set);
    assert_eq!(flock.agent(0).unwrap().cohesion, Vec2::new(60 * U, 0));
    assert_eq!(flock.agent(0).unwrap().separation, Vec2::zero());
    set.set(ParameterName::CoherenceRange, 50 * U);
    set.set(ParameterName::SeparationRange, 60 * U);
    flock.coherence_update(&set);
    flock.separation_update(&set);
    assert_eq!(flock.agent(0).unwrap().cohesion, Vec2::zero());
    assert_eq!(flock.agent(0).unwrap().separation, Vec2::new(-60 * U, 0));
}
