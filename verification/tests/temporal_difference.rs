use amnesia::action::{Action, DiscreteAction};
use amnesia::agent::{Agent, DiscreteAgent};
use amnesia::environment::{Environment, EpisodicEnvironment};
use amnesia::fixed::Fixed;
use amnesia::observation::{DiscreteObservation, Observation};
use amnesia::reinforcement_learning::temporal_difference::expected_sarsa::expected_value;
use amnesia::reinforcement_learning::temporal_difference::{
    slide_window, step_pair, temporal_difference_episode, temporal_difference_policy_evaluation,
    temporal_difference_policy_search, temporal_difference_update, ExpectedSARSA, QLearning,
    TemporalDifference, TemporalDifferenceConfiguration, SARSA,
};
use amnesia::reinforcement_learning::PolicyEstimator;
use amnesia::scalar::Scalar;
use amnesia::trajectory::Trajectory;
use std::cell::Cell;
use std::collections::VecDeque;

#[derive(Clone, Copy, Debug, PartialEq, Eq)]
enum Turn {
    Left,
    Right,
}

impl Action for Turn {}

impl DiscreteAction for Turn {
    fn count_spec() -> usize {
        2
    }

    fn index_spec(&self) -> usize {
        self.index()
    }

    fn from_index_spec(index: usize) -> Self {
        Self::from_index(index)
    }

    fn count() -> usize {
        2
    }

    fn index(&self) -> usize {
        match self {
            Turn::Left => 0,
            Turn::Right => 1,
        }
    }

    fn from_index(index: usize) -> Self {
        [Turn::Left, Turn::Right][index]
    }
}

#[derive(Clone, Copy, Debug, PartialEq, Eq)]
enum Room {
    Hall,
    Stairs,
    Attic,
}

impl Observation for Room {}

impl DiscreteObservation for Room {
    fn count_spec() -> usize {
        3
    }

    fn index_spec(&self) -> usize {
        self.index()
    }

    fn from_index_spec(index: usize) -> Self {
        Self::from_index(index)
    }

    fn count() -> usize {
        3
    }

    fn index(&self) -> usize {
        match self {
            Room::Hall => 0,
            Room::Stairs => 1,
            Room::Attic => 2,
        }
    }

    fn from_index(index: usize) -> Self {
        [Room::Hall, Room::Stairs, Room::Attic][index]
    }
}

/// An agent that acts by a script, Left once the script is used up, and that
/// takes Left and Right with fixed probabilities.
struct Pilot {
    script: Vec<Turn>,
    acted: Cell<usize>,
    probabilities: [i64; 2],
    improved_at: Vec<Room>,
}

impl Pilot {
    fn new(script: &[Turn]) -> Self {
        Pilot {
            script: script.to_vec(),
            acted: Cell::new(0),
            probabilities: [250_000, 750_000],
            improved_at: Vec::new(),
        }
    }
}

impl Agent for Pilot {
    type Action = Turn;
    type Observation = Room;
    type Value = Fixed;

    fn act(&self, _observation: &Room) -> Turn {
        let i = self.acted.get();
        self.acted.set(i + 1);
        self.script.get(i).copied().unwrap_or(Turn::Left)
    }

    fn policy_improvemnt(&mut self, _action_values: &Vec<Fixed>) {}

    fn policy_improvemnt_at(&mut self, observation: &Room, _action_values: &Vec<Fixed>) {
        self.improved_at.push(*observation);
    }
}

impl DiscreteAgent<Turn, Room> for Pilot {
    fn action_probability(&self, action: &Turn, _observation: &Room) -> Fixed {
        Fixed::from_raw(self.probabilities[action.index()])
    }
}

/// An environment that shows a fixed row of rooms and pays a fixed row of
/// rewards, whatever the agent does.
struct Tour {
    rooms: Vec<Room>,
    rewards: Vec<i64>,
    at: usize,
}

impl Tour {
    fn new(rooms: &[Room], rewards: &[i64]) -> Self {
        Tour { rooms: rooms.to_vec(), rewards: rewards.to_vec(), at: 0 }
    }
}

impl Environment for Tour {
    type Agent = Pilot;

    fn get_observation(&mut self, _agent: &Pilot) -> Option<Room> {
        self.rooms.get(self.at).copied()
    }

    fn receive_action(&mut self, _agent: &Pilot, _action: &Turn) -> Fixed {
        self.at += 1;
        Fixed::from_units(self.rewards[self.at - 1])
    }
}

impl EpisodicEnvironment for Tour {
    fn reset_environment(&mut self) {
        self.at = 0;
    }

    fn final_observation(&self, _agent: &Pilot) -> Room {
        Room::Attic
    }
}

fn fx(raw: i64) -> Fixed {
    Fixed::from_raw(raw)
}

fn units(values: &[i64]) -> Vec<Fixed> {
    values.iter().map(|v| Fixed::from_units(*v)).collect()
}

fn raw(values: &[Fixed]) -> Vec<i64> {
    values.iter().map(|v| v.raw()).collect()
}

fn step(observation: Room, action: Turn, reward: i64) -> Trajectory<Room, Turn, Fixed> {
    Trajectory::Step { observation, action, reward: Fixed::from_units(reward) }
}

fn tour() -> Tour {
    Tour::new(&[Room::Hall, Room::Stairs, Room::Hall], &[1, 2, 4])
}

fn configuration(
    episodes: usize,
    lookahead: usize,
    rate: i64,
    discount: i64,
) -> TemporalDifferenceConfiguration<Fixed> {
    TemporalDifferenceConfiguration {
        episode_limit: episodes,
        temporal_difference_step: lookahead,
        learning_rate: fx(rate),
        discount_factor: fx(discount),
    }
}

#[test]
fn an_update_moves_the_value_towards_its_target() {
    let mut table = units(&[0, 2, 0]);
    // 2 + 0.5 * (1 + 0.5 * 4 - 2) = 2.5, changed by 0.5
    let variation = temporal_difference_update(
        &mut table,
        1,
        Fixed::from_units(1),
        Fixed::from_units(4),
        fx(500_000),
        fx(500_000),
    );
    assert_eq!(raw(&table), vec![0, 2_500_000, 0]);
    assert_eq!(variation, fx(250_000));
}

#[test]
fn an_update_with_a_rate_of_one_jumps_to_the_target() {
    let mut table = units(&[7]);
    // 7 + 1 * (-2 + 0.9 * 10 - 7) = 7
    let variation = temporal_difference_update(
        &mut table,
        0,
        Fixed::from_units(-2),
        Fixed::from_units(10),
        Fixed::one(),
        fx(900_000),
    );
    assert_eq!(raw(&table), vec![7_000_000]);
    assert_eq!(variation, Fixed::zero());
    // 7 + 1 * (3 + 0.9 * 0 - 7) = 3
    let variation = temporal_difference_update(
        &mut table,
        0,
        Fixed::from_units(3),
        Fixed::zero(),
        Fixed::one(),
        fx(900_000),
    );
    assert_eq!(raw(&table), vec![3_000_000]);
    assert_eq!(variation, Fixed::from_units(16));
}

#[test]
fn an_update_with_a_rate_of_zero_changes_nothing() {
    let mut table = units(&[7, 8]);
    let variation = temporal_difference_update(
        &mut table,
        1,
        Fixed::from_units(100),
        Fixed::from_units(100),
        Fixed::zero(),
        Fixed::one(),
    );
    assert_eq!(raw(&table), vec![7_000_000, 8_000_000]);
    assert_eq!(variation, Fixed::zero());
}

#[test]
fn nothing_follows_the_last_step() {
    let agent = Pilot::new(&[]);
    let table = units(&[1, 2, 3, 4, 5, 6]);
    let q_learning = QLearning::<Tour>::new(1, Fixed::one(), Fixed::one());
    let sarsa = SARSA::<Tour>::new(1, Fixed::one(), Fixed::one());
    let expected_sarsa = ExpectedSARSA::<Tour>::new(1, Fixed::one(), Fixed::one());
    assert_eq!(q_learning.algorithm_specific_evaluation(&agent, &table, None), Fixed::zero());
    assert_eq!(sarsa.algorithm_specific_evaluation(&agent, &table, None), Fixed::zero());
    assert_eq!(expected_sarsa.algorithm_specific_evaluation(&agent, &table, None), Fixed::zero());
}

#[test]
fn q_learning_takes_the_best_value_of_what_follows() {
    let agent = Pilot::new(&[]);
    let rule = QLearning::<Tour>::new(1, Fixed::one(), Fixed::one());
    let table = units(&[9, 8, 1, 5, -4, -6]);
    assert_eq!(
        rule.algorithm_specific_evaluation(&agent, &table, Some((Room::Stairs, Turn::Left))),
        Fixed::from_units(5)
    );
    assert_eq!(
        rule.algorithm_specific_evaluation(&agent, &table, Some((Room::Stairs, Turn::Right))),
        Fixed::from_units(5)
    );
    assert_eq!(
        rule.algorithm_specific_evaluation(&agent, &table, Some((Room::Hall, Turn::Right))),
        Fixed::from_units(9)
    );
    assert_eq!(
        rule.algorithm_specific_evaluation(&agent, &table, Some((Room::Attic, Turn::Right))),
        Fixed::from_units(-4)
    );
}

#[test]
fn sarsa_takes_the_value_of_the_action_taken_next() {
    let agent = Pilot::new(&[]);
    let rule = SARSA::<Tour>::new(1, Fixed::one(), Fixed::one());
    let table = units(&[9, 8, 1, 5, -4, -6]);
    assert_eq!(
        rule.algorithm_specific_evaluation(&agent, &table, Some((Room::Stairs, Turn::Left))),
        Fixed::from_units(1)
    );
    assert_eq!(
        rule.algorithm_specific_evaluation(&agent, &table, Some((Room::Stairs, Turn::Right))),
        Fixed::from_units(5)
    );
    assert_eq!(
        rule.algorithm_specific_evaluation(&agent, &table, Some((Room::Attic, Turn::Right))),
        Fixed::from_units(-6)
    );
}

#[test]
fn expected_sarsa_weighs_the_values_with_the_agents_probabilities() {
    let agent = Pilot::new(&[]);
    let rule = ExpectedSARSA::<Tour>::new(1, Fixed::one(), Fixed::one());
    let table = units(&[9, 8, 1, 5, -4, -6]);
    // 0.25 * 1 + 0.75 * 5 = 4
    assert_eq!(
        rule.algorithm_specific_evaluation(&agent, &table, Some((Room::Stairs, Turn::Left))),
        Fixed::from_units(4)
    );
    // 0.25 * -4 + 0.75 * -6 = -5.5
    assert_eq!(
        rule.algorithm_specific_evaluation(&agent, &table, Some((Room::Attic, Turn::Left))),
        fx(-5_500_000)
    );
}

#[test]
fn the_expected_value_is_the_weighted_sum_of_a_row() {
    let table = units(&[9, 8, 1, 5, -4, -6]);
    let even = vec![fx(500_000), fx(500_000)];
    assert_eq!(expected_value::<Turn, Room, Fixed>(&even, &table, &Room::Hall), fx(8_500_000));
    assert_eq!(expected_value::<Turn, Room, Fixed>(&even, &table, &Room::Stairs), fx(3_000_000));
    let thirds = vec![fx(333_333), fx(666_666)];
    // 0.333333 * 1 + 0.666666 * 5 = 0.333333 + 3.333330
    assert_eq!(expected_value::<Turn, Room, Fixed>(&thirds, &table, &Room::Stairs), fx(3_666_663));
}

#[test]
fn a_greedy_agent_makes_the_three_estimates_agree() {
    let rule = QLearning::<Tour>::new(1, Fixed::one(), Fixed::one());
    let sarsa = SARSA::<Tour>::new(1, Fixed::one(), Fixed::one());
    let expected_sarsa = ExpectedSARSA::<Tour>::new(1, Fixed::one(), Fixed::one());
    let table = units(&[9, 8, 1, 5, 6, 6]);
    let best = [Turn::Left, Turn::Right, Turn::Left];
    for (o, room) in [Room::Hall, Room::Stairs, Room::Attic].iter().enumerate() {
        let mut agent = Pilot::new(&[]);
        agent.probabilities = if best[o] == Turn::Left { [1_000_000, 0] } else { [0, 1_000_000] };
        let q = rule.algorithm_specific_evaluation(&agent, &table, Some((*room, best[o])));
        assert_eq!(q, table[2 * o + best[o].index()]);
        assert_eq!(sarsa.algorithm_specific_evaluation(&agent, &table, Some((*room, best[o]))), q);
        assert_eq!(
            expected_sarsa.algorithm_specific_evaluation(&agent, &table, Some((*room, best[o]))),
            q
        );
    }
}

#[test]
fn an_evaluation_updates_the_pair_and_improves_the_policy_there() {
    let rule = SARSA::<Tour>::new(1, fx(500_000), fx(500_000));
    let mut agent = Pilot::new(&[]);
    let mut table = units(&[0, 0, 2, 0, 4, 8]);
    // 2 + 0.5 * (1 + 0.5 * 8 - 2) = 3.5, changed by 1.5
    let variation = temporal_difference_policy_evaluation(
        &rule,
        &mut agent,
        &mut table,
        &Room::Stairs,
        &Turn::Left,
        Fixed::from_units(1),
        Some((Room::Attic, Turn::Right)),
        &configuration(1, 1, 500_000, 500_000),
    );
    assert_eq!(variation, fx(2_250_000));
    assert_eq!(raw(&table), vec![0, 0, 3_500_000, 0, 4_000_000, 8_000_000]);
    assert_eq!(agent.improved_at, vec![Room::Stairs]);
}

#[test]
fn an_evaluation_of_the_last_step_learns_from_the_reward_alone() {
    let rule = QLearning::<Tour>::new(1, fx(500_000), fx(500_000));
    let mut agent = Pilot::new(&[]);
    let mut table = units(&[0, 0, 2, 0, 4, 8]);
    // 8 + 0.5 * (1 + 0.5 * 0 - 8) = 4.5, changed by 3.5
    let variation = temporal_difference_policy_evaluation(
        &rule,
        &mut agent,
        &mut table,
        &Room::Attic,
        &Turn::Right,
        Fixed::from_units(1),
        None,
        &configuration(1, 1, 500_000, 500_000),
    );
    assert_eq!(variation, fx(12_250_000));
    assert_eq!(raw(&table), vec![0, 0, 2_000_000, 0, 4_000_000, 4_500_000]);
    assert_eq!(agent.improved_at, vec![Room::Attic]);
}

#[test]
fn a_step_is_read_as_its_pair() {
    assert_eq!(step_pair(&step(Room::Stairs, Turn::Right, 3)), (Room::Stairs, Turn::Right));
}

#[test]
fn a_window_of_one_gives_up_each_step_for_the_next() {
    let mut window = VecDeque::new();
    assert_eq!(slide_window(&mut window, 1, step(Room::Hall, Turn::Left, 1)), None);
    assert_eq!(window, VecDeque::from(vec![step(Room::Hall, Turn::Left, 1)]));
    assert_eq!(
        slide_window(&mut window, 1, step(Room::Stairs, Turn::Right, 2)),
        Some(step(Room::Hall, Turn::Left, 1))
    );
    assert_eq!(window, VecDeque::from(vec![step(Room::Stairs, Turn::Right, 2)]));
}

#[test]
fn a_window_of_two_fills_before_it_gives_up_a_step() {
    let mut window = VecDeque::new();
    assert_eq!(slide_window(&mut window, 2, step(Room::Hall, Turn::Left, 1)), None);
    assert_eq!(slide_window(&mut window, 2, step(Room::Stairs, Turn::Right, 2)), None);
    assert_eq!(
        slide_window(&mut window, 2, step(Room::Attic, Turn::Left, 3)),
        Some(step(Room::Hall, Turn::Left, 1))
    );
    assert_eq!(
        window,
        VecDeque::from(vec![step(Room::Stairs, Turn::Right, 2), step(Room::Attic, Turn::Left, 3)])
    );
}

#[test]
fn an_episode_learns_on_the_way() {
    let mut env = tour();
    let mut agent = Pilot::new(&[Turn::Left, Turn::Right, Turn::Left]);
    let rule = QLearning::<Tour>::new(1, fx(500_000), Fixed::one());
    let mut table = units(&[0, 0, 0, 6, 0, 0]);
    let variation = temporal_difference_episode(
        &rule,
        &mut env,
        &mut agent,
        &mut table,
        &configuration(1, 1, 500_000, 1_000_000),
    );
    // hall: 0 + 0.5 * (1 + 6 - 0) = 3.5; stairs-right: 6 + 0.5 * (2 + 3.5 - 6) = 5.75;
    // hall at the end: 3.5 + 0.5 * (4 + 0 - 3.5) = 3.75
    assert_eq!(raw(&table), vec![3_750_000, 0, 0, 5_750_000, 0, 0]);
    // 3.5 * 3.5 + 0.25 * 0.25 + 0.25 * 0.25
    assert_eq!(variation, fx(12_250_000 + 62_500 + 62_500));
    assert_eq!(agent.improved_at, vec![Room::Hall, Room::Stairs, Room::Hall]);
    assert_eq!(agent.acted.get(), 3);
}

#[test]
fn an_episode_that_is_over_at_once_learns_nothing() {
    let mut env = Tour::new(&[], &[]);
    let mut agent = Pilot::new(&[]);
    let rule = SARSA::<Tour>::new(1, fx(500_000), Fixed::one());
    let mut table = units(&[1, 2, 3, 4, 5, 6]);
    let variation = temporal_difference_episode(
        &rule,
        &mut env,
        &mut agent,
        &mut table,
        &configuration(1, 1, 500_000, 1_000_000),
    );
    assert_eq!(table, units(&[1, 2, 3, 4, 5, 6]));
    assert_eq!(variation, Fixed::zero());
    assert!(agent.improved_at.is_empty());
}

#[test]
fn a_temporal_difference_search_without_episodes_learns_nothing() {
    let mut env = tour();
    let mut agent = Pilot::new(&[]);
    let estimate =
        QLearning::<Tour>::new(0, Fixed::one(), Fixed::one()).policy_search(&mut env, &mut agent);
    assert_eq!(estimate.episodes, 0);
    assert!(!estimate.converged);
    assert_eq!(raw(&estimate.action_values), vec![0; 6]);
    assert!(estimate.visit_count.is_empty());
    assert_eq!(agent.acted.get(), 0);
}

#[test]
fn one_episode_of_sarsa() {
    let mut env = tour();
    let mut agent = Pilot::new(&[]);
    let estimate =
        SARSA::<Tour>::new(1, Fixed::one(), Fixed::one()).policy_search(&mut env, &mut agent);
    // hall: 0 + (1 + 0) = 1; stairs: 0 + (2 + 1) = 3; hall at the end: 1 + (4 + 0 - 1) = 4
    assert_eq!(estimate.episodes, 1);
    assert_eq!(raw(&estimate.action_values), vec![4_000_000, 0, 3_000_000, 0, 0, 0]);
    assert_eq!(agent.improved_at, vec![Room::Hall, Room::Stairs, Room::Hall]);
}

#[test]
fn q_learning_looks_at_the_best_next_action_and_sarsa_at_the_one_taken() {
    let script = [Turn::Left, Turn::Right, Turn::Left];
    // first episode, both: hall 1, stairs-right 2 + 1 = 3, hall at the end 4
    let mut env = tour();
    let mut agent = Pilot::new(&script);
    let estimate =
        QLearning::<Tour>::new(1, Fixed::one(), Fixed::one()).policy_search(&mut env, &mut agent);
    assert_eq!(raw(&estimate.action_values), vec![4_000_000, 0, 0, 3_000_000, 0, 0]);
    // second episode, all left
    // q-learning: hall 4 + (1 + 3 - 4) = 4, stairs-left 0 + (2 + 4) = 6, hall at the end 4
    let mut agent = Pilot::new(&script);
    let estimate =
        QLearning::<Tour>::new(2, Fixed::one(), Fixed::one()).policy_search(&mut env, &mut agent);
    assert_eq!(raw(&estimate.action_values), vec![4_000_000, 0, 6_000_000, 3_000_000, 0, 0]);
    // sarsa: hall 4 + (1 + 0 - 4) = 1, stairs-left 0 + (2 + 1) = 3, hall at the end 4
    let mut agent = Pilot::new(&script);
    let estimate =
        SARSA::<Tour>::new(2, Fixed::one(), Fixed::one()).policy_search(&mut env, &mut agent);
    assert_eq!(raw(&estimate.action_values), vec![4_000_000, 0, 3_000_000, 3_000_000, 0, 0]);
    // expected sarsa, a quarter left and three quarters right:
    // first episode: hall 1, stairs-right 2 + 0.25 * 1 = 2.25, hall at the end 4
    // second episode: hall 4 + (1 + 0.75 * 2.25 - 4) = 2.6875,
    // stairs-left 0 + (2 + 0.25 * 2.6875) = 2.671875, hall at the end 4
    let mut agent = Pilot::new(&script);
    let estimate =
        ExpectedSARSA::<Tour>::new(2, Fixed::one(), Fixed::one())
            .policy_search(&mut env, &mut agent);
    assert_eq!(raw(&estimate.action_values), vec![4_000_000, 0, 2_671_875, 2_250_000, 0, 0]);
}

#[test]
fn a_search_uses_the_learning_rate_and_the_discount() {
    let mut env = Tour::new(&[Room::Stairs, Room::Attic], &[4, 8]);
    let mut agent = Pilot::new(&[Turn::Right, Turn::Right]);
    let estimate =
        SARSA::<Tour>::new(2, fx(500_000), fx(500_000)).policy_search(&mut env, &mut agent);
    // first episode, both right: stairs 0.5 * 4 = 2, attic 0.5 * 8 = 4
    // second episode, both left: stairs-left 0.5 * (4 + 0.5 * 0) = 2, attic-left 0.5 * 8 = 4
    assert_eq!(
        raw(&estimate.action_values),
        vec![0, 0, 2_000_000, 2_000_000, 4_000_000, 4_000_000]
    );
    let mut agent = Pilot::new(&[]);
    let estimate =
        SARSA::<Tour>::new(2, fx(500_000), fx(500_000)).policy_search(&mut env, &mut agent);
    // all left: stairs 2, attic 4;
    // then stairs 2 + 0.5 * (4 + 0.5 * 4 - 2) = 4, attic 4 + 0.5 * (8 - 4) = 6
    assert_eq!(raw(&estimate.action_values), vec![0, 0, 4_000_000, 0, 6_000_000, 0]);
}

#[test]
fn a_window_of_two_steps_learns_from_the_step_in_front_of_it() {
    let mut env = tour();
    let mut agent = Pilot::new(&[]);
    let rule = SARSA::<Tour>::new(1, Fixed::one(), Fixed::one());
    let estimate = temporal_difference_policy_search(
        &rule,
        &mut env,
        &mut agent,
        &configuration(1, 2, 1_000_000, 1_000_000),
    );
    // hall: 0 + (1 + 0) = 1 when the third step comes; then nothing follows:
    // stairs 0 + 2 = 2, hall 1 + (4 - 1) = 4
    assert_eq!(raw(&estimate.action_values), vec![4_000_000, 0, 2_000_000, 0, 0, 0]);
    assert_eq!(agent.improved_at, vec![Room::Hall, Room::Stairs, Room::Hall]);
}

#[test]
fn a_window_longer_than_the_episode_learns_at_its_end() {
    let mut env = tour();
    let mut agent = Pilot::new(&[]);
    let rule = QLearning::<Tour>::new(1, Fixed::one(), Fixed::one());
    let estimate = temporal_difference_policy_search(
        &rule,
        &mut env,
        &mut agent,
        &configuration(1, 7, 1_000_000, 1_000_000),
    );
    // nothing follows any step: hall 1, stairs 2, hall 1 + (4 - 1) = 4
    assert_eq!(raw(&estimate.action_values), vec![4_000_000, 0, 2_000_000, 0, 0, 0]);
}

#[test]
fn a_temporal_difference_search_stops_at_the_plateau() {
    let mut env = Tour::new(&[Room::Hall], &[3]);
    let mut agent = Pilot::new(&[]);
    let estimate =
        QLearning::<Tour>::new(1000, Fixed::one(), Fixed::one())
            .policy_search(&mut env, &mut agent);
    assert_eq!(estimate.episodes, 6);
    assert!(estimate.converged);
    assert!(estimate.variations.has_converged());
    assert_eq!(raw(&estimate.action_values), vec![3_000_000, 0, 0, 0, 0, 0]);
}

#[test]
fn a_temporal_difference_search_stops_at_the_episode_limit() {
    let mut env = Tour::new(&[Room::Hall], &[3]);
    let mut agent = Pilot::new(&[]);
    let estimate =
        QLearning::<Tour>::new(3, Fixed::one(), Fixed::one()).policy_search(&mut env, &mut agent);
    assert_eq!(estimate.episodes, 3);
    assert!(!estimate.converged);
}

#[test]
fn episodes_that_are_over_at_once_leave_the_table_alone() {
    let mut env = Tour::new(&[], &[]);
    let mut agent = Pilot::new(&[]);
    let estimate =
        QLearning::<Tour>::new(50, Fixed::one(), Fixed::one()).policy_search(&mut env, &mut agent);
    assert_eq!(raw(&estimate.action_values), vec![0; 6]);
    assert_eq!(estimate.episodes, 5);
    assert!(estimate.converged);
    let estimate =
        SARSA::<Tour>::new(50, Fixed::one(), Fixed::one()).policy_search(&mut env, &mut agent);
    assert_eq!(raw(&estimate.action_values), vec![0; 6]);
    let estimate =
        ExpectedSARSA::<Tour>::new(50, Fixed::one(), Fixed::one())
            .policy_search(&mut env, &mut agent);
    assert_eq!(raw(&estimate.action_values), vec![0; 6]);
    assert!(agent.improved_at.is_empty());
}
