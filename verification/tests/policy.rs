use amnesia::action::{Action, DiscreteAction};
use amnesia::fixed::Fixed;
use amnesia::observation::{DiscreteObservation, Observation};
use amnesia::policy::epsilon_greedy::{EpsilonGreedyPolicy, EpsilonGreedyPolicyError};
use amnesia::policy::{best_action, greedy_actions, random_action, random_start, Greedy, Policy};
use amnesia::random_number_generator::RandomNumberGeneratorFacade;
use std::cell::Cell;

#[derive(Clone, Copy, Debug, PartialEq, Eq)]
enum Arm {
    First,
    Second,
    Third,
}

impl Action for Arm {}

impl DiscreteAction for Arm {
    fn count_spec() -> usize {
        3
    }

    fn index_spec(&self) -> usize {
        self.index()
    }

    fn from_index_spec(index: usize) -> Self {
        Self::from_index(index)
    }

    fn count() -> usize {
        3
    }

    fn index(&self) -> usize {
        match self {
            Arm::First => 0,
            Arm::Second => 1,
            Arm::Third => 2,
        }
    }

    fn from_index(index: usize) -> Self {
        [Arm::First, Arm::Second, Arm::Third][index]
    }
}

#[derive(Clone, Copy, Debug, PartialEq, Eq)]
enum Light {
    Red,
    Green,
}

impl Observation for Light {}

impl DiscreteObservation for Light {
    fn count_spec() -> usize {
        2
    }

    fn index_spec(&self) -> usize {
        self.index()
    }

    fn from_index_spec(index: usize) -> Self {
        Self::from_index(index)
    }

    fn count() -> usize {
        2
    }

    fn index(&self) -> usize {
        match self {
            Light::Red => 0,
            Light::Green => 1,
        }
    }

    fn from_index(index: usize) -> Self {
        [Light::Red, Light::Green][index]
    }
}

/// A generator that gives the draws of a script, over and over.
struct Script {
    draws: Vec<i64>,
    next: Cell<usize>,
}

impl Script {
    fn new(draws: &[i64]) -> Self {
        Script { draws: draws.to_vec(), next: Cell::new(0) }
    }

    fn taken(&self) -> usize {
        self.next.get()
    }
}

impl RandomNumberGeneratorFacade for Script {
    type Value = Fixed;

    fn random(&self) -> Fixed {
        let i = self.next.get();
        self.next.set(i + 1);
        Fixed::from_raw(self.draws[i % self.draws.len()])
    }
}

impl RandomNumberGeneratorFacade for &Script {
    type Value = Fixed;

    fn random(&self) -> Fixed {
        (*self).random()
    }
}

fn fx(raw: i64) -> Fixed {
    Fixed::from_raw(raw)
}

fn units(values: &[i64]) -> Vec<Fixed> {
    values.iter().map(|v| Fixed::from_units(*v)).collect()
}

fn policy(epsilon: i64, draws: &[i64]) -> EpsilonGreedyPolicy<Arm, Light, Script> {
    match EpsilonGreedyPolicy::new(fx(epsilon), Script::new(draws)) {
        Ok(policy) => policy,
        Err(error) => panic!("{}", error.message()),
    }
}

#[test]
fn epsilon_of_one_is_refused() {
    let result = EpsilonGreedyPolicy::<Arm, Light, Script>::new(fx(1_000_000), Script::new(&[0]));
    assert!(matches!(result, Err(EpsilonGreedyPolicyError::EpsilonOutOfRange)));
}

#[test]
fn epsilon_above_one_is_refused() {
    let result = EpsilonGreedyPolicy::<Arm, Light, Script>::new(fx(1_000_001), Script::new(&[0]));
    assert!(matches!(result, Err(EpsilonGreedyPolicyError::EpsilonOutOfRange)));
}

#[test]
fn negative_epsilon_is_refused() {
    let result = EpsilonGreedyPolicy::<Arm, Light, Script>::new(fx(-1), Script::new(&[0]));
    assert!(matches!(result, Err(EpsilonGreedyPolicyError::EpsilonOutOfRange)));
}

#[test]
fn epsilon_of_zero_and_just_below_one_are_accepted() {
    assert!(EpsilonGreedyPolicy::<Arm, Light, Script>::new(fx(0), Script::new(&[0])).is_ok());
    assert!(EpsilonGreedyPolicy::<Arm, Light, Script>::new(fx(999_999), Script::new(&[0])).is_ok());
}

#[test]
fn a_refused_policy_draws_nothing() {
    let script = Script::new(&[0]);
    let result = EpsilonGreedyPolicy::<Arm, Light, &Script>::new(fx(2_000_000), &script);
    assert!(result.is_err());
    assert_eq!(script.taken(), 0);
}

#[test]
fn the_error_says_what_is_wrong() {
    assert_eq!(
        EpsilonGreedyPolicyError::EpsilonOutOfRange.message(),
        "Epsilon must be between [0, 1)."
    );
}

#[test]
fn a_new_policy_starts_with_one_draw_for_each_observation() {
    // 0.4 * 3 = 1.2 is the second arm, 0.9 * 3 = 2.7 the third
    let script = Script::new(&[400_000, 900_000]);
    let policy = match EpsilonGreedyPolicy::<Arm, Light, &Script>::new(fx(50_000), &script) {
        Ok(policy) => policy,
        Err(error) => panic!("{}", error.message()),
    };
    assert_eq!(script.taken(), 2);
    assert_eq!(policy.action_at(&Light::Red), Arm::Second);
    assert_eq!(policy.action_at(&Light::Green), Arm::Third);
    assert_eq!(policy.exploration(), fx(50_000));
}

#[test]
fn a_draw_at_or_above_epsilon_exploits() {
    // start: Red -> First (0.0), Green -> Third (0.7); then 0.05 is not below epsilon
    let policy = policy(50_000, &[0, 700_000, 50_000, 999_999]);
    assert_eq!(policy.act(&Light::Green), Arm::Third);
    assert_eq!(policy.act(&Light::Red), Arm::First);
}

#[test]
fn a_draw_below_epsilon_explores_with_a_second_draw() {
    // start: 0.0, 0.7; then 0.049999 explores and 0.5 * 3 = 1.5 picks the second arm
    let script = Script::new(&[0, 700_000, 49_999, 500_000]);
    let policy = match EpsilonGreedyPolicy::<Arm, Light, &Script>::new(fx(50_000), &script) {
        Ok(policy) => policy,
        Err(error) => panic!("{}", error.message()),
    };
    assert_eq!(policy.act(&Light::Green), Arm::Second);
    assert_eq!(script.taken(), 4);
}

#[test]
fn exploiting_takes_one_draw() {
    let script = Script::new(&[0, 700_000, 900_000]);
    let policy = match EpsilonGreedyPolicy::<Arm, Light, &Script>::new(fx(50_000), &script) {
        Ok(policy) => policy,
        Err(error) => panic!("{}", error.message()),
    };
    assert_eq!(policy.act(&Light::Red), Arm::First);
    assert_eq!(script.taken(), 3);
}

#[test]
fn a_policy_without_exploration_always_exploits() {
    let policy = policy(0, &[999_999, 0, 0, 0, 0]);
    for _ in 0..20 {
        assert_eq!(policy.act(&Light::Red), Arm::Third);
        assert_eq!(policy.act(&Light::Green), Arm::First);
    }
}

#[test]
fn select_follows_the_two_draws() {
    let policy = policy(250_000, &[0, 700_000]);
    assert_eq!(policy.select(&Light::Green, fx(250_000), fx(0)), Arm::Third);
    assert_eq!(policy.select(&Light::Green, fx(999_999), fx(0)), Arm::Third);
    assert_eq!(policy.select(&Light::Green, fx(249_999), fx(0)), Arm::First);
    assert_eq!(policy.select(&Light::Green, fx(0), fx(333_334)), Arm::Second);
    assert_eq!(policy.select(&Light::Red, fx(0), fx(999_999)), Arm::Third);
    assert_eq!(policy.select(&Light::Red, fx(500_000), fx(999_999)), Arm::First);
}

#[test]
fn improvement_takes_the_most_valuable_action_at_every_observation() {
    let mut policy = policy(0, &[0, 0]);
    policy.policy_improvemnt(&units(&[1, 5, 3, 9, 2, 4]));
    assert_eq!(policy.action_at(&Light::Red), Arm::Second);
    assert_eq!(policy.action_at(&Light::Green), Arm::First);
    assert_eq!(policy.exploration(), fx(0));
}

#[test]
fn of_equal_values_the_first_wins() {
    let mut policy = policy(0, &[999_999, 999_999]);
    policy.policy_improvemnt(&units(&[7, 7, 7, -1, 4, 4]));
    assert_eq!(policy.action_at(&Light::Red), Arm::First);
    assert_eq!(policy.action_at(&Light::Green), Arm::Second);
}

#[test]
fn improvement_with_negative_values() {
    let mut policy = policy(0, &[0, 0]);
    policy.policy_improvemnt(&units(&[-3, -2, -1, -1, -2, -3]));
    assert_eq!(policy.action_at(&Light::Red), Arm::Third);
    assert_eq!(policy.action_at(&Light::Green), Arm::First);
}

#[test]
fn a_second_improvement_from_the_same_values_changes_nothing() {
    let values = units(&[1, 5, 5, 9, 2, 9]);
    let mut policy = policy(0, &[0, 0]);
    policy.policy_improvemnt(&values);
    let once = [policy.action_at(&Light::Red), policy.action_at(&Light::Green)];
    policy.policy_improvemnt(&values);
    let twice = [policy.action_at(&Light::Red), policy.action_at(&Light::Green)];
    assert_eq!(once, [Arm::Second, Arm::First]);
    assert_eq!(twice, once);
}

#[test]
fn improvement_at_one_observation_leaves_the_others() {
    let mut policy = policy(0, &[0, 0]);
    policy.policy_improvemnt_at(&Light::Green, &units(&[1, 5, 3, 0, 2, 4]));
    assert_eq!(policy.action_at(&Light::Red), Arm::First);
    assert_eq!(policy.action_at(&Light::Green), Arm::Third);
    policy.policy_improvemnt_at(&Light::Green, &units(&[1, 5, 3, 0, 2, 4]));
    assert_eq!(policy.action_at(&Light::Red), Arm::First);
    assert_eq!(policy.action_at(&Light::Green), Arm::Third);
    policy.policy_improvemnt_at(&Light::Red, &units(&[1, 5, 3, 0, 2, 4]));
    assert_eq!(policy.action_at(&Light::Red), Arm::Second);
}

#[test]
fn best_action_reads_one_row() {
    let values = units(&[1, 5, 3, 9, 2, 4]);
    assert_eq!(best_action::<Arm, Fixed>(&values, 0), Arm::Second);
    assert_eq!(best_action::<Arm, Fixed>(&values, 1), Arm::First);
    let level = units(&[2, 2, 2, 0, 0, 1]);
    assert_eq!(best_action::<Arm, Fixed>(&level, 0), Arm::First);
    assert_eq!(best_action::<Arm, Fixed>(&level, 1), Arm::Third);
}

#[test]
fn greedy_actions_reads_every_row() {
    let actions: Vec<Arm> = greedy_actions::<Arm, Light, Fixed>(&units(&[0, 0, 1, 3, 3, 2]));
    assert_eq!(actions, vec![Arm::Third, Arm::First]);
}

#[test]
fn a_draw_selects_the_action_it_scales_to() {
    assert_eq!(random_action::<Arm, Fixed>(fx(0)), Arm::First);
    assert_eq!(random_action::<Arm, Fixed>(fx(333_333)), Arm::First);
    assert_eq!(random_action::<Arm, Fixed>(fx(333_334)), Arm::Second);
    assert_eq!(random_action::<Arm, Fixed>(fx(666_666)), Arm::Second);
    assert_eq!(random_action::<Arm, Fixed>(fx(666_667)), Arm::Third);
    assert_eq!(random_action::<Arm, Fixed>(fx(999_999)), Arm::Third);
}

#[test]
fn a_random_start_draws_once_for_each_observation() {
    let script = Script::new(&[999_999, 0, 500_000]);
    let actions: Vec<Arm> = random_start::<Arm, Light, Script>(&script);
    assert_eq!(actions, vec![Arm::Third, Arm::First]);
    assert_eq!(script.taken(), 2);
}

#[test]
fn the_greedy_policy_takes_what_it_holds() {
    let script = Script::new(&[700_000, 100_000]);
    let mut policy: Greedy<Arm, Light, Fixed> = Greedy::new(&script);
    assert_eq!(policy.act(&Light::Red), Arm::Third);
    assert_eq!(policy.act(&Light::Green), Arm::First);
    assert_eq!(script.taken(), 2);
    policy.policy_improvemnt(&units(&[0, 8, 0, 4, 4, 5]));
    assert_eq!(policy.act(&Light::Red), Arm::Second);
    assert_eq!(policy.act(&Light::Green), Arm::Third);
    policy.policy_improvemnt_at(&Light::Red, &units(&[9, 8, 0, 6, 4, 5]));
    assert_eq!(policy.act(&Light::Red), Arm::First);
    assert_eq!(policy.act(&Light::Green), Arm::Third);
    assert_eq!(script.taken(), 2);
}
