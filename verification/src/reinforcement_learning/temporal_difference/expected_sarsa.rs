//! Expected SARSA: the estimate of what follows is the mean of the values of
//! the actions at the observation that follows, each weighted with the
//! probability that the agent takes it.
use crate::action::DiscreteAction;
use crate::agent::{Agent, DiscreteAgent};
use crate::environment::EpisodicEnvironment;
use crate::observation::DiscreteObservation;
use crate::reinforcement_learning::table_len;
use crate::reinforcement_learning::temporal_difference::{
    is_temporal_difference_estimate, temporal_difference_policy_search, TemporalDifference,
    TemporalDifferenceConfiguration, TemporalDifferenceEpisode,
};
use crate::policy::action_row;
use crate::reinforcement_learning::{lemma_row_in_table, Estimate, PolicyEstimator};
use crate::scalar::Scalar;
use std::marker::PhantomData;
use vstd::prelude::*;

verus! {

/// The Expected SARSA estimator: temporal-difference learning from the
/// expectation over the agent's next action.
pub struct ExpectedSARSA<E: EpisodicEnvironment> {
    episode_limit: usize,
    learning_rate: <E::Agent as Agent>::Value,
    discount_factor: <E::Agent as Agent>::Value,
    phantom_env: PhantomData<E>,
}

/// The sum of the first `terms` products of a weight and a value, added up from
/// zero in the order of the sequences.
pub open spec fn weighted_sum<V: Scalar>(weights: Seq<V>, values: Seq<V>, terms: int) -> V
    decreases terms,
{
    if terms <= 0 {
        V::zero_spec()
    } else {
        weighted_sum(weights, values, terms - 1).plus_spec(
            weights[terms - 1].times_spec(values[terms - 1]),
        )
    }
}

/// The mean of the values of the actions at the observation that follows,
/// weighted with `probabilities`, one for each action.
pub open spec fn expected_sarsa_bootstrap<AC: DiscreteAction, S: DiscreteObservation, V: Scalar>(
    action_value: Seq<V>,
    next_observation: S,
    probabilities: Seq<V>,
) -> V {
    weighted_sum(
        probabilities,
        action_row(action_value, next_observation.index_spec() as int, AC::count_spec() as int),
        AC::count_spec() as int,
    )
}

/// The mean of the values in the row of `observation`, weighted with
/// `probabilities`, one for each action.
pub fn expected_value<AC: DiscreteAction, S: DiscreteObservation, V: Scalar>(
    probabilities: &Vec<V>,
    action_value: &Vec<V>,
    observation: &S,
) -> (expectation: V)
    requires
        table_len::<S, AC>() <= usize::MAX,
        action_value@.len() == table_len::<S, AC>(),
        probabilities@.len() == AC::count_spec(),
    ensures
        expectation == expected_sarsa_bootstrap::<AC, S, V>(
            action_value@,
            *observation,
            probabilities@,
        ),
{
    let actions = AC::count();
    let o = observation.index();
    proof {
        lemma_row_in_table(o as int, S::count_spec() as int, actions as int);
    }
    let len = action_value.len();
    let base = o * actions;
    let ghost row = action_row(action_value@, o as int, actions as int);
    let mut expectation = V::zero();
    let mut j: usize = 0;
    while j < actions
        invariant
            0 <= j <= actions,
            actions == AC::count_spec(),
            probabilities@.len() == actions,
            base == o * actions,
            base + actions <= len,
            len == action_value@.len(),
            row == action_row(action_value@, o as int, actions as int),
            expectation == weighted_sum(probabilities@, row, j as int),
        decreases actions - j,
    {
        expectation = expectation.plus(probabilities[j].times(action_value[base + j]));
        j = j + 1;
    }
    expectation
}

impl<E: EpisodicEnvironment> ExpectedSARSA<E> {
    /// The step size: how far a value moves towards its target.
    pub closed spec fn learning_rate(&self) -> <E::Agent as Agent>::Value {
        self.learning_rate
    }

    /// The factor by which the estimate of what follows counts less.
    pub closed spec fn discount_factor(&self) -> <E::Agent as Agent>::Value {
        self.discount_factor
    }

    /// The largest number of episodes to run.
    pub closed spec fn episodes(&self) -> usize {
        self.episode_limit
    }

    pub fn new(
        episode_limit: usize,
        alpha: <E::Agent as Agent>::Value,
        discount_factor: <E::Agent as Agent>::Value,
    ) -> (estimator: Self)
        ensures
            estimator.episodes() == episode_limit,
            estimator.learning_rate() == alpha,
            estimator.discount_factor() == discount_factor,
    {
        Self { episode_limit, learning_rate: alpha, discount_factor, phantom_env: PhantomData }
    }
}

impl<
    AC: DiscreteAction,
    S: DiscreteObservation,
    V: Scalar,
    AG: DiscreteAgent<AC, S> + Agent<Action = AC, Observation = S, Value = V>,
    E: EpisodicEnvironment<Agent = AG>,
> TemporalDifference<AC, S, V, AG> for ExpectedSARSA<E> {
    open spec fn is_bootstrap(
        &self,
        action_value: Seq<V>,
        next_step: Option<(S, AC)>,
        bootstrap: V,
    ) -> bool {
        match next_step {
            Some((next_state, _next_action)) => exists|probabilities: Seq<V>|
                probabilities.len() == AC::count_spec() && bootstrap
                    == #[trigger] expected_sarsa_bootstrap::<AC, S, V>(
                    action_value,
                    next_state,
                    probabilities,
                ),
            None => bootstrap == V::zero_spec(),
        }
    }

    fn algorithm_specific_evaluation(
        &self,
        agent: &AG,
        action_value: &Vec<V>,
        next_step: Option<(S, AC)>,
    ) -> (bootstrap: V) {
        match next_step {
            Some((next_state, _next_action)) => {
                let actions = AC::count();
                let mut probabilities: Vec<V> = Vec::new();
                let mut j: usize = 0;
                while j < actions
                    invariant
                        0 <= j <= actions,
                        actions == AC::count_spec(),
                        probabilities@.len() == j,
                    decreases actions - j,
                {
                    let action = AC::from_index(j);
                    probabilities.push(agent.action_probability(&action, &next_state));
                    j = j + 1;
                }
                let expectation = expected_value::<AC, S, V>(
                    &probabilities,
                    action_value,
                    &next_state,
                );
                expectation
            },
            None => V::zero(),
        }
    }
}

impl<
    AC: DiscreteAction,
    S: DiscreteObservation,
    V: Scalar,
    AG: DiscreteAgent<AC, S> + Agent<Action = AC, Observation = S, Value = V>,
    E: EpisodicEnvironment<Agent = AG>,
> PolicyEstimator for ExpectedSARSA<E> {
    type Environment = E;

    open spec fn episode_limit(&self) -> usize {
        self.episodes()
    }

    fn policy_search(self, environment: &mut E, agent: &mut AG) -> (estimate: Estimate<V>)
        ensures
            exists|episodes: Seq<TemporalDifferenceEpisode<S, AC, V>>| #[trigger]
                is_temporal_difference_estimate::<AC, S, V, AG, Self>(
                    self,
                    1,
                    self.learning_rate(),
                    self.discount_factor(),
                    estimate,
                    episodes,
                ),
    {
        let configuration = TemporalDifferenceConfiguration {
            episode_limit: self.episode_limit,
            temporal_difference_step: 1,
            learning_rate: self.learning_rate,
            discount_factor: self.discount_factor,
        };
        let estimate = temporal_difference_policy_search::<AC, S, V, AG, E, Self>(
            &self,
            environment,
            agent,
            &configuration,
        );
        proof {
            let played = choose|played: Seq<TemporalDifferenceEpisode<S, AC, V>>|
                is_temporal_difference_estimate::<AC, S, V, AG, Self>(
                    self,
                    1,
                    configuration.learning_rate,
                    configuration.discount_factor,
                    estimate,
                    played,
                );
            assert(is_temporal_difference_estimate::<AC, S, V, AG, Self>(
                self,
                1,
                self.learning_rate(),
                self.discount_factor(),
                estimate,
                played,
            ));
        }
        estimate
    }
}

} // verus!
