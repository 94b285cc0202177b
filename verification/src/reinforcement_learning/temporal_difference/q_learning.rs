//! Q-learning: the estimate of what follows is the value of the best action at
//! the observation that follows, whatever action was taken there.
use crate::action::DiscreteAction;
use crate::agent::Agent;
use crate::environment::EpisodicEnvironment;
use crate::observation::DiscreteObservation;
use crate::policy::{action_row, best_action, first_maximum};
use crate::reinforcement_learning::temporal_difference::{
    is_temporal_difference_estimate, temporal_difference_policy_search, TemporalDifference,
    TemporalDifferenceConfiguration, TemporalDifferenceEpisode,
};
use crate::reinforcement_learning::{
    lemma_row_in_table, tabular_index, Estimate, PolicyEstimator,
};
use crate::scalar::Scalar;
use std::marker::PhantomData;
use vstd::prelude::*;

verus! {

/// The Q-learning estimator: off-policy temporal-difference learning.
pub struct QLearning<E: EpisodicEnvironment> {
    episode_limit: usize,
    learning_rate: <E::Agent as Agent>::Value,
    discount_factor: <E::Agent as Agent>::Value,
    phantom_env: PhantomData<E>,
}

/// The largest value of an action at the observation that follows.
pub open spec fn q_learning_bootstrap<AC: DiscreteAction, S: DiscreteObservation, V: Scalar>(
    action_value: Seq<V>,
    next_observation: S,
) -> V {
    let row = action_row(
        action_value,
        next_observation.index_spec() as int,
        AC::count_spec() as int,
    );
    row[first_maximum(row)]
}

impl<E: EpisodicEnvironment> QLearning<E> {
    /// The step size: how far a value moves towards its target.
    pub closed spec fn learning_rate(&self) -> <E::Agent as Agent>::Value {
        self.learning_rate
    }

    /// The factor by which the estimate of what follows counts less.
    pub closed spec fn discount_factor(&self) -> <E::Agent as Agent>::Value {
        self.discount_factor
    }

    /// The largest number of episodes to run.
    pub closed spec fn episodes(&self) -> usize {
        self.episode_limit
    }

    pub fn new(
        episode_limit: usize,
        learning_rate: <E::Agent as Agent>::Value,
        discount_factor: <E::Agent as Agent>::Value,
    ) -> (estimator: Self)
        ensures
            estimator.episodes() == episode_limit,
            estimator.learning_rate() == learning_rate,
            estimator.discount_factor() == discount_factor,
    {
        Self { episode_limit, learning_rate, discount_factor, phantom_env: PhantomData }
    }
}

impl<
    AC: DiscreteAction,
    S: DiscreteObservation,
    V: Scalar,
    AG: Agent<Action = AC, Observation = S, Value = V>,
    E: EpisodicEnvironment<Agent = AG>,
> TemporalDifference<AC, S, V, AG> for QLearning<E> {
    open spec fn is_bootstrap(
        &self,
        action_value: Seq<V>,
        next_step: Option<(S, AC)>,
        bootstrap: V,
    ) -> bool {
        match next_step {
            Some((next_state, _next_action)) => bootstrap == q_learning_bootstrap::<AC, S, V>(
                action_value,
                next_state,
            ),
            None => bootstrap == V::zero_spec(),
        }
    }

    fn algorithm_specific_evaluation(
        &self,
        agent: &AG,
        action_value: &Vec<V>,
        next_step: Option<(S, AC)>,
    ) -> (bootstrap: V) {
        match next_step {
            Some((next_state, next_action)) => {
                // The action that was taken is one of the row, so the row has a
                // best value.
                let taken = next_action.index();
                let o = next_state.index();
                proof {
                    lemma_row_in_table(o as int, S::count_spec() as int, AC::count_spec() as int);
                }
                let best = best_action::<AC, V>(action_value, o);
                action_value[tabular_index(&best, &next_state)]
            },
            None => V::zero(),
        }
    }
}

impl<
    AC: DiscreteAction,
    S: DiscreteObservation,
    V: Scalar,
    AG: Agent<Action = AC, Observation = S, Value = V>,
    E: EpisodicEnvironment<Agent = AG>,
> PolicyEstimator for QLearning<E> {
    type Environment = E;

    open spec fn episode_limit(&self) -> usize {
        self.episodes()
    }

    fn policy_search(self, environment: &mut E, agent: &mut AG) -> (estimate: Estimate<V>)
        ensures
            exists|episodes: Seq<TemporalDifferenceEpisode<S, AC, V>>| #[trigger]
                is_temporal_difference_estimate::<AC, S, V, AG, Self>(
                    self,
                    1,
                    self.learning_rate(),
                    self.discount_factor(),
                    estimate,
                    episodes,
                ),
    {
        let configuration = TemporalDifferenceConfiguration {
            episode_limit: self.episode_limit,
            temporal_difference_step: 1,
            learning_rate: self.learning_rate,
            discount_factor: self.discount_factor,
        };
        let estimate = temporal_difference_policy_search::<AC, S, V, AG, E, Self>(
            &self,
            environment,
            agent,
            &configuration,
        );
        proof {
            let played = choose|played: Seq<TemporalDifferenceEpisode<S, AC, V>>|
                is_temporal_difference_estimate::<AC, S, V, AG, Self>(
                    self,
                    1,
                    configuration.learning_rate,
                    configuration.discount_factor,
                    estimate,
                    played,
                );
            assert(is_temporal_difference_estimate::<AC, S, V, AG, Self>(
                self,
                1,
                self.learning_rate(),
                self.discount_factor(),
                estimate,
                played,
            ));
        }
        estimate
    }
}

} // verus!
