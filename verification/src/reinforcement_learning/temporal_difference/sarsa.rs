//! SARSA: the estimate of what follows is the value of the action that was
//! taken next.
use crate::action::DiscreteAction;
use crate::agent::Agent;
use crate::environment::EpisodicEnvironment;
use crate::observation::DiscreteObservation;
use crate::reinforcement_learning::temporal_difference::{
    is_temporal_difference_estimate, temporal_difference_policy_search, TemporalDifference,
    TemporalDifferenceConfiguration, TemporalDifferenceEpisode,
};
use crate::reinforcement_learning::{tabular_index, tabular_index_spec, Estimate, PolicyEstimator};
use crate::scalar::Scalar;
use std::marker::PhantomData;
use vstd::prelude::*;

verus! {

/// The SARSA estimator: on-policy temporal-difference learning.
pub struct SARSA<E: EpisodicEnvironment> {
    episode_limit: usize,
    learning_rate: <E::Agent as Agent>::Value,
    discount_factor: <E::Agent as Agent>::Value,
    phantom_env: PhantomData<E>,
}

/// The value of the action that was taken at the step that follows.
pub open spec fn sarsa_bootstrap<AC: DiscreteAction, S: DiscreteObservation, V: Scalar>(
    action_value: Seq<V>,
    next_observation: S,
    next_action: AC,
) -> V {
    action_value[tabular_index_spec(
        next_observation.index_spec() as int,
        next_action.index_spec() as int,
        AC::count_spec() as int,
    )]
}

impl<E: EpisodicEnvironment> SARSA<E> {
    /// The step size: how far a value moves towards its target.
    pub closed spec fn learning_rate(&self) -> <E::Agent as Agent>::Value {
        self.learning_rate
    }

    /// The factor by which the estimate of what follows counts less.
    pub closed spec fn discount_factor(&self) -> <E::Agent as Agent>::Value {
        self.discount_factor
    }

    /// The largest number of episodes to run.
    pub closed spec fn episodes(&self) -> usize {
        self.episode_limit
    }

    pub fn new(
        episode_limit: usize,
        alpha: <E::Agent as Agent>::Value,
        discount_factor: <E::Agent as Agent>::Value,
    ) -> (estimator: Self)
        ensures
            estimator.episodes() == episode_limit,
            estimator.learning_rate() == alpha,
            estimator.discount_factor() == discount_factor,
    {
        Self { episode_limit, learning_rate: alpha, discount_factor, phantom_env: PhantomData }
    }
}

impl<
    AC: DiscreteAction,
    S: DiscreteObservation,
    V: Scalar,
    AG: Agent<Action = AC, Observation = S, Value = V>,
    E: EpisodicEnvironment<Agent = AG>,
> TemporalDifference<AC, S, V, AG> for SARSA<E> {
    open spec fn is_bootstrap(
        &self,
        action_value: Seq<V>,
        next_step: Option<(S, AC)>,
        bootstrap: V,
    ) -> bool {
        match next_step {
            Some((next_state, next_action)) => bootstrap == sarsa_bootstrap(
                action_value,
                next_state,
                next_action,
            ),
            None => bootstrap == V::zero_spec(),
        }
    }

    fn algorithm_specific_evaluation(
        &self,
        agent: &AG,
        action_value: &Vec<V>,
        next_step: Option<(S, AC)>,
    ) -> (bootstrap: V) {
        match next_step {
            Some((next_state, next_action)) => {
                let cur_index = tabular_index(&next_action, &next_state);
                action_value[cur_index]
            },
            None => V::zero(),
        }
    }
}

impl<
    AC: DiscreteAction,
    S: DiscreteObservation,
    V: Scalar,
    AG: Agent<Action = AC, Observation = S, Value = V>,
    E: EpisodicEnvironment<Agent = AG>,
> PolicyEstimator for SARSA<E> {
    type Environment = E;

    open spec fn episode_limit(&self) -> usize {
        self.episodes()
    }

    fn policy_search(self, environment: &mut E, agent: &mut AG) -> (estimate: Estimate<V>)
        ensures
            exists|episodes: Seq<TemporalDifferenceEpisode<S, AC, V>>| #[trigger]
                is_temporal_difference_estimate::<AC, S, V, AG, Self>(
                    self,
                    1,
                    self.learning_rate(),
                    self.discount_factor(),
                    estimate,
                    episodes,
                ),
    {
        let configuration = TemporalDifferenceConfiguration {
            episode_limit: self.episode_limit,
            temporal_difference_step: 1,
            learning_rate: self.learning_rate,
            discount_factor: self.discount_factor,
        };
        let estimate = temporal_difference_policy_search::<AC, S, V, AG, E, Self>(
            &self,
            environment,
            agent,
            &configuration,
        );
        proof {
            let played = choose|played: Seq<TemporalDifferenceEpisode<S, AC, V>>|
                is_temporal_difference_estimate::<AC, S, V, AG, Self>(
                    self,
                    1,
                    configuration.learning_rate,
                    configuration.discount_factor,
                    estimate,
                    played,
                );
            assert(is_temporal_difference_estimate::<AC, S, V, AG, Self>(
                self,
                1,
                self.learning_rate(),
                self.discount_factor(),
                estimate,
                played,
            ));
        }
        estimate
    }
}

} // verus!
