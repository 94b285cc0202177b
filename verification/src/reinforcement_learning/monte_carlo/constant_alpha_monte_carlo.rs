//! Constant-alpha Monte Carlo: a pair learns at every visit with one fixed
//! step size, so that late returns weigh more than early ones.
use crate::action::DiscreteAction;
use crate::agent::Agent;
use crate::environment::EpisodicEnvironment;
use crate::observation::DiscreteObservation;
use crate::reinforcement_learning::monte_carlo::{
    count_visit, is_monte_carlo_estimate, monte_carlo_policy_search, step_index, MonteCarlo,
    MonteCarloSearchState,
};
use crate::reinforcement_learning::{Estimate, PolicyEstimator};
use crate::scalar::{square, Scalar};
use crate::trajectory::Trajectory;
use std::marker::PhantomData;
use vstd::prelude::*;

verus! {

/// The constant-alpha Monte Carlo estimator: at every visit a pair moves
/// towards the return by the step size `alpha`, however often it was visited.
pub struct ConstantAlphaMonteCarlo<E: EpisodicEnvironment> {
    alpha: <E::Agent as Agent>::Value,
    return_discount: <E::Agent as Agent>::Value,
    episodes: usize,
    phantom_environment: PhantomData<E>,
}

impl<E: EpisodicEnvironment> ConstantAlphaMonteCarlo<E> {
    /// The step size: how far a value moves towards each return.
    pub closed spec fn alpha(&self) -> <E::Agent as Agent>::Value {
        self.alpha
    }

    /// The factor by which a reward counts less for each step it lies ahead.
    pub closed spec fn return_discount(&self) -> <E::Agent as Agent>::Value {
        self.return_discount
    }

    /// The largest number of episodes to run.
    pub closed spec fn episodes(&self) -> usize {
        self.episodes
    }

    #[must_use]
    pub fn new(
        alpha: <E::Agent as Agent>::Value,
        return_discount: <E::Agent as Agent>::Value,
        episodes: usize,
    ) -> (estimator: Self)
        ensures
            estimator.alpha() == alpha,
            estimator.return_discount() == return_discount,
            estimator.episodes() == episodes,
    {
        Self { alpha, return_discount, episodes, phantom_environment: PhantomData }
    }
}

impl<
    AC: DiscreteAction,
    S: DiscreteObservation,
    V: Scalar,
    AG: Agent<Action = AC, Observation = S, Value = V>,
    E: EpisodicEnvironment<Agent = AG>,
> MonteCarlo<AC, S, V> for ConstantAlphaMonteCarlo<E> {
    open spec fn first_visit_only(&self) -> bool {
        false
    }

    /// `V + alpha * (G - V)`.
    open spec fn learned_value(&self, value: V, visits: usize, step_return: V) -> V {
        value.plus_spec(self.alpha().times_spec(step_return.minus_spec(value)))
    }

    fn step_update(
        &self,
        step: &Trajectory<S, AC, V>,
        step_return: &V,
        state: &mut MonteCarloSearchState<V>,
    ) -> (variation: V) {
        let place = step_index(step);
        let old_value = state.observation_values[place];
        let visits = count_visit(state.visit_count[place]);
        state.visit_count[place] = visits;
        state.observation_values[place] = old_value.plus(
            self.alpha.times(step_return.minus(old_value)),
        );
        square(old_value.minus(state.observation_values[place]))
    }
}

impl<
    AC: DiscreteAction,
    S: DiscreteObservation,
    V: Scalar,
    AG: Agent<Action = AC, Observation = S, Value = V>,
    E: EpisodicEnvironment<Agent = AG>,
> PolicyEstimator for ConstantAlphaMonteCarlo<E> {
    type Environment = E;

    open spec fn episode_limit(&self) -> usize {
        self.episodes()
    }

    fn policy_search(self, environment: &mut E, agent: &mut AG) -> (estimate: Estimate<V>)
        ensures
            exists|episodes: Seq<Seq<Trajectory<S, AC, V>>>| #[trigger]
                is_monte_carlo_estimate::<AC, S, V, Self>(
                    self,
                    self.return_discount(),
                    estimate,
                    episodes,
                ),
    {
        let return_discount = self.return_discount;
        let episodes = self.episodes;
        let estimate = monte_carlo_policy_search::<AC, S, V, AG, E, Self>(
            &self,
            environment,
            agent,
            return_discount,
            episodes,
        );
        proof {
            let played = choose|played: Seq<Seq<Trajectory<S, AC, V>>>|
                is_monte_carlo_estimate::<AC, S, V, Self>(self, return_discount, estimate, played);
            assert(is_monte_carlo_estimate::<AC, S, V, Self>(
                self,
                self.return_discount(),
                estimate,
                played,
            ));
        }
        estimate
    }
}

} // verus!
