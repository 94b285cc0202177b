//! First-visit Monte Carlo: a pair learns once in an episode, from the return
//! that followed its first visit.
use crate::action::DiscreteAction;
use crate::agent::Agent;
use crate::environment::EpisodicEnvironment;
use crate::observation::DiscreteObservation;
use crate::reinforcement_learning::monte_carlo::{
    count_visit, is_monte_carlo_estimate, mean_step, monte_carlo_policy_search, step_index,
    MonteCarlo, MonteCarloSearchState,
};
use crate::reinforcement_learning::{Estimate, PolicyEstimator};
use crate::scalar::{square, Scalar};
use crate::trajectory::Trajectory;
use std::marker::PhantomData;
use vstd::prelude::*;

verus! {

/// The first-visit Monte Carlo estimator: the value of a pair is the mean of
/// the returns that followed its first visit in each episode.
pub struct FirstVisitMonteCarlo<E: EpisodicEnvironment> {
    return_discount: <E::Agent as Agent>::Value,
    episodes: usize,
    phantom_environment: PhantomData<E>,
}

impl<E: EpisodicEnvironment> FirstVisitMonteCarlo<E> {
    /// The factor by which a reward counts less for each step it lies ahead.
    pub closed spec fn return_discount(&self) -> <E::Agent as Agent>::Value {
        self.return_discount
    }

    /// The largest number of episodes to run.
    pub closed spec fn episodes(&self) -> usize {
        self.episodes
    }

    #[must_use]
    pub fn new(return_discount: <E::Agent as Agent>::Value, episodes: usize) -> (estimator: Self)
        ensures
            estimator.return_discount() == return_discount,
            estimator.episodes() == episodes,
    {
        Self { return_discount, episodes, phantom_environment: PhantomData }
    }
}

impl<
    AC: DiscreteAction,
    S: DiscreteObservation,
    V: Scalar,
    AG: Agent<Action = AC, Observation = S, Value = V>,
    E: EpisodicEnvironment<Agent = AG>,
> MonteCarlo<AC, S, V> for FirstVisitMonteCarlo<E> {
    open spec fn first_visit_only(&self) -> bool {
        true
    }

    /// `V + (G - V) / N`: the mean of the returns, moved on by one return.
    open spec fn learned_value(&self, value: V, visits: usize, step_return: V) -> V {
        mean_step(value, visits, step_return)
    }

    fn step_update(
        &self,
        step: &Trajectory<S, AC, V>,
        step_return: &V,
        state: &mut MonteCarloSearchState<V>,
    ) -> (variation: V) {
        let place = step_index(step);
        let old_value = state.observation_values[place];
        if !state.visited[place] {
            state.visited[place] = true;
            let visits = count_visit(state.visit_count[place]);
            state.visit_count[place] = visits;
            state.observation_values[place] = old_value.plus(
                step_return.minus(old_value).over(V::from_count(visits)),
            );
        }
        square(old_value.minus(state.observation_values[place]))
    }
}

impl<
    AC: DiscreteAction,
    S: DiscreteObservation,
    V: Scalar,
    AG: Agent<Action = AC, Observation = S, Value = V>,
    E: EpisodicEnvironment<Agent = AG>,
> PolicyEstimator for FirstVisitMonteCarlo<E> {
    type Environment = E;

    open spec fn episode_limit(&self) -> usize {
        self.episodes()
    }

    fn policy_search(self, environment: &mut E, agent: &mut AG) -> (estimate: Estimate<V>)
        ensures
            exists|episodes: Seq<Seq<Trajectory<S, AC, V>>>| #[trigger]
                is_monte_carlo_estimate::<AC, S, V, Self>(
                    self,
                    self.return_discount(),
                    estimate,
                    episodes,
                ),
    {
        let return_discount = self.return_discount;
        let episodes = self.episodes;
        let estimate = monte_carlo_policy_search::<AC, S, V, AG, E, Self>(
            &self,
            environment,
            agent,
            return_discount,
            episodes,
        );
        proof {
            let played = choose|played: Seq<Seq<Trajectory<S, AC, V>>>|
                is_monte_carlo_estimate::<AC, S, V, Self>(self, return_discount, estimate, played);
            assert(is_monte_carlo_estimate::<AC, S, V, Self>(
                self,
                self.return_discount(),
                estimate,
                played,
            ));
        }
        estimate
    }
}

} // verus!
