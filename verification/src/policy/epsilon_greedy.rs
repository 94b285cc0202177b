//! The policy that mostly exploits and sometimes explores.
use crate::action::DiscreteAction;
use crate::observation::DiscreteObservation;
use crate::policy::{
    best_action, greedy_action, greedy_actions, greedy_table, is_drawn, is_enumerated,
    random_action, random_start, Policy,
};
use crate::random_number_generator::RandomNumberGeneratorFacade;
use crate::reinforcement_learning::lemma_row_in_table;
use crate::scalar::{in_unit_interval, less_than, precedes, Scalar};
use std::marker::PhantomData;
use vstd::prelude::*;

verus! {

/// Why no epsilon-greedy policy could be made.
#[derive(Debug)]
pub enum EpsilonGreedyPolicyError {
    /// Epsilon is a probability below one: it has to lie in `[0, 1)`.
    EpsilonOutOfRange,
}

impl EpsilonGreedyPolicyError {
    /// The error in words.
    pub fn message(&self) -> (text: String)
        ensures
            text@ == "Epsilon must be between [0, 1)."@,
    {
        match self {
            EpsilonGreedyPolicyError::EpsilonOutOfRange => {
                "Epsilon must be between [0, 1).".to_owned()
            },
        }
    }
}

/// A policy that holds one action for each observation and takes it, except
/// that with probability epsilon it takes an action drawn at random instead.
pub struct EpsilonGreedyPolicy<
    A: DiscreteAction,
    S: DiscreteObservation,
    RNG: RandomNumberGeneratorFacade,
> {
    epsilon: RNG::Value,
    rng_facade: RNG,
    observation_action_mapping: Vec<A>,
    observation_phantom: PhantomData<S>,
}

impl<
    A: DiscreteAction,
    S: DiscreteObservation,
    RNG: RandomNumberGeneratorFacade,
> EpsilonGreedyPolicy<A, S, RNG> {
    #[verifier::type_invariant]
    spec fn well_formed(self) -> bool {
        &&& self.observation_action_mapping@.len() == S::count_spec()
        &&& A::count_spec() > 0
        &&& in_unit_interval(self.epsilon)
    }

    /// The action held for each observation, in the order of the observations.
    pub closed spec fn view(&self) -> Seq<A> {
        self.observation_action_mapping@
    }

    /// The probability of exploring.
    pub closed spec fn epsilon(&self) -> RNG::Value {
        self.epsilon
    }

    /// What the policy does at `observation` when `explore_draw` decides
    /// whether to explore and `action_draw` which action to explore with.
    pub open spec fn selects(
        &self,
        observation: S,
        explore_draw: RNG::Value,
        action_draw: RNG::Value,
    ) -> A {
        if precedes(explore_draw, self.epsilon()) {
            A::from_index_spec(action_draw.scale_spec(A::count_spec()))
        } else {
            self@[observation.index_spec() as int]
        }
    }

    /// A policy that explores with probability `epsilon` and starts with a random
    /// action at every observation, each drawn from `rng_facade`.
    pub fn new(epsilon: RNG::Value, rng_facade: RNG) -> (result: Result<
        Self,
        EpsilonGreedyPolicyError,
    >)
        requires
            A::count_spec() > 0,
        ensures
            result is Ok <==> in_unit_interval(epsilon),
            result matches Ok(policy) ==> {
                &&& policy.epsilon() == epsilon
                &&& policy@.len() == S::count_spec()
                &&& forall|o: int| 0 <= o < policy@.len() ==> is_enumerated(#[trigger] policy@[o])
                &&& forall|o: int|
                    0 <= o < policy@.len() ==> is_drawn::<A, RNG::Value>(#[trigger] policy@[o])
            },
    {
        if !less_than(epsilon, RNG::Value::zero()) && less_than(epsilon, RNG::Value::one()) {
            let random_start = random_start::<A, S, RNG>(&rng_facade);
            Ok(
                Self {
                    epsilon,
                    rng_facade,
                    observation_action_mapping: random_start,
                    observation_phantom: PhantomData,
                },
            )
        } else {
            Err(EpsilonGreedyPolicyError::EpsilonOutOfRange)
        }
    }

    /// The action held for `observation`: the one the policy exploits.
    pub fn action_at(&self, observation: &S) -> (a: A)
        ensures
            a == self@[observation.index_spec() as int],
    {
        proof {
            use_type_invariant(self);
        }
        self.observation_action_mapping[observation.index()]
    }

    /// The probability of exploring.
    pub fn exploration(&self) -> (epsilon: RNG::Value)
        ensures
            epsilon == self.epsilon(),
    {
        self.epsilon
    }

    /// The action at `observation` for two given draws from the unit interval.
    pub fn select(
        &self,
        observation: &S,
        explore_draw: RNG::Value,
        action_draw: RNG::Value,
    ) -> (a: A)
        requires
            in_unit_interval(action_draw),
        ensures
            a == self.selects(*observation, explore_draw, action_draw),
    {
        proof {
            use_type_invariant(self);
        }
        if less_than(explore_draw, self.epsilon) {
            random_action::<A, RNG::Value>(action_draw)
        } else {
            self.observation_action_mapping[observation.index()]
        }
    }
}

impl<
    A: DiscreteAction,
    S: DiscreteObservation,
    RNG: RandomNumberGeneratorFacade,
> Policy for EpsilonGreedyPolicy<A, S, RNG> {
    type Action = A;

    type Observation = S;

    type Value = RNG::Value;

    /// Draws from the policy's own generator and selects by the draws.
    fn act(&self, observation: &S) -> (action: A)
        ensures
            exists|explore_draw: RNG::Value, action_draw: RNG::Value|
                in_unit_interval(explore_draw) && in_unit_interval(action_draw) && action
                    == #[trigger] self.selects(*observation, explore_draw, action_draw),
            !precedes(RNG::Value::zero_spec(), self.epsilon()) ==> action
                == self@[observation.index_spec() as int],
    {
        proof {
            use_type_invariant(self);
        }
        let explore_draw = self.rng_facade.random();
        if less_than(explore_draw, self.epsilon) {
            let action_draw = self.rng_facade.random();
            let action = random_action::<A, RNG::Value>(action_draw);
            assert(action == self.selects(*observation, explore_draw, action_draw));
            action
        } else {
            // No second draw is made, and none matters: any draw stands for it.
            let action = self.action_at(observation);
            assert(action == self.selects(*observation, explore_draw, explore_draw));
            action
        }
    }

    fn policy_improvemnt(&mut self, action_values: &Vec<RNG::Value>)
        ensures
            final(self)@ == greedy_table::<A, RNG::Value>(action_values@, S::count_spec() as nat),
            final(self).epsilon() == old(self).epsilon(),
    {
        proof {
            use_type_invariant(&*self);
        }
        self.observation_action_mapping = greedy_actions::<A, S, RNG::Value>(action_values);
    }

    fn policy_improvemnt_at(&mut self, observation: &S, action_values: &Vec<RNG::Value>)
        ensures
            final(self)@ == old(self)@.update(
                observation.index_spec() as int,
                greedy_action::<A, RNG::Value>(action_values@, observation.index_spec() as int),
            ),
            final(self).epsilon() == old(self).epsilon(),
    {
        proof {
            use_type_invariant(&*self);
        }
        let o = observation.index();
        proof {
            lemma_row_in_table(o as int, S::count_spec() as int, A::count_spec() as int);
        }
        let best = best_action::<A, RNG::Value>(action_values, o);
        self.observation_action_mapping[o] = best;
    }
}

} // verus!
