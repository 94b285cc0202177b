//! Who acts.
use crate::action::DiscreteAction;
use crate::observation::DiscreteObservation;
use crate::reinforcement_learning::table_len;
use crate::scalar::Scalar;
use vstd::prelude::*;

verus! {

/// Something that picks an action for each observation, and that can be told
/// what its actions turned out to be worth.
pub trait Agent: Sized {
    type Action: DiscreteAction;

    type Observation: DiscreteObservation;

    /// The carrier of values and rewards.
    type Value: Scalar;

    /// The action to take at `observation`.
    fn act(&self, observation: &Self::Observation) -> Self::Action;

    /// Adjusts the behaviour at every observation to `action_values`, the table
    /// of what each action is worth at each observation.
    fn policy_improvemnt(&mut self, action_values: &Vec<Self::Value>)
        requires
            action_values@.len() == table_len::<Self::Observation, Self::Action>(),
    ;

    /// Adjusts the behaviour at `observation` alone to `action_values`.
    fn policy_improvemnt_at(
        &mut self,
        observation: &Self::Observation,
        action_values: &Vec<Self::Value>,
    )
        requires
            action_values@.len() == table_len::<Self::Observation, Self::Action>(),
    ;
}

/// An agent that can say how likely it is to take an action.
pub trait DiscreteAgent<AC: DiscreteAction, S: DiscreteObservation>: Agent<
    Action = AC,
    Observation = S,
> {
    /// The probability of taking `action` at `observation`.
    fn action_probability(&self, action: &AC, observation: &S) -> Self::Value;
}

} // verus!
