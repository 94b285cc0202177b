//! The world an agent acts in.
use crate::agent::Agent;
use vstd::prelude::*;

verus! {

/// The interface between the world and an agent. The world keeps a state of its
/// own, which the agent sees through observations only.
pub trait Environment {
    type Agent: Agent;

    /// What `agent` sees now, or `None` when the episode is over.
    fn get_observation(&mut self, agent: &Self::Agent) -> Option<
        <Self::Agent as Agent>::Observation,
    >;

    /// Lets the world move on under `action` and gives the reward earned.
    fn receive_action(
        &mut self,
        agent: &Self::Agent,
        action: &<Self::Agent as Agent>::Action,
    ) -> <Self::Agent as Agent>::Value;
}

/// An environment whose episodes end and can be started over.
pub trait EpisodicEnvironment: Environment {
    /// Puts the world back into an initial state.
    fn reset_environment(&mut self);

    /// What `agent` sees of the state in which the episode ended.
    fn final_observation(&self, agent: &Self::Agent) -> <Self::Agent as Agent>::Observation;
}

} // verus!
