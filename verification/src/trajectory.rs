//! The record of one episode.
use crate::action::Action;
use crate::observation::Observation;
use vstd::prelude::*;

verus! {

/// One entry of an episode's record.
#[derive(Debug, PartialEq, Eq)]
pub enum Trajectory<S: Observation, A: Action, V> {
    /// The agent saw `observation`, took `action` and earned `reward`.
    Step { observation: S, action: A, reward: V },
    /// The episode ended at `observation`. No action belongs to it.
    Final { observation: S },
}

/// A whole episode: steps, any number of them, and then exactly one final entry.
pub open spec fn is_episode<S: Observation, A: Action, V>(
    trajectory: Seq<Trajectory<S, A, V>>,
) -> bool {
    &&& trajectory.len() >= 1
    &&& trajectory.last() is Final
    &&& forall|t: int| 0 <= t < trajectory.len() - 1 ==> (#[trigger] trajectory[t]) is Step
}

/// The rewards of an episode's steps, in the order in which they were earned.
pub open spec fn rewards_of<S: Observation, A: Action, V>(
    trajectory: Seq<Trajectory<S, A, V>>,
) -> Seq<V> {
    Seq::new((trajectory.len() - 1) as nat, |t: int| trajectory[t]->reward)
}

} // verus!
