//! Temporal-difference estimation: a step learns as soon as the step after it
//! is known, from its reward and an estimate of what follows.
use crate::action::DiscreteAction;
use crate::agent::Agent;
use crate::environment::EpisodicEnvironment;
use crate::observation::DiscreteObservation;
use crate::reinforcement_learning::{
    is_plateau, search_goes_on, step_place, step_reward, table_len, tabular_index,
    ConvergenceWindow, Estimate, CONVERGENCE_WINDOW,
};
use crate::policy::{action_row, first_maximum, lemma_first_maximum};
use crate::reinforcement_learning::lemma_row_in_table;
use crate::reinforcement_learning::temporal_difference::expected_sarsa::{
    expected_sarsa_bootstrap, weighted_sum,
};
use crate::reinforcement_learning::temporal_difference::q_learning::q_learning_bootstrap;
use crate::reinforcement_learning::temporal_difference::sarsa::sarsa_bootstrap;
use crate::scalar::{has_exact_units, square, squared, Scalar};
use crate::trajectory::Trajectory;
use std::collections::VecDeque;
use vstd::prelude::*;

pub mod expected_sarsa;
pub mod q_learning;
pub mod sarsa;

pub use self::expected_sarsa::ExpectedSARSA;
pub use self::q_learning::QLearning;
pub use self::sarsa::SARSA;

verus! {

/// What a temporal-difference search is run with.
pub struct TemporalDifferenceConfiguration<V> {
    /// The largest number of episodes to run.
    pub episode_limit: usize,
    /// How many steps a step waits before it learns: the size of the window.
    pub temporal_difference_step: usize,
    /// The step size: how far a value moves towards its target.
    pub learning_rate: V,
    /// The factor by which the estimate of what follows counts less.
    pub discount_factor: V,
}

/// The estimate of what follows a step, by which the algorithms differ.
pub trait TemporalDifference<
    AC: DiscreteAction,
    S: DiscreteObservation,
    V: Scalar,
    AG: Agent<Action = AC, Observation = S, Value = V>,
>: Sized {
    /// Whether the algorithm can give `bootstrap` as its estimate of what
    /// follows, where `next_step` is the observation and the action of the step
    /// that follows, if one does.
    spec fn is_bootstrap(
        &self,
        action_value: Seq<V>,
        next_step: Option<(S, AC)>,
        bootstrap: V,
    ) -> bool;

    /// Estimates from the table what follows. After the last step of an episode
    /// nothing follows, and the estimate is zero.
    fn algorithm_specific_evaluation(
        &self,
        agent: &AG,
        action_value: &Vec<V>,
        next_step: Option<(S, AC)>,
    ) -> (bootstrap: V)
        requires
            table_len::<S, AC>() <= usize::MAX,
            action_value@.len() == table_len::<S, AC>(),
        ensures
            next_step is None ==> bootstrap == V::zero_spec(),
            self.is_bootstrap(action_value@, next_step, bootstrap),
    ;
}

/// The value that a pair moves to: `value + learning_rate * (reward +
/// discount_factor * bootstrap - value)`.
pub open spec fn temporal_difference_target<V: Scalar>(
    value: V,
    reward: V,
    bootstrap: V,
    learning_rate: V,
    discount_factor: V,
) -> V {
    value.plus_spec(
        learning_rate.times_spec(
            reward.plus_spec(discount_factor.times_spec(bootstrap)).minus_spec(value),
        ),
    )
}

/// Moves the value at `place` to its target and gives the square of the change.
pub fn temporal_difference_update<V: Scalar>(
    action_value: &mut Vec<V>,
    place: usize,
    reward: V,
    bootstrap: V,
    learning_rate: V,
    discount_factor: V,
) -> (variation: V)
    requires
        place < old(action_value)@.len(),
    ensures
        final(action_value)@ == old(action_value)@.update(
            place as int,
            temporal_difference_target(
                old(action_value)@[place as int],
                reward,
                bootstrap,
                learning_rate,
                discount_factor,
            ),
        ),
        variation == squared(
            old(action_value)@[place as int].minus_spec(final(action_value)@[place as int]),
        ),
{
    let old_value = action_value[place];
    let target = old_value.plus(
        learning_rate.times(reward.plus(discount_factor.times(bootstrap)).minus(old_value)),
    );
    action_value[place] = target;
    square(old_value.minus(target))
}

/// The update of one step: with `bootstrap`, an estimate that the algorithm can
/// give of what follows the step, the value of the step's pair moves to its
/// target, nothing else in the table moves, and `variation` is the square of
/// the change.
pub open spec fn is_evaluation<
    AC: DiscreteAction,
    S: DiscreteObservation,
    V: Scalar,
    AG: Agent<Action = AC, Observation = S, Value = V>,
    T: TemporalDifference<AC, S, V, AG>,
>(
    rule: T,
    before: Seq<V>,
    after: Seq<V>,
    step: Trajectory<S, AC, V>,
    next_step: Option<(S, AC)>,
    learning_rate: V,
    discount_factor: V,
    variation: V,
    bootstrap: V,
) -> bool {
    let place = step_place(step);
    let target = temporal_difference_target(
        before[place],
        step->reward,
        bootstrap,
        learning_rate,
        discount_factor,
    );
    &&& rule.is_bootstrap(before, next_step, bootstrap)
    &&& next_step is None ==> bootstrap == V::zero_spec()
    &&& after == before.update(place, target)
    &&& variation == squared(before[place].minus_spec(target))
}

/// Lets the pair (`observation`, `action`) learn from `reward` and from the
/// algorithm's estimate of what follows, then lets the agent improve its
/// policy at `observation`. Gives the square of the change of the value.
pub fn temporal_difference_policy_evaluation<AC, S, V, AG, T>(
    rule: &T,
    agent: &mut AG,
    action_value: &mut Vec<V>,
    observation: &S,
    action: &AC,
    reward: V,
    next_step: Option<(S, AC)>,
    temporal_difference_configuration: &TemporalDifferenceConfiguration<V>,
) -> (variation: V) where
    AC: DiscreteAction,
    S: DiscreteObservation,
    V: Scalar,
    AG: Agent<Action = AC, Observation = S, Value = V>,
    T: TemporalDifference<AC, S, V, AG>,

    requires
        table_len::<S, AC>() <= usize::MAX,
        old(action_value)@.len() == table_len::<S, AC>(),
    ensures
        final(action_value)@.len() == table_len::<S, AC>(),
        exists|bootstrap: V| #[trigger]
            is_evaluation::<AC, S, V, AG, T>(
                *rule,
                old(action_value)@,
                final(action_value)@,
                (Trajectory::Step { observation: *observation, action: *action, reward }),
                next_step,
                temporal_difference_configuration.learning_rate,
                temporal_difference_configuration.discount_factor,
                variation,
                bootstrap,
            ),
{
    let prev_index = tabular_index(action, observation);
    let bootstrap = rule.algorithm_specific_evaluation(&*agent, &*action_value, next_step);
    let variation = temporal_difference_update(
        action_value,
        prev_index,
        reward,
        bootstrap,
        temporal_difference_configuration.learning_rate,
        temporal_difference_configuration.discount_factor,
    );
    assert(is_evaluation::<AC, S, V, AG, T>(
        *rule,
        old(action_value)@,
        action_value@,
        (Trajectory::Step { observation: *observation, action: *action, reward }),
        next_step,
        temporal_difference_configuration.learning_rate,
        temporal_difference_configuration.discount_factor,
        variation,
        bootstrap,
    ));
    agent.policy_improvemnt_at(observation, &*action_value);
    variation
}

/// Where the next action is the best one at the next observation, SARSA
/// estimates what follows exactly as Q-learning does.
pub proof fn lemma_sarsa_agrees_with_q_learning<
    AC: DiscreteAction,
    S: DiscreteObservation,
    V: Scalar,
>(action_value: Seq<V>, next_observation: S, next_action: AC)
    requires
        action_value.len() == table_len::<S, AC>(),
        next_observation.index_spec() < S::count_spec(),
        next_action.index_spec() < AC::count_spec(),
        next_action.index_spec() == first_maximum(
            action_row(
                action_value,
                next_observation.index_spec() as int,
                AC::count_spec() as int,
            ),
        ),
    ensures
        sarsa_bootstrap(action_value, next_observation, next_action) == q_learning_bootstrap::<
            AC,
            S,
            V,
        >(action_value, next_observation),
{
    lemma_row_in_table(
        next_observation.index_spec() as int,
        S::count_spec() as int,
        AC::count_spec() as int,
    );
}

/// A sum whose weights are zero but for a single one: in a carrier with exact
/// units it is the value under that weight, once the sum has reached it.
pub proof fn lemma_one_hot_sum<V: Scalar>(weights: Seq<V>, values: Seq<V>, hot: int, terms: int)
    requires
        has_exact_units::<V>(),
        0 <= hot,
        0 <= terms <= weights.len(),
        forall|j: int|
            0 <= j < weights.len() ==> #[trigger] weights[j] == if j == hot {
                V::one_spec()
            } else {
                V::zero_spec()
            },
    ensures
        weighted_sum(weights, values, terms) == if hot < terms {
            values[hot]
        } else {
            V::zero_spec()
        },
    decreases terms,
{
    if terms > 0 {
        lemma_one_hot_sum(weights, values, hot, terms - 1);
    }
}

/// Where the agent takes the best action at the next observation with
/// certainty, and the carrier has exact units, Expected SARSA estimates what
/// follows exactly as Q-learning does.
pub proof fn lemma_expected_sarsa_agrees_with_q_learning<
    AC: DiscreteAction,
    S: DiscreteObservation,
    V: Scalar,
>(action_value: Seq<V>, next_observation: S, probabilities: Seq<V>)
    requires
        has_exact_units::<V>(),
        AC::count_spec() > 0,
        probabilities.len() == AC::count_spec(),
        forall|j: int|
            0 <= j < probabilities.len() ==> #[trigger] probabilities[j] == if j == first_maximum(
                action_row(
                    action_value,
                    next_observation.index_spec() as int,
                    AC::count_spec() as int,
                ),
            ) {
                V::one_spec()
            } else {
                V::zero_spec()
            },
        action_value.len() == table_len::<S, AC>(),
        next_observation.index_spec() < S::count_spec(),
    ensures
        expected_sarsa_bootstrap::<AC, S, V>(action_value, next_observation, probabilities)
            == q_learning_bootstrap::<AC, S, V>(action_value, next_observation),
{
    let row = action_row(
        action_value,
        next_observation.index_spec() as int,
        AC::count_spec() as int,
    );
    lemma_row_in_table(
        next_observation.index_spec() as int,
        S::count_spec() as int,
        AC::count_spec() as int,
    );
    lemma_first_maximum(row);
    lemma_one_hot_sum(probabilities, row, first_maximum(row), AC::count_spec() as int);
}

/// The observation and the action of a step.
pub fn step_pair<S: DiscreteObservation, AC: DiscreteAction, V>(
    step: &Trajectory<S, AC, V>,
) -> (pair: (S, AC))
    requires
        step is Step,
    ensures
        pair == (step->Step_observation, step->action),
{
    match step {
        Trajectory::Step { observation, action, .. } => (*observation, *action),
        Trajectory::Final { .. } => vstd::pervasive::unreached(),
    }
}

/// Every entry of the window is a step.
pub open spec fn holds_steps<S: DiscreteObservation, AC: DiscreteAction, V>(
    window: Seq<Trajectory<S, AC, V>>,
) -> bool {
    forall|k: int| 0 <= k < window.len() ==> (#[trigger] window[k]) is Step
}

/// Takes a new step into the window. A window that is full, with `lookahead`
/// entries, gives up its oldest entry for it: the step that now learns, with
/// the step in front of the window as the one that follows it.
pub fn slide_window<S: DiscreteObservation, AC: DiscreteAction, V>(
    window: &mut VecDeque<Trajectory<S, AC, V>>,
    lookahead: usize,
    step: Trajectory<S, AC, V>,
) -> (leaving: Option<Trajectory<S, AC, V>>)
    requires
        lookahead >= 1,
        step is Step,
        holds_steps(old(window)@),
        old(window)@.len() <= lookahead,
    ensures
        old(window)@.len() == lookahead ==> leaving == Some(old(window)@[0]) && final(window)@
            == old(window)@.subrange(1, lookahead as int).push(step),
        old(window)@.len() < lookahead ==> leaving is None && final(window)@ == old(window)@.push(
            step,
        ),
        leaving matches Some(past) ==> past is Step,
        holds_steps(final(window)@),
        1 <= final(window)@.len() <= lookahead,
{
    let leaving = if window.len() >= lookahead {
        window.pop_front()
    } else {
        None
    };
    window.push_back(step);
    leaving
}

/// The steps of one episode, and for each of them the estimate of what
/// follows that it learned from.
pub ghost struct TemporalDifferenceEpisode<S: DiscreteObservation, AC: DiscreteAction, V> {
    pub steps: Seq<Trajectory<S, AC, V>>,
    pub bootstraps: Seq<V>,
}

/// What follows step `t` of an episode when it learns: the step after it,
/// where the episode went on for `lookahead` steps more, and nothing where the
/// episode was over before.
pub open spec fn next_of<S: DiscreteObservation, AC: DiscreteAction, V>(
    steps: Seq<Trajectory<S, AC, V>>,
    lookahead: int,
    t: int,
) -> Option<(S, AC)> {
    if t + lookahead < steps.len() {
        Some((steps[t + 1]->Step_observation, steps[t + 1]->action))
    } else {
        None
    }
}

/// The table after the first `updates` steps of an episode have learned, one
/// after the other in the order of the episode, each from its reward and its
/// bootstrap.
pub open spec fn after_updates<S: DiscreteObservation, AC: DiscreteAction, V: Scalar>(
    table: Seq<V>,
    steps: Seq<Trajectory<S, AC, V>>,
    bootstraps: Seq<V>,
    learning_rate: V,
    discount_factor: V,
    updates: int,
) -> Seq<V>
    decreases updates,
{
    if updates <= 0 {
        table
    } else {
        let before = after_updates(
            table,
            steps,
            bootstraps,
            learning_rate,
            discount_factor,
            updates - 1,
        );
        let place = step_place(steps[updates - 1]);
        before.update(
            place,
            temporal_difference_target(
                before[place],
                steps[updates - 1]->reward,
                bootstraps[updates - 1],
                learning_rate,
                discount_factor,
            ),
        )
    }
}

/// The sum of the squared changes that the first `updates` steps of an episode
/// make, added up from zero in the order of the episode.
pub open spec fn variation_of_updates<S: DiscreteObservation, AC: DiscreteAction, V: Scalar>(
    table: Seq<V>,
    steps: Seq<Trajectory<S, AC, V>>,
    bootstraps: Seq<V>,
    learning_rate: V,
    discount_factor: V,
    updates: int,
) -> V
    decreases updates,
{
    if updates <= 0 {
        V::zero_spec()
    } else {
        let before = after_updates(
            table,
            steps,
            bootstraps,
            learning_rate,
            discount_factor,
            updates - 1,
        );
        let place = step_place(steps[updates - 1]);
        variation_of_updates(
            table,
            steps,
            bootstraps,
            learning_rate,
            discount_factor,
            updates - 1,
        ).plus_spec(
            squared(
                before[place].minus_spec(
                    temporal_difference_target(
                        before[place],
                        steps[updates - 1]->reward,
                        bootstraps[updates - 1],
                        learning_rate,
                        discount_factor,
                    ),
                ),
            ),
        )
    }
}

/// The bootstrap of step `t` is an estimate that the algorithm can give of
/// what follows the step, from the table as it is when the step learns.
pub open spec fn is_sound_bootstrap<
    AC: DiscreteAction,
    S: DiscreteObservation,
    V: Scalar,
    AG: Agent<Action = AC, Observation = S, Value = V>,
    T: TemporalDifference<AC, S, V, AG>,
>(
    rule: T,
    table: Seq<V>,
    episode: TemporalDifferenceEpisode<S, AC, V>,
    lookahead: int,
    learning_rate: V,
    discount_factor: V,
    t: int,
) -> bool {
    let next_step = next_of(episode.steps, lookahead, t);
    &&& rule.is_bootstrap(
        after_updates(
            table,
            episode.steps,
            episode.bootstraps,
            learning_rate,
            discount_factor,
            t,
        ),
        next_step,
        episode.bootstraps[t],
    )
    &&& next_step is None ==> episode.bootstraps[t] == V::zero_spec()
}

/// Every step of the episode has a bootstrap, and each bootstrap is an
/// estimate that the algorithm can give when its step learns, where the steps
/// learn once each, in the order of the episode, starting from `table`.
pub open spec fn is_sound_episode<
    AC: DiscreteAction,
    S: DiscreteObservation,
    V: Scalar,
    AG: Agent<Action = AC, Observation = S, Value = V>,
    T: TemporalDifference<AC, S, V, AG>,
>(
    rule: T,
    table: Seq<V>,
    episode: TemporalDifferenceEpisode<S, AC, V>,
    lookahead: int,
    learning_rate: V,
    discount_factor: V,
) -> bool {
    &&& holds_steps(episode.steps)
    &&& episode.bootstraps.len() == episode.steps.len()
    &&& forall|t: int|
        0 <= t < episode.steps.len() ==> #[trigger] is_sound_bootstrap::<AC, S, V, AG, T>(
            rule,
            table,
            episode,
            lookahead,
            learning_rate,
            discount_factor,
            t,
        )
}

/// An episode takes `table` to `after` and changes the values by `variation`
/// in all: every step of it learns once, in the order of the episode, from a
/// bootstrap that the algorithm can give.
pub open spec fn is_learned_episode<
    AC: DiscreteAction,
    S: DiscreteObservation,
    V: Scalar,
    AG: Agent<Action = AC, Observation = S, Value = V>,
    T: TemporalDifference<AC, S, V, AG>,
>(
    rule: T,
    table: Seq<V>,
    after: Seq<V>,
    variation: V,
    episode: TemporalDifferenceEpisode<S, AC, V>,
    lookahead: int,
    learning_rate: V,
    discount_factor: V,
) -> bool {
    &&& is_sound_episode::<AC, S, V, AG, T>(
        rule,
        table,
        episode,
        lookahead,
        learning_rate,
        discount_factor,
    )
    &&& after == after_updates(
        table,
        episode.steps,
        episode.bootstraps,
        learning_rate,
        discount_factor,
        episode.steps.len() as int,
    )
    &&& variation == variation_of_updates(
        table,
        episode.steps,
        episode.bootstraps,
        learning_rate,
        discount_factor,
        episode.steps.len() as int,
    )
}

/// What the first steps of an episode make of the table does not depend on the
/// steps that come after them.
pub proof fn lemma_updates_so_far<S: DiscreteObservation, AC: DiscreteAction, V: Scalar>(
    table: Seq<V>,
    steps: Seq<Trajectory<S, AC, V>>,
    bootstraps: Seq<V>,
    longer_steps: Seq<Trajectory<S, AC, V>>,
    longer_bootstraps: Seq<V>,
    learning_rate: V,
    discount_factor: V,
    updates: int,
)
    requires
        0 <= updates <= steps.len() <= longer_steps.len(),
        updates <= bootstraps.len() <= longer_bootstraps.len(),
        forall|t: int| 0 <= t < steps.len() ==> #[trigger] steps[t] == longer_steps[t],
        forall|t: int|
            0 <= t < bootstraps.len() ==> #[trigger] bootstraps[t] == longer_bootstraps[t],
    ensures
        after_updates(
            table,
            longer_steps,
            longer_bootstraps,
            learning_rate,
            discount_factor,
            updates,
        ) == after_updates(table, steps, bootstraps, learning_rate, discount_factor, updates),
        variation_of_updates(
            table,
            longer_steps,
            longer_bootstraps,
            learning_rate,
            discount_factor,
            updates,
        ) == variation_of_updates(
            table,
            steps,
            bootstraps,
            learning_rate,
            discount_factor,
            updates,
        ),
    decreases updates,
{
    if updates > 0 {
        lemma_updates_so_far(
            table,
            steps,
            bootstraps,
            longer_steps,
            longer_bootstraps,
            learning_rate,
            discount_factor,
            updates - 1,
        );
    }
}

/// Plays one episode and learns from it on the way.
///
/// The environment is reset. The steps pass through a window of
/// `temporal_difference_step` entries: a step that leaves the window learns,
/// with the step now in front of the window as the one that follows it; when
/// the environment shows no observation any more, the steps still in the
/// window learn with nothing to follow them. The agent improves its policy at
/// every update. Gives the sum of the squared changes of the values.
///
/// An episode is cut off after as many steps as the machine can count.
pub fn temporal_difference_episode<AC, S, V, AG, E, T>(
    rule: &T,
    environment: &mut E,
    agent: &mut AG,
    action_value: &mut Vec<V>,
    temporal_difference_configuration: &TemporalDifferenceConfiguration<V>,
) -> (episode_variation: V) where
    AC: DiscreteAction,
    S: DiscreteObservation,
    V: Scalar,
    AG: Agent<Action = AC, Observation = S, Value = V>,
    E: EpisodicEnvironment<Agent = AG>,
    T: TemporalDifference<AC, S, V, AG>,

    requires
        table_len::<S, AC>() <= usize::MAX,
        old(action_value)@.len() == table_len::<S, AC>(),
        temporal_difference_configuration.temporal_difference_step >= 1,
    ensures
        final(action_value)@.len() == table_len::<S, AC>(),
        exists|episode: TemporalDifferenceEpisode<S, AC, V>| #[trigger]
            is_learned_episode::<AC, S, V, AG, T>(
                *rule,
                old(action_value)@,
                final(action_value)@,
                episode_variation,
                episode,
                temporal_difference_configuration.temporal_difference_step as int,
                temporal_difference_configuration.learning_rate,
                temporal_difference_configuration.discount_factor,
            ),
{
    let lookahead = temporal_difference_configuration.temporal_difference_step;
    let ghost table = action_value@;
    let ghost learning_rate = temporal_difference_configuration.learning_rate;
    let ghost discount_factor = temporal_difference_configuration.discount_factor;
    let ghost mut seen: Seq<Trajectory<S, AC, V>> = Seq::empty();
    let ghost mut bootstraps: Seq<V> = Seq::empty();
    let mut episode_variation = V::zero();
    environment.reset_environment();
    let mut temporal_difference: VecDeque<Trajectory<S, AC, V>> = VecDeque::new();
    let mut running = true;
    let mut steps: usize = 0;
    while running && steps < usize::MAX
        invariant
            table_len::<S, AC>() <= usize::MAX,
            action_value@.len() == table_len::<S, AC>(),
            lookahead == temporal_difference_configuration.temporal_difference_step,
            learning_rate == temporal_difference_configuration.learning_rate,
            discount_factor == temporal_difference_configuration.discount_factor,
            lookahead >= 1,
            holds_steps(seen),
            bootstraps.len() + temporal_difference@.len() == seen.len(),
            temporal_difference@ == seen.subrange(bootstraps.len() as int, seen.len() as int),
            temporal_difference@.len() <= lookahead,
            bootstraps.len() > 0 ==> temporal_difference@.len() == lookahead,
            action_value@ == after_updates(
                table,
                seen,
                bootstraps,
                learning_rate,
                discount_factor,
                bootstraps.len() as int,
            ),
            episode_variation == variation_of_updates(
                table,
                seen,
                bootstraps,
                learning_rate,
                discount_factor,
                bootstraps.len() as int,
            ),
            forall|t: int|
                0 <= t < bootstraps.len() ==> #[trigger] rule.is_bootstrap(
                    after_updates(table, seen, bootstraps, learning_rate, discount_factor, t),
                    Some((seen[t + 1]->Step_observation, seen[t + 1]->action)),
                    bootstraps[t],
                ),
        decreases usize::MAX - steps, if running { 1int } else { 0int },
    {
        match environment.get_observation(&*agent) {
            Some(observation) => {
                let action = agent.act(&observation);
                let reward = environment.receive_action(&*agent, &action);
                let ghost step = Trajectory::Step { observation, action, reward };
                let ghost earlier = seen;
                let ghost done = bootstraps.len() as int;
                let ghost before = action_value@;
                let leaving = slide_window(
                    &mut temporal_difference,
                    lookahead,
                    Trajectory::Step { observation, action, reward },
                );
                proof {
                    seen = earlier.push(step);
                    lemma_updates_so_far(
                        table,
                        earlier,
                        bootstraps,
                        seen,
                        bootstraps,
                        learning_rate,
                        discount_factor,
                        done,
                    );
                    assert forall|t: int| 0 <= t < done implies #[trigger] rule.is_bootstrap(
                        after_updates(table, seen, bootstraps, learning_rate, discount_factor, t),
                        Some((seen[t + 1]->Step_observation, seen[t + 1]->action)),
                        bootstraps[t],
                    ) by {
                        lemma_updates_so_far(
                            table,
                            earlier,
                            bootstraps,
                            seen,
                            bootstraps,
                            learning_rate,
                            discount_factor,
                            t,
                        );
                    }
                }
                match leaving {
                    Some(past_step) => {
                        let (past_obs, past_action) = step_pair(&past_step);
                        let next_step = step_pair(&temporal_difference[0]);
                        let past_reward = step_reward(&past_step);
                        let variation = temporal_difference_policy_evaluation(
                            rule,
                            agent,
                            &mut *action_value,
                            &past_obs,
                            &past_action,
                            past_reward,
                            Some(next_step),
                            temporal_difference_configuration,
                        );
                        episode_variation = episode_variation.plus(variation);
                        proof {
                            let bootstrap = choose|bootstrap: V|
                                is_evaluation::<AC, S, V, AG, T>(
                                    *rule,
                                    before,
                                    action_value@,
                                    past_step,
                                    Some(next_step),
                                    learning_rate,
                                    discount_factor,
                                    variation,
                                    bootstrap,
                                );
                            let grown = bootstraps.push(bootstrap);
                            lemma_updates_so_far(
                                table,
                                seen,
                                bootstraps,
                                seen,
                                grown,
                                learning_rate,
                                discount_factor,
                                done,
                            );
                            assert forall|t: int|
                                0 <= t < grown.len() implies #[trigger] rule.is_bootstrap(
                                after_updates(
                                    table,
                                    seen,
                                    grown,
                                    learning_rate,
                                    discount_factor,
                                    t,
                                ),
                                Some((seen[t + 1]->Step_observation, seen[t + 1]->action)),
                                grown[t],
                            ) by {
                                lemma_updates_so_far(
                                    table,
                                    seen,
                                    bootstraps,
                                    seen,
                                    grown,
                                    learning_rate,
                                    discount_factor,
                                    t,
                                );
                            }
                            bootstraps = grown;
                        }
                    },
                    None => {},
                }
                steps = steps + 1;
            },
            None => {
                running = false;
            },
        }
    }
    let ghost waited = bootstraps.len() as int;
    while temporal_difference.len() > 0
        invariant
            table_len::<S, AC>() <= usize::MAX,
            action_value@.len() == table_len::<S, AC>(),
            learning_rate == temporal_difference_configuration.learning_rate,
            discount_factor == temporal_difference_configuration.discount_factor,
            lookahead >= 1,
            holds_steps(seen),
            0 <= waited <= bootstraps.len(),
            waited + lookahead >= seen.len(),
            bootstraps.len() + temporal_difference@.len() == seen.len(),
            temporal_difference@ == seen.subrange(bootstraps.len() as int, seen.len() as int),
            action_value@ == after_updates(
                table,
                seen,
                bootstraps,
                learning_rate,
                discount_factor,
                bootstraps.len() as int,
            ),
            episode_variation == variation_of_updates(
                table,
                seen,
                bootstraps,
                learning_rate,
                discount_factor,
                bootstraps.len() as int,
            ),
            forall|t: int|
                0 <= t < bootstraps.len() ==> #[trigger] rule.is_bootstrap(
                    after_updates(table, seen, bootstraps, learning_rate, discount_factor, t),
                    next_of(seen, lookahead as int, t),
                    bootstraps[t],
                ),
            forall|t: int|
                0 <= t < bootstraps.len() && next_of(seen, lookahead as int, t) is None
                    ==> #[trigger] bootstraps[t] == V::zero_spec(),
        decreases temporal_difference@.len(),
    {
        let ghost done = bootstraps.len() as int;
        let ghost before = action_value@;
        match temporal_difference.pop_front() {
            Some(remaining_step) => {
                let (observation, action) = step_pair(&remaining_step);
                let reward = step_reward(&remaining_step);
                let variation = temporal_difference_policy_evaluation(
                    rule,
                    agent,
                    &mut *action_value,
                    &observation,
                    &action,
                    reward,
                    None,
                    temporal_difference_configuration,
                );
                episode_variation = episode_variation.plus(variation);
                proof {
                    let bootstrap = choose|bootstrap: V|
                        is_evaluation::<AC, S, V, AG, T>(
                            *rule,
                            before,
                            action_value@,
                            remaining_step,
                            None,
                            learning_rate,
                            discount_factor,
                            variation,
                            bootstrap,
                        );
                    let grown = bootstraps.push(bootstrap);
                    lemma_updates_so_far(
                        table,
                        seen,
                        bootstraps,
                        seen,
                        grown,
                        learning_rate,
                        discount_factor,
                        done,
                    );
                    assert forall|t: int| 0 <= t < grown.len() implies #[trigger] rule.is_bootstrap(
                        after_updates(table, seen, grown, learning_rate, discount_factor, t),
                        next_of(seen, lookahead as int, t),
                        grown[t],
                    ) by {
                        lemma_updates_so_far(
                            table,
                            seen,
                            bootstraps,
                            seen,
                            grown,
                            learning_rate,
                            discount_factor,
                            t,
                        );
                    }
                    assert(forall|t: int|
                        0 <= t < grown.len() && next_of(seen, lookahead as int, t) is None
                            ==> #[trigger] grown[t] == V::zero_spec());
                    bootstraps = grown;
                }
            },
            None => {},
        }
    }
    proof {
        let episode = TemporalDifferenceEpisode { steps: seen, bootstraps };
        assert(is_learned_episode::<AC, S, V, AG, T>(
            *rule,
            table,
            action_value@,
            episode_variation,
            episode,
            lookahead as int,
            learning_rate,
            discount_factor,
        ));
    }
    episode_variation
}

/// The table after the first `played` of the episodes have been learned from,
/// one after the other.
pub open spec fn after_learned_episodes<S: DiscreteObservation, AC: DiscreteAction, V: Scalar>(
    table: Seq<V>,
    episodes: Seq<TemporalDifferenceEpisode<S, AC, V>>,
    learning_rate: V,
    discount_factor: V,
    played: int,
) -> Seq<V>
    decreases played,
{
    if played <= 0 {
        table
    } else {
        after_updates(
            after_learned_episodes(table, episodes, learning_rate, discount_factor, played - 1),
            episodes[played - 1].steps,
            episodes[played - 1].bootstraps,
            learning_rate,
            discount_factor,
            episodes[played - 1].steps.len() as int,
        )
    }
}

/// The convergence window after the first `played` of the episodes: it starts
/// empty and records the variation of each episode.
pub open spec fn window_after_learned_episodes<
    S: DiscreteObservation,
    AC: DiscreteAction,
    V: Scalar,
>(
    table: Seq<V>,
    episodes: Seq<TemporalDifferenceEpisode<S, AC, V>>,
    learning_rate: V,
    discount_factor: V,
    played: int,
) -> Seq<Option<V>>
    decreases played,
{
    if played <= 0 {
        Seq::new(CONVERGENCE_WINDOW as nat, |i: int| None::<V>)
    } else {
        window_after_learned_episodes(
            table,
            episodes,
            learning_rate,
            discount_factor,
            played - 1,
        ).subrange(1, CONVERGENCE_WINDOW as int).push(
            Some(
                variation_of_updates(
                    after_learned_episodes(
                        table,
                        episodes,
                        learning_rate,
                        discount_factor,
                        played - 1,
                    ),
                    episodes[played - 1].steps,
                    episodes[played - 1].bootstraps,
                    learning_rate,
                    discount_factor,
                    episodes[played - 1].steps.len() as int,
                ),
            ),
        )
    }
}

/// `estimate` is what a temporal-difference search under `rule` comes to for
/// the episodes that were played: the search went on while the window was no
/// plateau, every episode learned from bootstraps that the algorithm can give,
/// and the table and the window are what these episodes, learned from one
/// after the other, make of a table that is all zero.
pub open spec fn is_temporal_difference_estimate<
    AC: DiscreteAction,
    S: DiscreteObservation,
    V: Scalar,
    AG: Agent<Action = AC, Observation = S, Value = V>,
    T: TemporalDifference<AC, S, V, AG>,
>(
    rule: T,
    lookahead: int,
    learning_rate: V,
    discount_factor: V,
    estimate: Estimate<V>,
    episodes: Seq<TemporalDifferenceEpisode<S, AC, V>>,
) -> bool {
    let start = Seq::new(table_len::<S, AC>() as nat, |i: int| V::zero_spec());
    &&& episodes.len() == estimate.episodes
    &&& forall|e: int|
        0 <= e < episodes.len() ==> is_sound_episode::<AC, S, V, AG, T>(
            rule,
            after_learned_episodes(start, episodes, learning_rate, discount_factor, e),
            #[trigger] episodes[e],
            lookahead,
            learning_rate,
            discount_factor,
        )
    &&& forall|e: int|
        0 <= e < episodes.len() ==> !is_plateau(
            #[trigger] window_after_learned_episodes(
                start,
                episodes,
                learning_rate,
                discount_factor,
                e,
            ),
        )
    &&& estimate.action_values@ == after_learned_episodes(
        start,
        episodes,
        learning_rate,
        discount_factor,
        episodes.len() as int,
    )
    &&& estimate.variations@ == window_after_learned_episodes(
        start,
        episodes,
        learning_rate,
        discount_factor,
        episodes.len() as int,
    )
}

/// What the first episodes make of the table does not depend on the episodes
/// that come after them.
pub proof fn lemma_learned_episodes_so_far<
    S: DiscreteObservation,
    AC: DiscreteAction,
    V: Scalar,
>(
    table: Seq<V>,
    episodes: Seq<TemporalDifferenceEpisode<S, AC, V>>,
    longer: Seq<TemporalDifferenceEpisode<S, AC, V>>,
    learning_rate: V,
    discount_factor: V,
    played: int,
)
    requires
        0 <= played <= episodes.len() <= longer.len(),
        forall|e: int| 0 <= e < episodes.len() ==> #[trigger] episodes[e] == longer[e],
    ensures
        after_learned_episodes(table, longer, learning_rate, discount_factor, played)
            == after_learned_episodes(table, episodes, learning_rate, discount_factor, played),
        window_after_learned_episodes(table, longer, learning_rate, discount_factor, played)
            == window_after_learned_episodes(
            table,
            episodes,
            learning_rate,
            discount_factor,
            played,
        ),
    decreases played,
{
    if played > 0 {
        lemma_learned_episodes_so_far(
            table,
            episodes,
            longer,
            learning_rate,
            discount_factor,
            played - 1,
        );
    }
}

/// Searches for a policy by temporal-difference estimation under `rule`.
///
/// Episode after episode, up to the episode limit and no further than the
/// plateau of the last few: each episode is played and learned from on the
/// way, and the sum of the squared changes it made goes into the window.
pub fn temporal_difference_policy_search<AC, S, V, AG, E, T>(
    rule: &T,
    environment: &mut E,
    agent: &mut AG,
    temporal_difference_configuration: &TemporalDifferenceConfiguration<V>,
) -> (estimate: Estimate<V>) where
    AC: DiscreteAction,
    S: DiscreteObservation,
    V: Scalar,
    AG: Agent<Action = AC, Observation = S, Value = V>,
    E: EpisodicEnvironment<Agent = AG>,
    T: TemporalDifference<AC, S, V, AG>,

    requires
        table_len::<S, AC>() <= usize::MAX,
        temporal_difference_configuration.temporal_difference_step >= 1,
    ensures
        estimate.episodes <= temporal_difference_configuration.episode_limit,
        estimate.converged == is_plateau(estimate.variations@),
        estimate.converged || estimate.episodes == temporal_difference_configuration.episode_limit,
        estimate.action_values@.len() == table_len::<S, AC>(),
        estimate.visit_count@.len() == 0,
        exists|episodes: Seq<TemporalDifferenceEpisode<S, AC, V>>| #[trigger]
            is_temporal_difference_estimate::<AC, S, V, AG, T>(
                *rule,
                temporal_difference_configuration.temporal_difference_step as int,
                temporal_difference_configuration.learning_rate,
                temporal_difference_configuration.discount_factor,
                estimate,
                episodes,
            ),
{
    let len = S::count() * AC::count();
    let zero = V::zero();
    let mut action_value: Vec<V> = Vec::new();
    let mut i: usize = 0;
    while i < len
        invariant
            0 <= i <= len,
            zero == V::zero_spec(),
            action_value@.len() == i,
            forall|k: int| 0 <= k < i ==> #[trigger] action_value@[k] == zero,
        decreases len - i,
    {
        action_value.push(zero);
        i = i + 1;
    }
    let mut episode: usize = 0;
    let mut window: ConvergenceWindow<V> = ConvergenceWindow::new();
    let ghost start = action_value@;
    let ghost lookahead = temporal_difference_configuration.temporal_difference_step as int;
    let ghost learning_rate = temporal_difference_configuration.learning_rate;
    let ghost discount_factor = temporal_difference_configuration.discount_factor;
    let ghost mut episodes: Seq<TemporalDifferenceEpisode<S, AC, V>> = Seq::empty();
    while search_goes_on(&window, episode, temporal_difference_configuration.episode_limit)
        invariant
            table_len::<S, AC>() <= usize::MAX,
            action_value@.len() == table_len::<S, AC>(),
            temporal_difference_configuration.temporal_difference_step >= 1,
            lookahead == temporal_difference_configuration.temporal_difference_step,
            learning_rate == temporal_difference_configuration.learning_rate,
            discount_factor == temporal_difference_configuration.discount_factor,
            episode <= temporal_difference_configuration.episode_limit,
            start == Seq::new(table_len::<S, AC>() as nat, |i: int| V::zero_spec()),
            episodes.len() == episode,
            forall|e: int|
                0 <= e < episodes.len() ==> is_sound_episode::<AC, S, V, AG, T>(
                    *rule,
                    after_learned_episodes(start, episodes, learning_rate, discount_factor, e),
                    #[trigger] episodes[e],
                    lookahead,
                    learning_rate,
                    discount_factor,
                ),
            forall|e: int|
                0 <= e < episodes.len() ==> !is_plateau(
                    #[trigger] window_after_learned_episodes(
                        start,
                        episodes,
                        learning_rate,
                        discount_factor,
                        e,
                    ),
                ),
            action_value@ == after_learned_episodes(
                start,
                episodes,
                learning_rate,
                discount_factor,
                episode as int,
            ),
            window@ == window_after_learned_episodes(
                start,
                episodes,
                learning_rate,
                discount_factor,
                episode as int,
            ),
        decreases temporal_difference_configuration.episode_limit - episode,
    {
        let ghost before = action_value@;
        let ghost earlier = episodes;
        let episode_variation = temporal_difference_episode(
            rule,
            environment,
            agent,
            &mut action_value,
            temporal_difference_configuration,
        );
        window.record(episode_variation);
        proof {
            let played = choose|played: TemporalDifferenceEpisode<S, AC, V>|
                is_learned_episode::<AC, S, V, AG, T>(
                    *rule,
                    before,
                    action_value@,
                    episode_variation,
                    played,
                    lookahead,
                    learning_rate,
                    discount_factor,
                );
            episodes = earlier.push(played);
            assert forall|e: int| 0 <= e <= earlier.len() implies after_learned_episodes(
                start,
                episodes,
                learning_rate,
                discount_factor,
                e,
            ) == after_learned_episodes(start, earlier, learning_rate, discount_factor, e)
                && #[trigger] window_after_learned_episodes(
                start,
                episodes,
                learning_rate,
                discount_factor,
                e,
            ) == window_after_learned_episodes(
                start,
                earlier,
                learning_rate,
                discount_factor,
                e,
            ) by {
                lemma_learned_episodes_so_far(
                    start,
                    earlier,
                    episodes,
                    learning_rate,
                    discount_factor,
                    e,
                );
            }
            assert forall|e: int| 0 <= e < episodes.len() implies is_sound_episode::<
                AC,
                S,
                V,
                AG,
                T,
            >(
                *rule,
                after_learned_episodes(start, episodes, learning_rate, discount_factor, e),
                #[trigger] episodes[e],
                lookahead,
                learning_rate,
                discount_factor,
            ) by {
                lemma_learned_episodes_so_far(
                    start,
                    earlier,
                    episodes,
                    learning_rate,
                    discount_factor,
                    e,
                );
            }
            lemma_learned_episodes_so_far(
                start,
                earlier,
                episodes,
                learning_rate,
                discount_factor,
                episode as int,
            );
        }
        episode = episode + 1;
    }
    let converged = window.has_converged();
    let estimate = Estimate {
        episodes: episode,
        action_values: action_value,
        visit_count: Vec::new(),
        converged,
        variations: window,
    };
    proof {
        assert(is_temporal_difference_estimate::<AC, S, V, AG, T>(
            *rule,
            lookahead,
            learning_rate,
            discount_factor,
            estimate,
            episodes,
        ));
    }
    estimate
}

} // verus!
