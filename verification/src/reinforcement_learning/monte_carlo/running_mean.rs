//! The running mean of the returns of a pair, and when it is their arithmetic
//! mean.
use crate::action::DiscreteAction;
use crate::fixed::{signed_quotient, Fixed, SCALE};
use crate::observation::DiscreteObservation;
use crate::reinforcement_learning::monte_carlo::{
    after_steps, incremental_step, mean_step, MonteCarlo, MonteCarloTables,
};
use crate::reinforcement_learning::{step_place, table_len};
use crate::scalar::Scalar;
use crate::trajectory::Trajectory;
use vstd::arithmetic::div_mod::{lemma_div_multiples_vanish, lemma_fundamental_div_mod};
use vstd::prelude::*;

verus! {

/// The value of a pair after its first `visits` visits, where it started from
/// `start` with no visit counted and its `k`-th visit was followed by the
/// return `step_returns[k - 1]`.
pub open spec fn running_value<
    AC: DiscreteAction,
    S: DiscreteObservation,
    V: Scalar,
    M: MonteCarlo<AC, S, V>,
>(rule: M, start: V, step_returns: Seq<V>, visits: nat) -> V
    decreases visits,
{
    if visits == 0 {
        start
    } else {
        rule.learned_value(
            running_value::<AC, S, V, M>(rule, start, step_returns, (visits - 1) as nat),
            visits as usize,
            step_returns[visits - 1],
        )
    }
}

/// The sum of the first `terms` values, added up from zero in their order.
pub open spec fn total<V: Scalar>(values: Seq<V>, terms: nat) -> V
    decreases terms,
{
    if terms == 0 {
        V::zero_spec()
    } else {
        total(values, (terms - 1) as nat).plus_spec(values[terms - 1])
    }
}

/// The arithmetic mean of the first `terms` values: their sum over their number.
pub open spec fn arithmetic_mean<V: Scalar>(values: Seq<V>, terms: nat) -> V {
    total(values, terms).over_spec(V::from_count_spec(terms as usize))
}

/// A visit loses nothing to rounding: it takes the mean of the returns so far
/// to the mean of the returns with the new one.
pub open spec fn visit_is_exact<
    AC: DiscreteAction,
    S: DiscreteObservation,
    V: Scalar,
    M: MonteCarlo<AC, S, V>,
>(rule: M, start: V, step_returns: Seq<V>, visit: nat) -> bool {
    rule.learned_value(
        if visit == 1 {
            start
        } else {
            arithmetic_mean(step_returns, (visit - 1) as nat)
        },
        visit as usize,
        step_returns[visit - 1],
    ) == arithmetic_mean(step_returns, visit)
}

/// The running mean is the arithmetic mean: after `visits` visits the value of
/// a pair is the sum of the returns that followed them over their number,
/// provided that no visit lost anything to rounding.
pub proof fn lemma_running_mean_is_arithmetic_mean<
    AC: DiscreteAction,
    S: DiscreteObservation,
    V: Scalar,
    M: MonteCarlo<AC, S, V>,
>(rule: M, start: V, step_returns: Seq<V>, visits: nat)
    requires
        1 <= visits <= step_returns.len(),
        forall|visit: nat|
            1 <= visit <= visits ==> #[trigger] visit_is_exact::<AC, S, V, M>(
                rule,
                start,
                step_returns,
                visit,
            ),
    ensures
        running_value::<AC, S, V, M>(rule, start, step_returns, visits) == arithmetic_mean(
            step_returns,
            visits,
        ),
    decreases visits,
{
    assert(visit_is_exact::<AC, S, V, M>(rule, start, step_returns, visits));
    if visits > 1 {
        lemma_running_mean_is_arithmetic_mean::<AC, S, V, M>(
            rule,
            start,
            step_returns,
            (visits - 1) as nat,
        );
    } else {
        assert(running_value::<AC, S, V, M>(rule, start, step_returns, 0) == start);
    }
}

/// An episode whose steps all meet the pair at `place` takes the value there
/// through its running values: without first-visit gating, and counted from no
/// visit, the value after the episode is the running value after as many
/// visits as the episode has steps.
pub proof fn lemma_visits_run<
    AC: DiscreteAction,
    S: DiscreteObservation,
    V: Scalar,
    M: MonteCarlo<AC, S, V>,
>(
    rule: M,
    before: MonteCarloTables<V>,
    trajectory: Seq<Trajectory<S, AC, V>>,
    step_returns: Seq<V>,
    steps: int,
    place: int,
)
    requires
        !rule.first_visit_only(),
        before.well_formed(table_len::<S, AC>()),
        0 <= place < table_len::<S, AC>(),
        before.visit_count[place] == 0,
        0 <= steps <= trajectory.len(),
        steps < usize::MAX,
        forall|t: int| 0 <= t < steps ==> #[trigger] step_place(trajectory[t]) == place,
    ensures
        ({
            let after = after_steps::<AC, S, V, M>(rule, before, trajectory, step_returns, steps);
            &&& after.well_formed(table_len::<S, AC>())
            &&& after.visit_count[place] == steps
            &&& after.observation_values[place] == running_value::<AC, S, V, M>(
                rule,
                before.observation_values[place],
                step_returns,
                steps as nat,
            )
        }),
    decreases steps,
{
    if steps > 0 {
        lemma_visits_run::<AC, S, V, M>(rule, before, trajectory, step_returns, steps - 1, place);
    }
}

/// The largest size, in millionths, of a return whose means are followed here.
pub const MEAN_BOUND: i64 = 1_000_000_000_000;

/// The largest number of visits whose means are followed here.
pub const MEAN_VISITS: usize = 1_000_000;

/// The sum of the first `terms` fixed-point values, in millionths, as it is
/// without the carrier's limits.
pub open spec fn raw_total(values: Seq<Fixed>, terms: nat) -> int
    decreases terms,
{
    if terms == 0 {
        0
    } else {
        raw_total(values, (terms - 1) as nat) + values[terms - 1].raw
    }
}

/// None of the first `terms` values is larger in size than `MEAN_BOUND`.
pub open spec fn moderate(values: Seq<Fixed>, terms: nat) -> bool {
    forall|i: int| 0 <= i < terms ==> -MEAN_BOUND <= (#[trigger] values[i]).raw <= MEAN_BOUND
}

/// The mean of the first `k` values is a number of the carrier, for every `k`
/// from one to `terms`: each of these sums divides by the number of its terms.
pub open spec fn means_are_whole(values: Seq<Fixed>, terms: nat) -> bool {
    forall|k: nat| 1 <= k <= terms ==> #[trigger] raw_total(values, k) % (k as int) == 0
}

proof fn lemma_raw_total_is_moderate(values: Seq<Fixed>, terms: nat)
    requires
        terms <= values.len(),
        moderate(values, terms),
    ensures
        -terms * MEAN_BOUND <= raw_total(values, terms) <= terms * MEAN_BOUND,
    decreases terms,
{
    if terms > 0 {
        lemma_raw_total_is_moderate(values, (terms - 1) as nat);
    }
}

proof fn lemma_fixed_total(values: Seq<Fixed>, terms: nat)
    requires
        terms <= values.len(),
        terms <= MEAN_VISITS,
        moderate(values, terms),
    ensures
        total(values, terms).raw == raw_total(values, terms),
    decreases terms,
{
    if terms > 0 {
        lemma_fixed_total(values, (terms - 1) as nat);
        lemma_raw_total_is_moderate(values, (terms - 1) as nat);
        lemma_raw_total_is_moderate(values, terms);
    }
}

proof fn lemma_quotient_of_multiple(quotient: int, count: int)
    requires
        1 <= count,
    ensures
        signed_quotient((count * quotient) * SCALE, count * SCALE) == quotient,
{
    let divisor = count * SCALE;
    assert(divisor > 0) by (nonlinear_arith)
        requires
            divisor == count * SCALE,
            count >= 1,
            SCALE == 1_000_000,
    ;
    assert((count * quotient) * SCALE == divisor * quotient) by (nonlinear_arith)
        requires
            divisor == count * SCALE,
    ;
    assert(-(divisor * quotient) == divisor * (-quotient)) by (nonlinear_arith);
    lemma_div_multiples_vanish(quotient, divisor);
    lemma_div_multiples_vanish(-quotient, divisor);
}

proof fn lemma_fixed_mean(values: Seq<Fixed>, terms: nat)
    requires
        1 <= terms <= values.len(),
        terms <= MEAN_VISITS,
        moderate(values, terms),
        raw_total(values, terms) % (terms as int) == 0,
    ensures
        arithmetic_mean(values, terms).raw * terms == raw_total(values, terms),
        -MEAN_BOUND <= arithmetic_mean(values, terms).raw <= MEAN_BOUND,
{
    let sum = raw_total(values, terms);
    let count = terms as int;
    let mean = sum / count;
    lemma_fixed_total(values, terms);
    lemma_raw_total_is_moderate(values, terms);
    lemma_fundamental_div_mod(sum, count);
    assert(-MEAN_BOUND <= mean <= MEAN_BOUND) by (nonlinear_arith)
        requires
            sum == count * mean,
            count >= 1,
            -count * MEAN_BOUND <= sum <= count * MEAN_BOUND,
    ;
    lemma_quotient_of_multiple(mean, count);
    assert(mean * count == sum) by (nonlinear_arith)
        requires
            sum == count * mean,
    ;
}

proof fn lemma_fixed_mean_step(value: Fixed, visits: nat, step_return: Fixed, change: int)
    requires
        1 <= visits <= MEAN_VISITS,
        -MEAN_BOUND <= value.raw <= MEAN_BOUND,
        -MEAN_BOUND <= step_return.raw <= MEAN_BOUND,
        step_return.raw - value.raw == visits * change,
    ensures
        mean_step(value, visits as usize, step_return).raw == value.raw + change,
{
    let count = visits as int;
    assert(-2 * MEAN_BOUND <= change <= 2 * MEAN_BOUND) by (nonlinear_arith)
        requires
            -2 * MEAN_BOUND <= count * change <= 2 * MEAN_BOUND,
            count >= 1,
            MEAN_BOUND >= 0,
    ;
    lemma_quotient_of_multiple(change, count);
}

/// The mean of the returns before the `visit`-th visit, where the value of the
/// pair started from `start`.
pub open spec fn mean_before(start: Fixed, step_returns: Seq<Fixed>, visit: nat) -> Fixed {
    if visit == 1 {
        start
    } else {
        arithmetic_mean(step_returns, (visit - 1) as nat)
    }
}

proof fn lemma_fixed_mean_moves(start: Fixed, step_returns: Seq<Fixed>, visit: nat) -> (change: int)
    requires
        1 <= visit <= step_returns.len(),
        visit <= MEAN_VISITS,
        -MEAN_BOUND <= start.raw <= MEAN_BOUND,
        moderate(step_returns, visit),
        means_are_whole(step_returns, visit),
    ensures
        -MEAN_BOUND <= mean_before(start, step_returns, visit).raw <= MEAN_BOUND,
        -MEAN_BOUND <= step_returns[visit - 1].raw <= MEAN_BOUND,
        step_returns[visit - 1].raw - mean_before(start, step_returns, visit).raw == visit
            * change,
        arithmetic_mean(step_returns, visit).raw == mean_before(start, step_returns, visit).raw
            + change,
{
    let mean = arithmetic_mean(step_returns, visit);
    let step_return = step_returns[visit - 1];
    lemma_fixed_mean(step_returns, visit);
    if visit == 1 {
        assert(raw_total(step_returns, 1) == raw_total(step_returns, 0) + step_returns[0].raw);
        step_return.raw - start.raw
    } else {
        let earlier = (visit - 1) as nat;
        let before = arithmetic_mean(step_returns, earlier);
        lemma_fixed_mean(step_returns, earlier);
        assert(step_return.raw - before.raw == visit * (mean.raw - before.raw)) by (nonlinear_arith)
            requires
                mean.raw * visit == raw_total(step_returns, visit),
                before.raw * earlier == raw_total(step_returns, earlier),
                raw_total(step_returns, visit) == raw_total(step_returns, earlier)
                    + step_return.raw,
                earlier == visit - 1,
        ;
        mean.raw - before.raw
    }
}

proof fn lemma_fixed_incremental_step(value: Fixed, visits: nat, step_return: Fixed, change: int)
    requires
        1 <= visits <= MEAN_VISITS,
        -MEAN_BOUND <= value.raw <= MEAN_BOUND,
        -MEAN_BOUND <= step_return.raw <= MEAN_BOUND,
        step_return.raw - value.raw == visits * change,
        (SCALE as int) % (visits as int) == 0 || change == 0,
    ensures
        incremental_step(value, visits as usize, step_return).raw == value.raw + change,
{
    let count = visits as int;
    let share = Fixed::one_spec().over_spec(Fixed::from_count_spec(visits as usize));
    assert(-2 * MEAN_BOUND <= change <= 2 * MEAN_BOUND) by (nonlinear_arith)
        requires
            -2 * MEAN_BOUND <= count * change <= 2 * MEAN_BOUND,
            count >= 1,
            MEAN_BOUND >= 0,
    ;
    if change == 0 {
        assert(share.raw * 0 == 0);
    } else {
        let part = (SCALE as int) / count;
        lemma_fundamental_div_mod(SCALE as int, count);
        lemma_quotient_of_multiple(part, count);
        assert(part * (count * change) == SCALE * change) by (nonlinear_arith)
            requires
                SCALE == count * part,
        ;
        assert(-(SCALE * change) == SCALE * (-change)) by (nonlinear_arith);
        lemma_div_multiples_vanish(change, SCALE as int);
        lemma_div_multiples_vanish(-change, SCALE as int);
    }
}

/// In fixed-point arithmetic a visit that moves the mean on by one return
/// loses nothing to rounding where the mean of the returns so far and the mean
/// with the new return are both numbers of the carrier, and the returns are
/// moderate in size and number.
pub proof fn lemma_fixed_visit_is_exact(start: Fixed, step_returns: Seq<Fixed>, visit: nat)
    requires
        1 <= visit <= step_returns.len(),
        visit <= MEAN_VISITS,
        -MEAN_BOUND <= start.raw <= MEAN_BOUND,
        moderate(step_returns, visit),
        means_are_whole(step_returns, visit),
    ensures
        mean_step(mean_before(start, step_returns, visit), visit as usize, step_returns[visit - 1])
            == arithmetic_mean(step_returns, visit),
{
    let change = lemma_fixed_mean_moves(start, step_returns, visit);
    lemma_fixed_mean_step(
        mean_before(start, step_returns, visit),
        visit,
        step_returns[visit - 1],
        change,
    );
}

/// The step size of the `k`-th visit is a number of the carrier, or that
/// visit has nothing to move, for every `k` from one to `visits`: `k` divides
/// a million, or the return is the mean so far.
pub open spec fn shares_are_whole(start: Fixed, step_returns: Seq<Fixed>, visits: nat) -> bool {
    forall|k: nat|
        1 <= k <= visits ==> (SCALE as int) % (k as int) == 0 || step_returns[k - 1]
            == #[trigger] mean_before(start, step_returns, k)
}

/// In fixed-point arithmetic a visit that moves the value by the step size one
/// over the visits loses nothing to rounding where, on top of the means, the
/// step size is a number of the carrier or the visit has nothing to move.
pub proof fn lemma_fixed_incremental_visit_is_exact(
    start: Fixed,
    step_returns: Seq<Fixed>,
    visit: nat,
)
    requires
        1 <= visit <= step_returns.len(),
        visit <= MEAN_VISITS,
        -MEAN_BOUND <= start.raw <= MEAN_BOUND,
        moderate(step_returns, visit),
        means_are_whole(step_returns, visit),
        (SCALE as int) % (visit as int) == 0 || step_returns[visit - 1] == mean_before(
            start,
            step_returns,
            visit,
        ),
    ensures
        incremental_step(
            mean_before(start, step_returns, visit),
            visit as usize,
            step_returns[visit - 1],
        ) == arithmetic_mean(step_returns, visit),
{
    let change = lemma_fixed_mean_moves(start, step_returns, visit);
    if (SCALE as int) % (visit as int) != 0 {
        assert(change == 0) by (nonlinear_arith)
            requires
                visit * change == 0,
                visit >= 1,
        ;
    }
    lemma_fixed_incremental_step(
        mean_before(start, step_returns, visit),
        visit,
        step_returns[visit - 1],
        change,
    );
}

/// In fixed-point arithmetic the running mean is the arithmetic mean where
/// every mean on the way is a number of the carrier: under a rule that moves
/// the mean on by one return at each visit, the value after `visits` visits is
/// the sum of the returns over their number, provided that the returns are
/// moderate in size and number.
pub proof fn lemma_fixed_running_mean<
    AC: DiscreteAction,
    S: DiscreteObservation,
    M: MonteCarlo<AC, S, Fixed>,
>(rule: M, start: Fixed, step_returns: Seq<Fixed>, visits: nat)
    requires
        forall|value: Fixed, count: usize, step_return: Fixed| #[trigger]
            rule.learned_value(value, count, step_return) == mean_step(value, count, step_return),
        1 <= visits <= step_returns.len(),
        visits <= MEAN_VISITS,
        -MEAN_BOUND <= start.raw <= MEAN_BOUND,
        moderate(step_returns, visits),
        means_are_whole(step_returns, visits),
    ensures
        running_value::<AC, S, Fixed, M>(rule, start, step_returns, visits) == arithmetic_mean(
            step_returns,
            visits,
        ),
        arithmetic_mean(step_returns, visits).raw * visits == raw_total(step_returns, visits),
{
    assert forall|visit: nat| 1 <= visit <= visits implies #[trigger] visit_is_exact::<
        AC,
        S,
        Fixed,
        M,
    >(rule, start, step_returns, visit) by {
        lemma_fixed_visit_is_exact(start, step_returns, visit);
    }
    lemma_running_mean_is_arithmetic_mean::<AC, S, Fixed, M>(rule, start, step_returns, visits);
    lemma_fixed_mean(step_returns, visits);
}

/// In fixed-point arithmetic the running mean of the incremental rule is the
/// arithmetic mean where every mean on the way is a number of the carrier and
/// every step size is one as well, or has nothing to move: the value after
/// `visits` visits is the sum of the returns over their number, provided that
/// the returns are moderate in size and number.
pub proof fn lemma_fixed_incremental_running_mean<
    AC: DiscreteAction,
    S: DiscreteObservation,
    M: MonteCarlo<AC, S, Fixed>,
>(rule: M, start: Fixed, step_returns: Seq<Fixed>, visits: nat)
    requires
        forall|value: Fixed, count: usize, step_return: Fixed| #[trigger]
            rule.learned_value(value, count, step_return) == incremental_step(
                value,
                count,
                step_return,
            ),
        1 <= visits <= step_returns.len(),
        visits <= MEAN_VISITS,
        -MEAN_BOUND <= start.raw <= MEAN_BOUND,
        moderate(step_returns, visits),
        means_are_whole(step_returns, visits),
        shares_are_whole(start, step_returns, visits),
    ensures
        running_value::<AC, S, Fixed, M>(rule, start, step_returns, visits) == arithmetic_mean(
            step_returns,
            visits,
        ),
        arithmetic_mean(step_returns, visits).raw * visits == raw_total(step_returns, visits),
{
    assert forall|visit: nat| 1 <= visit <= visits implies #[trigger] visit_is_exact::<
        AC,
        S,
        Fixed,
        M,
    >(rule, start, step_returns, visit) by {
        lemma_fixed_incremental_visit_is_exact(start, step_returns, visit);
    }
    lemma_running_mean_is_arithmetic_mean::<AC, S, Fixed, M>(rule, start, step_returns, visits);
    lemma_fixed_mean(step_returns, visits);
}

} // verus!
