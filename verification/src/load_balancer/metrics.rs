//! The statistics that the load balancer keeps, and the weights that it derives
//! from them.

use crate::load_balancer::balancing_strategy::BalancingStrategy;
use crate::load_balancer::server::{LoadBalancerError, WorkerView};
use crate::outside::{
    is_distribution, read_weights, refusal_text, total_weight, weighted_distribution,
    WeightedDistribution,
};
use vstd::prelude::*;

verus! {

/// A counter after one more event. Counters start over after `u64::MAX`.
pub open spec fn counted(counter: u64) -> u64 {
    if counter == u64::MAX {
        0
    } else {
        (counter + 1) as u64
    }
}

/// What the load balancer has counted for one worker.
#[derive(Debug, Clone, Copy, PartialEq, Eq, Structural)]
pub struct WorkerStatistics {
    pub nb_requests_sent: u64,
    pub nb_requests_handled: u64,
    pub nb_error_status_received: u64,
}

impl Default for WorkerStatistics {
    fn default() -> (stats: WorkerStatistics)
        ensures
            stats == WorkerStatistics::zero(),
    {
        WorkerStatistics {
            nb_requests_sent: 0,
            nb_requests_handled: 0,
            nb_error_status_received: 0,
        }
    }
}

impl WorkerStatistics {
    pub open spec fn zero() -> WorkerStatistics {
        WorkerStatistics {
            nb_requests_sent: 0,
            nb_requests_handled: 0,
            nb_error_status_received: 0,
        }
    }

    /// How many requests the worker is handling.
    pub open spec fn active(self) -> int {
        self.nb_requests_sent - self.nb_requests_handled
    }

    /// Whether no more errors are counted than requests that the worker handled.
    /// Before the first of these nothing is asked.
    pub open spec fn has_error_ratio(self) -> bool {
        self.nb_requests_handled == 0 || self.nb_error_status_received <= self.nb_requests_handled
    }

    /// The weight that the errors of the worker leave it: the percentage of its
    /// requests that were handled without an error, in whole numbers, and one more.
    /// A worker that has not handled any request has the default weight.
    pub open spec fn weight(self) -> u64 {
        if self.nb_requests_handled == 0 {
            1
        } else {
            ((self.nb_requests_handled - self.nb_error_status_received) * 100
                / self.nb_requests_handled as int + 1) as u64
        }
    }

    /// The weight that the errors of the worker leave it.
    pub fn error_weight(&self) -> (weight: u64)
        requires
            self.has_error_ratio(),
        ensures
            weight == self.weight(),
            1 <= weight <= 101,
    {
        let nb_requests: u64 = self.nb_requests_handled;
        let nb_errors: u64 = self.nb_error_status_received;
        if nb_requests == 0 {
            1
        } else {
            proof {
                lemma_percentage(nb_requests as int, nb_errors as int);
            }
            // The + 1 keeps a worker in play that fails from its first request on.
            ((nb_requests - nb_errors) as u128 * 100 / nb_requests as u128 + 1) as u64
        }
    }
}

/// The percentage of requests without an error, in whole numbers.
spec fn percentage(nb_requests: int, nb_errors: int) -> int {
    (nb_requests - nb_errors) * 100 / nb_requests
}

/// What a percentage in whole numbers leaves of the exact one.
proof fn lemma_percentage(nb_requests: int, nb_errors: int)
    requires
        0 <= nb_errors <= nb_requests,
        0 < nb_requests,
    ensures
        0 <= percentage(nb_requests, nb_errors) <= 100,
        percentage(nb_requests, nb_errors) * nb_requests <= (nb_requests - nb_errors) * 100,
        (nb_requests - nb_errors) * 100 < (percentage(nb_requests, nb_errors) + 1) * nb_requests,
{
    let share = (nb_requests - nb_errors) * 100;
    let whole = percentage(nb_requests, nb_errors);
    vstd::arithmetic::div_mod::lemma_fundamental_div_mod(share, nb_requests);
    assert(whole * nb_requests <= share < (whole + 1) * nb_requests) by (nonlinear_arith)
        requires
            share == nb_requests * whole + share % nb_requests,
            0 <= share % nb_requests < nb_requests,
    ;
    assert(0 <= whole <= 100) by (nonlinear_arith)
        requires
            whole * nb_requests <= share < (whole + 1) * nb_requests,
            0 <= share <= nb_requests * 100,
            0 < nb_requests,
    ;
}

/// Where the exact percentages of two workers lie `gap` or more apart, so do the
/// whole ones. A negative gap bounds how far the second may lie above the first.
proof fn lemma_percentages_apart(
    nb_requests: int,
    nb_errors: int,
    other_requests: int,
    other_errors: int,
    gap: int,
)
    requires
        0 <= nb_errors <= nb_requests,
        0 < nb_requests,
        0 <= other_errors <= other_requests,
        0 < other_requests,
        (other_errors * nb_requests - nb_errors * other_requests) * 100 >= gap * (nb_requests
            * other_requests),
    ensures
        percentage(nb_requests, nb_errors) >= percentage(other_requests, other_errors) + gap,
{
    lemma_percentage(nb_requests, nb_errors);
    lemma_percentage(other_requests, other_errors);
    let product = nb_requests * other_requests;
    let whole = percentage(nb_requests, nb_errors);
    let other_whole = percentage(other_requests, other_errors);
    let share = (nb_requests - nb_errors) * 100 * other_requests;
    let other_share = (other_requests - other_errors) * 100 * nb_requests;
    assert(share < (whole + 1) * product) by (nonlinear_arith)
        requires
            share == (nb_requests - nb_errors) * 100 * other_requests,
            (nb_requests - nb_errors) * 100 < (whole + 1) * nb_requests,
            product == nb_requests * other_requests,
            0 < other_requests,
    ;
    assert(other_whole * product <= other_share) by (nonlinear_arith)
        requires
            other_share == (other_requests - other_errors) * 100 * nb_requests,
            other_whole * other_requests <= (other_requests - other_errors) * 100,
            product == nb_requests * other_requests,
            0 < nb_requests,
    ;
    assert(share - other_share == (other_errors * nb_requests - nb_errors * other_requests) * 100)
        by (nonlinear_arith)
        requires
            share == (nb_requests - nb_errors) * 100 * other_requests,
            other_share == (other_requests - other_errors) * 100 * nb_requests,
    ;
    assert(other_whole + gap < whole + 1) by (nonlinear_arith)
        requires
            share < (whole + 1) * product,
            other_whole * product <= other_share,
            share - other_share >= gap * product,
            product == nb_requests * other_requests,
            0 < nb_requests,
            0 < other_requests,
    ;
}

/// The weights of a list of workers.
pub open spec fn weights_by_errors(workers: Seq<WorkerView>) -> Seq<u64> {
    Seq::new(workers.len(), |i: int| workers[i].stats.weight())
}

/// The weights of a list of workers.
pub fn error_weights(workers: &Vec<WorkerView>) -> (weights: Vec<u64>)
    requires
        forall|i: int| 0 <= i < workers@.len() ==> (#[trigger] workers@[i]).stats.has_error_ratio(),
    ensures
        weights@ == weights_by_errors(workers@),
{
    let mut weights: Vec<u64> = Vec::new();
    let mut i: usize = 0;
    while i < workers.len()
        invariant
            i <= workers@.len(),
            forall|j: int|
                0 <= j < workers@.len() ==> (#[trigger] workers@[j]).stats.has_error_ratio(),
            weights@ == weights_by_errors(workers@).take(i as int),
        decreases workers@.len() - i,
    {
        weights.push(workers[i].stats.error_weight());
        i += 1;
    }
    weights
}

/// What the load balancer has counted for itself, and the weights of its workers.
#[derive(Debug)]
pub struct LoadBalancerStats {
    pub nb_requests_received: u64,
    pub nb_errors: u64,
    /// Weight given to each worker. There is none as long as there are no workers.
    pub workers_weight: Option<WeightedDistribution>,
}

impl Default for LoadBalancerStats {
    fn default() -> (stats: LoadBalancerStats)
        ensures
            stats.nb_requests_received == 0,
            stats.nb_errors == 0,
            stats.weights() == Seq::<u64>::empty(),
    {
        LoadBalancerStats { nb_requests_received: 0, nb_errors: 0, workers_weight: None }
    }
}

/// A list of ones sums up to its length.
proof fn lemma_total_of_ones(weights: Seq<u64>)
    requires
        forall|i: int| 0 <= i < weights.len() ==> weights[i] == 1,
    ensures
        total_weight(weights) == weights.len(),
    decreases weights.len(),
{
    if weights.len() > 0 {
        lemma_total_of_ones(weights.drop_last());
    }
}

/// A list of positive weights sums up to no less than its length.
proof fn lemma_total_of_positive(weights: Seq<u64>)
    requires
        forall|i: int| 0 <= i < weights.len() ==> weights[i] > 0,
    ensures
        total_weight(weights) >= weights.len(),
    decreases weights.len(),
{
    if weights.len() > 0 {
        lemma_total_of_positive(weights.drop_last());
    }
}

impl LoadBalancerStats {
    /// The weights of the workers, in the order of the workers.
    pub open spec fn weights(self) -> Seq<u64> {
        match self.workers_weight {
            Some(distribution) => distribution@,
            None => Seq::empty(),
        }
    }

    /// The statistics of a load balancer over a number of workers, all of the
    /// same weight.
    pub fn new(nb_workers: usize) -> (stats: LoadBalancerStats)
        requires
            nb_workers > 0,
        ensures
            stats.nb_requests_received == 0,
            stats.nb_errors == 0,
            stats.weights() == Seq::new(nb_workers as nat, |i: int| 1u64),
    {
        let weights: Vec<u64> = vec![1u64; nb_workers];
        proof {
            lemma_total_of_ones(weights@);
            assert(weights@ =~= Seq::new(nb_workers as nat, |i: int| 1u64));
        }
        let workers_weight: Option<WeightedDistribution> = match weighted_distribution(weights) {
            Ok(distribution) => Some(distribution),
            Err(_) => None,
        };
        LoadBalancerStats { nb_requests_received: 0, nb_errors: 0, workers_weight }
    }

    /// The statistics of a load balancer over a list of workers that may be empty.
    pub fn for_workers(nb_workers: usize) -> (stats: LoadBalancerStats)
        ensures
            stats.nb_requests_received == 0,
            stats.nb_errors == 0,
            stats.weights() == Seq::new(nb_workers as nat, |i: int| 1u64),
    {
        if nb_workers == 0 {
            LoadBalancerStats::default()
        } else {
            LoadBalancerStats::new(nb_workers)
        }
    }

    /// The weights of the workers, in the order of the workers.
    pub fn read_workers_weight(&self) -> (weights: Vec<u64>)
        ensures
            weights@ == self.weights(),
    {
        match &self.workers_weight {
            Some(distribution) => read_weights(distribution),
            None => Vec::new(),
        }
    }

    /// Gives the workers a list of weights in place of the present one.
    ///
    /// A list that makes no distribution is refused, and the present weights stay.
    pub fn set_workers_weight(&mut self, weights: Vec<u64>) -> (set: Result<(), LoadBalancerError>)
        ensures
            final(self).nb_requests_received == old(self).nb_requests_received,
            final(self).nb_errors == old(self).nb_errors,
            set is Ok <==> is_distribution(weights@),
            final(self).weights() == if is_distribution(weights@) {
                weights@
            } else {
                old(self).weights()
            },
            set matches Err(error) ==> error.is_internal(refusal_text(weights@)),
    {
        match weighted_distribution(weights) {
            Ok(distribution) => {
                self.workers_weight = Some(distribution);
                Ok(())
            },
            Err(text) => Err(LoadBalancerError::InternalError(text)),
        }
    }

    /// Whether the weights are due for a new computation: under the strategy that
    /// uses them, at every hundredth request.
    pub open spec fn is_due(self, strategy: BalancingStrategy) -> bool {
        strategy is WeightedWorkersByErrors && self.nb_requests_received % 100 == 0
    }

    /// Computes the weights of the workers from their errors, if they are due.
    ///
    /// If they are not, or if the new weights make no distribution, the present
    /// ones stay.
    pub fn recompute_weight(
        &mut self,
        strategy: &BalancingStrategy,
        workers: &Vec<WorkerView>,
    ) -> (recomputed: Result<(), LoadBalancerError>)
        requires
            old(self).is_due(*strategy) ==> forall|i: int|
                0 <= i < workers@.len() ==> (#[trigger] workers@[i]).stats.has_error_ratio(),
        ensures
            final(self).nb_requests_received == old(self).nb_requests_received,
            final(self).nb_errors == old(self).nb_errors,
            recomputed is Err <==> old(self).is_due(*strategy) && !is_distribution(
                weights_by_errors(workers@),
            ),
            final(self).weights() == if old(self).is_due(*strategy) && is_distribution(
                weights_by_errors(workers@),
            ) {
                weights_by_errors(workers@)
            } else {
                old(self).weights()
            },
            recomputed matches Err(error) ==> error.is_internal(
                refusal_text(weights_by_errors(workers@)),
            ),
    {
        match strategy {
            BalancingStrategy::WeightedWorkersByErrors => {
                // Recompute weights every 100 requests
                if self.nb_requests_received % 100 == 0 {
                    let weights: Vec<u64> = error_weights(workers);
                    self.set_workers_weight(weights)
                } else {
                    Ok(())
                }
            },
            // Do not recompute weight for other strategies
            _ => Ok(()),
        }
    }
}

/// A weight is never zero, so no worker is cut off for good, and never more than
/// that of a worker without any error.
pub proof fn law_weight_is_never_zero(stats: WorkerStatistics)
    requires
        stats.has_error_ratio(),
    ensures
        1 <= stats.weight() <= 101,
        stats.weight() == 101 <==> stats.nb_requests_handled > 0 && stats.nb_error_status_received
            == 0,
{
    if stats.nb_requests_handled > 0 {
        let nb_requests = stats.nb_requests_handled as int;
        let nb_errors = stats.nb_error_status_received as int;
        lemma_percentage(nb_requests, nb_errors);
        let whole = percentage(nb_requests, nb_errors);
        assert(whole == 100 <==> nb_errors == 0) by (nonlinear_arith)
            requires
                whole * nb_requests <= (nb_requests - nb_errors) * 100,
                (nb_requests - nb_errors) * 100 < (whole + 1) * nb_requests,
                0 <= whole <= 100,
                0 <= nb_errors,
                0 < nb_requests,
        ;
    }
}

/// The weight of a worker is one more than the whole part of the percentage of requests
/// without an error.
pub(crate) proof fn lemma_weight_is_a_share(stats: WorkerStatistics)
    requires
        stats.has_error_ratio(),
    ensures
        stats.nb_requests_handled == 0 ==> stats.weight() == 1,
        stats.nb_requests_handled > 0 ==> (stats.weight() - 1) * stats.nb_requests_handled <= (
        stats.nb_requests_handled - stats.nb_error_status_received) * 100,
        stats.nb_requests_handled > 0 ==> (stats.nb_requests_handled
            - stats.nb_error_status_received) * 100 < stats.weight() * stats.nb_requests_handled,
{
    if stats.nb_requests_handled > 0 {
        lemma_percentage(stats.nb_requests_handled as int, stats.nb_error_status_received as int);
    }
}

/// By how many hundredths the error ratio of one worker exceeds that of another,
/// over the product of the numbers of requests that they handled.
pub open spec fn excess_of_errors(more: WorkerStatistics, less: WorkerStatistics) -> int {
    (more.nb_error_status_received * less.nb_requests_handled - less.nb_error_status_received
        * more.nb_requests_handled) * 100
}

/// The bigger the error ratio is, the less weight a worker has: a bigger ratio never
/// gives it more, and a ratio that is bigger by a number of hundredths gives it as
/// much less.
pub proof fn law_bigger_error_ratio_never_weighs_more(
    more: WorkerStatistics,
    less: WorkerStatistics,
    hundredths: nat,
)
    requires
        more.nb_requests_handled > 0,
        less.nb_requests_handled > 0,
        more.has_error_ratio(),
        less.has_error_ratio(),
        excess_of_errors(more, less) >= hundredths * (less.nb_requests_handled
            * more.nb_requests_handled),
    ensures
        more.weight() + hundredths <= less.weight(),
{
    lemma_percentage(more.nb_requests_handled as int, more.nb_error_status_received as int);
    lemma_percentage(less.nb_requests_handled as int, less.nb_error_status_received as int);
    lemma_percentages_apart(
        less.nb_requests_handled as int,
        less.nb_error_status_received as int,
        more.nb_requests_handled as int,
        more.nb_error_status_received as int,
        hundredths as int,
    );
}

/// Of two workers that handled as many requests, the one with more errors has less
/// weight, as soon as the errors that it has more make a hundredth of the requests.
pub proof fn law_more_errors_weigh_less(more: WorkerStatistics, less: WorkerStatistics)
    requires
        more.nb_requests_handled == less.nb_requests_handled,
        more.nb_requests_handled > 0,
        more.has_error_ratio(),
        less.has_error_ratio(),
        (more.nb_error_status_received - less.nb_error_status_received) * 100
            >= more.nb_requests_handled,
    ensures
        more.weight() < less.weight(),
{
    let nb_requests = more.nb_requests_handled as int;
    let more_errors = more.nb_error_status_received as int;
    let less_errors = less.nb_error_status_received as int;
    assert((more_errors * nb_requests - less_errors * nb_requests) * 100 >= 1 * (nb_requests
        * nb_requests)) by (nonlinear_arith)
        requires
            (more_errors - less_errors) * 100 >= nb_requests,
            nb_requests > 0,
    ;
    law_bigger_error_ratio_never_weighs_more(more, less, 1);
}

/// A worker with any error has less weight than one without.
pub proof fn law_any_error_weighs_less_than_none(more: WorkerStatistics, less: WorkerStatistics)
    requires
        more.nb_requests_handled > 0,
        less.nb_requests_handled > 0,
        more.has_error_ratio(),
        more.nb_error_status_received > 0,
        less.nb_error_status_received == 0,
    ensures
        more.weight() < less.weight(),
{
    law_weight_is_never_zero(more);
    law_weight_is_never_zero(less);
}

/// Workers with similar error ratios have similar weights: if the ratios lie no
/// more than a number of hundredths apart, neither do the weights.
pub proof fn law_similar_error_ratios_weigh_alike(
    a: WorkerStatistics,
    b: WorkerStatistics,
    hundredths: nat,
)
    requires
        a.nb_requests_handled > 0,
        b.nb_requests_handled > 0,
        a.has_error_ratio(),
        b.has_error_ratio(),
        -(hundredths * (a.nb_requests_handled * b.nb_requests_handled)) <= excess_of_errors(a, b)
            <= hundredths * (a.nb_requests_handled * b.nb_requests_handled),
    ensures
        -hundredths <= a.weight() - b.weight() <= hundredths,
{
    let a_requests = a.nb_requests_handled as int;
    let b_requests = b.nb_requests_handled as int;
    let a_errors = a.nb_error_status_received as int;
    let b_errors = b.nb_error_status_received as int;
    lemma_percentage(a_requests, a_errors);
    lemma_percentage(b_requests, b_errors);
    assert((b_errors * a_requests - a_errors * b_requests) * 100 == -excess_of_errors(a, b)
        && -hundredths * (a_requests * b_requests) == -(hundredths * (a_requests * b_requests))
        && b_requests * a_requests == a_requests * b_requests) by (nonlinear_arith)
        requires
            excess_of_errors(a, b) == (a_errors * b_requests - b_errors * a_requests) * 100,
    ;
    lemma_percentages_apart(a_requests, a_errors, b_requests, b_errors, -hundredths);
    lemma_percentages_apart(b_requests, b_errors, a_requests, a_errors, -hundredths);
}

/// Workers with the same error ratio have the same weight.
pub proof fn law_same_error_ratio_weighs_the_same(a: WorkerStatistics, b: WorkerStatistics)
    requires
        a.nb_requests_handled > 0,
        b.nb_requests_handled > 0,
        a.has_error_ratio(),
        b.has_error_ratio(),
        a.nb_error_status_received * b.nb_requests_handled == b.nb_error_status_received
            * a.nb_requests_handled,
    ensures
        a.weight() == b.weight(),
{
    law_similar_error_ratios_weigh_alike(a, b, 0);
}

/// A list of weights of at most 101 sums up to at most as many times its length.
proof fn lemma_total_of_bounded(weights: Seq<u64>)
    requires
        forall|i: int| 0 <= i < weights.len() ==> weights[i] <= 101,
    ensures
        total_weight(weights) <= 101 * weights.len(),
    decreases weights.len(),
{
    if weights.len() > 0 {
        lemma_total_of_bounded(weights.drop_last());
    }
}

/// The weights of the workers make a distribution whenever there are workers, as
/// long as their sum cannot leave a `u64`, so a computation that is due succeeds.
pub proof fn law_weights_make_a_distribution(workers: Seq<WorkerView>)
    requires
        workers.len() > 0,
        101 * workers.len() <= u64::MAX,
        forall|i: int| 0 <= i < workers.len() ==> (#[trigger] workers[i]).stats.has_error_ratio(),
    ensures
        is_distribution(weights_by_errors(workers)),
{
    let weights = weights_by_errors(workers);
    assert forall|i: int| 0 <= i < weights.len() implies 1 <= #[trigger] weights[i] <= 101 by {
        law_weight_is_never_zero(workers[i].stats);
    }
    lemma_total_of_positive(weights);
    lemma_total_of_bounded(weights);
}

} // verus!
