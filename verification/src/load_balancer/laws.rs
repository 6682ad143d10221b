//! What the operations of the load balancer do, each told from what goes in and what
//! comes out.

use crate::load_balancer::balancing_strategy::{
    all_indices, is_least_busy_reply, least_connection_with_internal_stats,
    least_connection_with_stats_from_workers, random, random_choice, request_worker_state,
    round_robin, state_url, state_urls, weighted_workers, worker_at, BalancingStrategy, Pick,
    StateReplies, StateRequest,
};
use crate::load_balancer::metrics::{
    error_weights, law_weights_make_a_distribution, lemma_weight_is_a_share, LoadBalancerStats,
    WorkerStatistics,
};
use crate::load_balancer::model::{active_of, configs_of, stats_of};
use crate::load_balancer::server::{
    is_client_error, is_server_error, outcome_of, set_balancing_strategy, transfer_request,
    worker_uri, LoadBalancer, LoadBalancerError, LoadBalancerState, RequestUri,
    SetBalancingStrategyRequest, Transfer, TransferAction, TransferEvent, WorkerView,
};
use crate::outside::{
    http_uri, is_drawn_from, is_host_char, is_named_host, is_path_char, is_query_char, is_sampled,
    total_weight,
};
use crate::worker::{DeserializedWorkerState, WorkerConfig};
use vstd::prelude::*;

verus! {

/// The round starts with the first worker.
pub proof fn law_round_starts_with_the_first_worker(strategy: BalancingStrategy)
    requires
        call_ensures(BalancingStrategy::default, (), strategy),
    ensures
        strategy == BalancingStrategy::RoundRobin(0),
{
}

/// Two strategies are equal exactly when they are of one kind. How far a round has
/// come does not count.
pub proof fn law_strategies_are_equal_by_kind(
    a: BalancingStrategy,
    b: BalancingStrategy,
    same: bool,
)
    requires
        call_ensures(BalancingStrategy::eq, (&a, &b), same),
    ensures
        same <==> {
            ||| a is RoundRobin && b is RoundRobin
            ||| a is LeastConnectionWithStatsFromWorkers && b is LeastConnectionWithStatsFromWorkers
            ||| a is LeastConnectionWithInternalStats && b is LeastConnectionWithInternalStats
            ||| a is Random && b is Random
            ||| a is ResourceBased && b is ResourceBased
            ||| a is WeightedWorkersByErrors && b is WeightedWorkersByErrors
        },
{
}

/// A strategy is called by the name of its kind.
pub proof fn law_strategies_have_their_names(strategy: BalancingStrategy, name: &'static str)
    requires
        call_ensures(BalancingStrategy::as_ref, (&strategy,), name),
    ensures
        strategy is RoundRobin ==> name@ == "RoundRobin"@,
        strategy is LeastConnectionWithStatsFromWorkers ==> name@
            == "LeastConnectionWithStatsFromWorkers"@,
        strategy is LeastConnectionWithInternalStats ==> name@
            == "LeastConnectionWithInternalStats"@,
        strategy is Random ==> name@ == "Random"@,
        strategy is ResourceBased ==> name@ == "ResourceBased"@,
        strategy is WeightedWorkersByErrors ==> name@ == "WeightedWorkersByErrors"@,
{
}

/// The list of strategies holds each kind exactly once, and a round at its start.
pub proof fn law_every_strategy_is_listed_once(
    strategies: Vec<BalancingStrategy>,
    strategy: BalancingStrategy,
    i: int,
    j: int,
)
    requires
        call_ensures(BalancingStrategy::iter, (), strategies),
        0 <= i < strategies@.len(),
        0 <= j < strategies@.len(),
    ensures
        exists|k: int|
            0 <= k < strategies@.len() && (#[trigger] strategies@[k]).name() == strategy.name(),
        strategies@[i].name() == strategies@[j].name() ==> i == j,
        strategies@[i] matches BalancingStrategy::RoundRobin(picks) ==> picks == 0,
{
    assert(strategies@[0] is RoundRobin);
    assert(strategies@[1] is LeastConnectionWithStatsFromWorkers);
    assert(strategies@[2] is LeastConnectionWithInternalStats);
    assert(strategies@[3] is Random);
    assert(strategies@[4] is ResourceBased);
    assert(strategies@[5] is WeightedWorkersByErrors);
    crate::load_balancer::balancing_strategy::law_same_kind_is_an_equivalence(
        strategies@[i],
        strategies@[j],
        strategy,
    );
}

/// The round picks the worker at which the number of picks ends up when it is counted
/// around the list, and counts the pick.
pub proof fn law_round_counts_around_the_list(
    workers: Vec<WorkerView>,
    picks: &mut usize,
    next_worker: Result<usize, LoadBalancerError>,
)
    requires
        workers@.len() > 0,
        call_ensures(round_robin, (&workers, picks), next_worker),
    ensures
        next_worker matches Ok(i) && i < workers@.len() && (*old(picks) - i) % workers@.len() as int
            == 0,
        *final(picks) == (*old(picks) + 1) % (usize::MAX + 1),
{
    let n = workers@.len() as int;
    let p = *old(picks) as int;
    vstd::arithmetic::div_mod::lemma_fundamental_div_mod(p, n);
    vstd::arithmetic::div_mod::lemma_mod_multiples_basic(p / n, n);
    assert(p - p % n == (p / n) * n) by (nonlinear_arith)
        requires
            p == n * (p / n) + p % n,
    ;
    if p < usize::MAX {
        vstd::arithmetic::div_mod::lemma_small_mod((p + 1) as nat, (usize::MAX + 1) as nat);
    } else {
        vstd::arithmetic::div_mod::lemma_mod_self_0(usize::MAX + 1);
    }
}

/// Of two picks in a row the second goes to the next worker, and after the last one
/// to the first.
pub proof fn law_round_goes_on_to_the_next_worker(
    workers: Vec<WorkerView>,
    first: &mut usize,
    second: &mut usize,
    i: usize,
    j: usize,
)
    requires
        workers@.len() > 0,
        call_ensures(round_robin, (&workers, first), Ok::<usize, LoadBalancerError>(i)),
        call_ensures(round_robin, (&workers, second), Ok::<usize, LoadBalancerError>(j)),
        *old(second) == *final(first),
        *old(first) < usize::MAX,
    ensures
        j == if i + 1 == workers@.len() {
            0
        } else {
            i + 1
        },
{
    let n = workers@.len() as int;
    let p = *old(first) as int;
    let q = p / n;
    vstd::arithmetic::div_mod::lemma_fundamental_div_mod(p, n);
    if i + 1 == n {
        assert(p + 1 == (q + 1) * n + 0) by (nonlinear_arith)
            requires
                p == n * q + i,
                i + 1 == n,
        ;
        vstd::arithmetic::div_mod::lemma_fundamental_div_mod_converse(p + 1, n, q + 1, 0);
    } else {
        assert(p + 1 == q * n + (i + 1)) by (nonlinear_arith)
            requires
                p == n * q + i,
        ;
        vstd::arithmetic::div_mod::lemma_fundamental_div_mod_converse(p + 1, n, q, i + 1);
    }
}

/// A random pick is the index that was drawn, and it was drawn from all the indices:
/// each worker of the list was in the draw, under its own index. Only an empty list
/// has none.
pub proof fn law_random_pick_is_drawn_from_all_workers(
    workers: Vec<WorkerView>,
    next_worker: Result<usize, LoadBalancerError>,
)
    requires
        call_ensures(random, (&workers,), next_worker),
    ensures
        match next_worker {
            Ok(i) => {
                &&& i < workers@.len()
                &&& exists|drawn_from: Seq<usize>|
                    {
                        &&& drawn_from.len() == workers@.len()
                        &&& forall|k: int|
                            0 <= k < workers@.len() ==> #[trigger] drawn_from[k] == k
                        &&& #[trigger] is_drawn_from(drawn_from, i)
                    }
            },
            Err(error) => {
                &&& workers@.len() == 0
                &&& error matches LoadBalancerError::InternalError(cause)
                &&& cause@ == "List of workers is empty"@
            },
        },
{
    if let Ok(i) = next_worker {
        let indices = all_indices(workers@.len());
        assert(workers.len() == workers@.len());
        assert(forall|k: int| 0 <= k < workers@.len() ==> #[trigger] indices[k] == k);
        assert(is_drawn_from(indices, i));
    }
}

/// What was drawn at random is what is picked.
pub proof fn law_random_choice_is_the_draw(
    drawn: Option<usize>,
    next_worker: Result<usize, LoadBalancerError>,
)
    requires
        call_ensures(random_choice, (drawn,), next_worker),
    ensures
        drawn matches Some(i) ==> next_worker == Ok::<usize, LoadBalancerError>(i),
        drawn is None ==> (next_worker matches Err(LoadBalancerError::InternalError(cause))
            && cause@ == "List of workers is empty"@),
{
}

/// A pick by weight is the index that the weights handed out, unchanged. None is found
/// only where there are no weights, or where they handed out an index at which there
/// is no worker.
pub proof fn law_weighted_pick_is_what_the_weights_hand_out(
    state: LoadBalancerState,
    workers: Vec<WorkerView>,
    next_worker: Result<usize, LoadBalancerError>,
)
    requires
        call_ensures(weighted_workers, (&state, &workers), next_worker),
    ensures
        match next_worker {
            Ok(i) => {
                &&& i < workers@.len()
                &&& state.stats.workers_weight matches Some(weights)
                &&& is_sampled(weights@, i)
                &&& i < weights@.len()
                &&& weights@[i as int] > 0
            },
            Err(error) => {
                &&& error matches LoadBalancerError::InternalError(cause)
                &&& cause@ == "No workers in the config"@
                &&& (state.stats.workers_weight matches Some(weights) ==> weights@.len() > 0 ==> (
                exists|index: usize|
                    workers@.len() <= index && #[trigger] is_sampled(weights@, index)))
            },
        },
{
}

/// An index leads to the worker at it, and one beyond the list to none.
pub proof fn law_index_leads_to_its_worker(
    workers: Vec<WorkerView>,
    index: usize,
    next_worker: Result<usize, LoadBalancerError>,
)
    requires
        call_ensures(worker_at, (&workers, index), next_worker),
    ensures
        index < workers@.len() ==> next_worker == Ok::<usize, LoadBalancerError>(index),
        index >= workers@.len() ==> (next_worker matches Err(
            LoadBalancerError::InternalError(cause),
        ) && cause@ == "No workers in the config"@),
{
}

/// The pick by the connections that the load balancer has counted: no worker has fewer
/// open requests, and every earlier one has more.
pub proof fn law_least_connections_are_picked(
    workers: Vec<WorkerView>,
    next_worker: Result<usize, LoadBalancerError>,
)
    requires
        call_ensures(least_connection_with_internal_stats, (&workers,), next_worker),
    ensures
        match next_worker {
            Ok(i) => {
                &&& i < workers@.len()
                &&& forall|j: int|
                    0 <= j < workers@.len() ==> workers@[i as int].stats.nb_requests_sent
                        - workers@[i as int].stats.nb_requests_handled <= (
                    #[trigger] workers@[j]).stats.nb_requests_sent
                        - workers@[j].stats.nb_requests_handled
                &&& forall|j: int|
                    0 <= j < i ==> workers@[i as int].stats.nb_requests_sent
                        - workers@[i as int].stats.nb_requests_handled < (
                    #[trigger] workers@[j]).stats.nb_requests_sent
                        - workers@[j].stats.nb_requests_handled
            },
            Err(error) => {
                &&& workers@.len() == 0
                &&& error matches LoadBalancerError::InternalError(cause)
                &&& cause@ == "No workers in config"@
            },
        },
{
    let active = active_of(stats_of(workers@));
    assert(forall|j: int|
        #![trigger workers@[j]]
        0 <= j < workers@.len() ==> active[j] == workers@[j].stats.nb_requests_sent
            - workers@[j].stats.nb_requests_handled);
}

/// Without any reply of a worker there is no pick.
pub proof fn law_no_reply_no_pick(
    workers: Vec<WorkerView>,
    replies: StateReplies,
    next_worker: Result<usize, LoadBalancerError>,
)
    requires
        call_ensures(least_connection_with_stats_from_workers, (&workers, &replies), next_worker),
        forall|j: int| 0 <= j < replies@.len() ==> (#[trigger] replies@[j]) is Err,
    ensures
        next_worker matches Err(LoadBalancerError::InternalError(cause)) && cause@
            == "No stats received from any worker"@,
{
}

/// The pick by the states that the workers report: if `k` is the reply of a worker that
/// handles the fewest requests of those that replied, and the first of these, the pick
/// is the first worker with the id in that reply, and none if no worker has it.
pub proof fn law_least_busy_reply_is_followed(
    workers: Vec<WorkerView>,
    replies: StateReplies,
    next_worker: Result<usize, LoadBalancerError>,
    k: int,
    least: DeserializedWorkerState,
)
    requires
        call_ensures(least_connection_with_stats_from_workers, (&workers, &replies), next_worker),
        0 <= k < replies@.len(),
        replies@[k] == Ok::<DeserializedWorkerState, LoadBalancerError>(least),
        forall|j: int|
            0 <= j < replies@.len() ==> ((#[trigger] replies@[j]) matches Ok(other)
                ==> least.nb_requests_being_handled <= other.nb_requests_being_handled),
        forall|j: int|
            0 <= j < k ==> ((#[trigger] replies@[j]) matches Ok(other)
                ==> least.nb_requests_being_handled < other.nb_requests_being_handled),
    ensures
        match next_worker {
            Ok(i) => {
                &&& i < workers@.len()
                &&& workers@[i as int].config.id == least.config.id
                &&& forall|j: int|
                    0 <= j < i ==> (#[trigger] workers@[j]).config.id != least.config.id
            },
            Err(error) => {
                &&& error matches LoadBalancerError::InternalError(cause)
                &&& cause@ == "Worker not found in the load balancer config"@
                &&& forall|j: int|
                    0 <= j < workers@.len() ==> (#[trigger] workers@[j]).config.id
                        != least.config.id
            },
        },
{
    assert(replies@[k] is Ok);
    assert(is_least_busy_reply(replies@, k));
    assert forall|l: int| is_least_busy_reply(replies@, l) implies l == k by {
        assert(replies@[l] is Ok);
    }
    assert(forall|j: int|
        #![trigger workers@[j]]
        0 <= j < workers@.len() ==> configs_of(workers@)[j].id == workers@[j].config.id);
}

/// A worker is asked for its state at its own address.
pub proof fn law_workers_are_asked_at_their_addresses(
    worker: WorkerConfig,
    url: String,
    workers: Vec<WorkerView>,
    urls: Vec<String>,
    i: int,
)
    requires
        call_ensures(state_url, (&worker,), url),
        call_ensures(state_urls, (&workers,), urls),
    ensures
        url@ == "http://"@ + worker.address@ + "/state"@,
        urls@.len() == workers@.len(),
        0 <= i < urls@.len() ==> urls@[i]@ == "http://"@ + workers@[i].config.address@ + "/state"@,
{
    if 0 <= i < urls@.len() {
        assert(configs_of(workers@)[i].address == workers@[i].config.address@);
    }
}

/// A state that came is handed on as it is. A worker that does not answer is to blame
/// for it, and the load balancer for anything else that goes wrong.
pub proof fn law_only_silence_blames_the_worker(
    request: StateRequest,
    state: Result<DeserializedWorkerState, LoadBalancerError>,
)
    requires
        call_ensures(request_worker_state, (request,), state),
    ensures
        match request {
            StateRequest::Answered(report) => state matches Ok(same) && same == report,
            StateRequest::NoAnswer(text) => state matches Err(LoadBalancerError::WorkerError(cause))
                && cause == text,
            StateRequest::NoClient(text) => state matches Err(
                LoadBalancerError::InternalError(cause),
            ) && cause == text,
            StateRequest::Unreadable(text) => state matches Err(
                LoadBalancerError::InternalError(cause),
            ) && cause == text,
        },
{
}

/// The weight of a worker is one more than the percentage of its requests that had no
/// error, rounded down, and one for a worker without requests.
pub proof fn law_error_weight_is_the_share_without_errors(stats: WorkerStatistics, weight: u64)
    requires
        call_ensures(WorkerStatistics::error_weight, (&stats,), weight),
        stats.nb_requests_handled == 0 || stats.nb_error_status_received
            <= stats.nb_requests_handled,
    ensures
        stats.nb_requests_handled == 0 ==> weight == 1,
        stats.nb_requests_handled > 0 ==> (weight - 1) * stats.nb_requests_handled <= (
        stats.nb_requests_handled - stats.nb_error_status_received) * 100,
        stats.nb_requests_handled > 0 ==> (stats.nb_requests_handled
            - stats.nb_error_status_received) * 100 < weight * stats.nb_requests_handled,
{
    lemma_weight_is_a_share(stats);
}

/// Each worker of a list gets the weight of its own errors, in the order of the list.
pub proof fn law_error_weights_are_those_of_the_workers(
    workers: Vec<WorkerView>,
    weights: Vec<u64>,
    i: int,
)
    requires
        call_ensures(error_weights, (&workers,), weights),
        0 <= i < workers@.len(),
        workers@[i].stats.nb_requests_handled == 0 || workers@[i].stats.nb_error_status_received
            <= workers@[i].stats.nb_requests_handled,
    ensures
        weights@.len() == workers@.len(),
        workers@[i].stats.nb_requests_handled == 0 ==> weights@[i] == 1,
        workers@[i].stats.nb_requests_handled > 0 ==> (weights@[i] - 1)
            * workers@[i].stats.nb_requests_handled <= (workers@[i].stats.nb_requests_handled
            - workers@[i].stats.nb_error_status_received) * 100 < weights@[i]
            * workers@[i].stats.nb_requests_handled,
{
    lemma_weight_is_a_share(workers@[i].stats);
}

/// Under the strategy that uses them the weights are computed anew at every hundredth
/// request, however many hundreds there have been, and then each worker has the weight
/// of its errors. At any other request, and under any other strategy, nothing changes.
pub proof fn law_weights_are_recomputed_every_hundred_requests(
    stats: &mut LoadBalancerStats,
    strategy: BalancingStrategy,
    workers: Vec<WorkerView>,
    recomputed: Result<(), LoadBalancerError>,
    hundreds: int,
    rest: int,
)
    requires
        call_ensures(
            LoadBalancerStats::recompute_weight,
            (stats, &strategy, &workers),
            recomputed,
        ),
        old(stats).nb_requests_received == 100 * hundreds + rest,
        0 <= rest < 100,
        101 * workers@.len() <= u64::MAX,
        forall|i: int|
            0 <= i < workers@.len() ==> {
                ||| (#[trigger] workers@[i]).stats.nb_requests_handled == 0
                ||| workers@[i].stats.nb_error_status_received
                    <= workers@[i].stats.nb_requests_handled
            },
    ensures
        final(stats).nb_requests_received == old(stats).nb_requests_received,
        final(stats).nb_errors == old(stats).nb_errors,
        rest > 0 || !(strategy is WeightedWorkersByErrors) ==> recomputed is Ok
            && final(stats).weights() == old(stats).weights(),
        rest == 0 && strategy is WeightedWorkersByErrors && workers@.len() == 0 ==> (
        recomputed matches Err(LoadBalancerError::InternalError(cause)) && cause@
            == "Weights sequence is empty/too long/unordered"@ && final(stats).weights() == old(
            stats,
        ).weights()),
        rest == 0 && strategy is WeightedWorkersByErrors && workers@.len() > 0 ==> {
            &&& recomputed is Ok
            &&& final(stats).weights().len() == workers@.len()
            &&& forall|i: int|
                #![trigger workers@[i]]
                #![trigger final(stats).weights()[i]]
                0 <= i < workers@.len() ==> {
                    let handled = workers@[i].stats.nb_requests_handled;
                    let errors = workers@[i].stats.nb_error_status_received;
                    let weight = final(stats).weights()[i];
                    &&& handled == 0 ==> weight == 1
                    &&& handled > 0 ==> (weight - 1) * handled <= (handled - errors) * 100 < weight
                        * handled
                }
        },
{
    assert((100 * hundreds + rest) % 100 == rest);
    assert forall|i: int| 0 <= i < workers@.len() implies (
    #[trigger] workers@[i]).stats.has_error_ratio() by {}
    if workers@.len() > 0 {
        law_weights_make_a_distribution(workers@);
    }
    assert forall|i: int| #![trigger workers@[i]] 0 <= i < workers@.len() implies {
        let handled = workers@[i].stats.nb_requests_handled;
        let errors = workers@[i].stats.nb_error_status_received;
        let weight = workers@[i].stats.weight();
        &&& handled == 0 ==> weight == 1
        &&& handled > 0 ==> (weight - 1) * handled <= (handled - errors) * 100 < weight * handled
    } by {
        lemma_weight_is_a_share(workers@[i].stats);
    }
}

/// New statistics have counted nothing, and give each worker the weight one.
pub proof fn law_new_statistics_are_even(
    nb_workers: usize,
    new: LoadBalancerStats,
    for_workers: LoadBalancerStats,
    default: LoadBalancerStats,
    worker: WorkerStatistics,
    i: int,
)
    requires
        call_ensures(LoadBalancerStats::new, (nb_workers,), new),
        call_ensures(LoadBalancerStats::for_workers, (nb_workers,), for_workers),
        call_ensures(LoadBalancerStats::default, (), default),
        call_ensures(WorkerStatistics::default, (), worker),
    ensures
        new.nb_requests_received == 0 && new.nb_errors == 0,
        new.weights().len() == nb_workers,
        0 <= i < nb_workers ==> new.weights()[i] == 1 && for_workers.weights()[i] == 1,
        for_workers.nb_requests_received == 0 && for_workers.nb_errors == 0,
        for_workers.weights().len() == nb_workers,
        default.nb_requests_received == 0 && default.nb_errors == 0,
        default.weights().len() == 0,
        worker.nb_requests_sent == 0,
        worker.nb_requests_handled == 0,
        worker.nb_error_status_received == 0,
{
}

/// The weights that are read are those of the distribution, in their order, and there
/// are none without one.
pub proof fn law_weights_are_read_as_they_are(stats: LoadBalancerStats, weights: Vec<u64>)
    requires
        call_ensures(LoadBalancerStats::read_workers_weight, (&stats,), weights),
    ensures
        stats.workers_weight matches Some(distribution) ==> weights@ == distribution@,
        stats.workers_weight is None ==> weights@.len() == 0,
        weights@ == stats.weights(),
{
}

/// Weights that are set are the weights from then on, if there are any, if one of them
/// is positive, and if their sum fits in a `u64`. Any other list is refused with what
/// is wrong with it, and changes nothing.
pub proof fn law_set_weights_are_kept(
    stats: &mut LoadBalancerStats,
    weights: Vec<u64>,
    set: Result<(), LoadBalancerError>,
)
    requires
        call_ensures(LoadBalancerStats::set_workers_weight, (stats, weights), set),
    ensures
        final(stats).nb_requests_received == old(stats).nb_requests_received,
        final(stats).nb_errors == old(stats).nb_errors,
        0 < total_weight(weights@) <= u64::MAX ==> set is Ok && final(stats).weights() == weights@,
        !(0 < total_weight(weights@) <= u64::MAX) ==> {
            &&& set matches Err(LoadBalancerError::InternalError(cause))
            &&& final(stats).weights() == old(stats).weights()
            &&& weights@.len() == 0 ==> cause@ == "Weights sequence is empty/too long/unordered"@
            &&& weights@.len() > 0 && total_weight(weights@) == 0 ==> cause@
                == "Not enough weights > zero"@
            &&& total_weight(weights@) > u64::MAX ==> cause@ == "Overflow when summing weights"@
        },
{
}

/// A worker of the load balancer has its configuration, and nothing is counted for it.
pub proof fn law_new_worker_view_has_counted_nothing(config: WorkerConfig, worker: WorkerView)
    requires
        call_ensures(WorkerView::new, (config,), worker),
    ensures
        worker.config == config,
        worker.stats.nb_requests_sent == 0,
        worker.stats.nb_requests_handled == 0,
        worker.stats.nb_error_status_received == 0,
{
}

/// What the model of a load balancer says of its workers is what they are.
proof fn lemma_model_of_workers(state: LoadBalancerState)
    ensures
        state@.stats.len() == state.workers@.len(),
        state@.configs.len() == state.workers@.len(),
        forall|i: int|
            #![trigger state.workers@[i]]
            0 <= i < state.workers@.len() ==> {
                &&& state@.stats[i] == state.workers@[i].stats
                &&& state@.configs[i].id == state.workers@[i].config.id
                &&& state@.configs[i].address == state.workers@[i].config.address@
            },
{
}

/// A new load balancer has what it was given, has counted nothing for itself, and gives
/// each worker the weight one.
pub proof fn law_new_state_is_as_asked(
    address: String,
    workers: Vec<WorkerView>,
    strategy: BalancingStrategy,
    state: LoadBalancerState,
    i: int,
)
    requires
        call_ensures(LoadBalancerState::new, (address, workers, strategy), state),
    ensures
        state.address == address,
        state.workers == workers,
        state.strategy == strategy,
        state.stats.nb_requests_received == 0,
        state.stats.nb_errors == 0,
        state.stats.weights().len() == workers@.len(),
        0 <= i < workers@.len() ==> state.stats.weights()[i] == 1,
{
    assert(state@.strategy == state.strategy);
    assert(state@.weights == state.stats.weights());
    assert(state@.nb_requests_received == state.stats.nb_requests_received);
    assert(state@.nb_errors == state.stats.nb_errors);
}

/// A load balancer is built over the workers that are given, in their order, with
/// nothing counted for any of them. It starts with the strategy that is given, and
/// with a round from the first worker on if none is.
pub proof fn law_load_balancer_is_built_as_asked(
    address: String,
    workers: Vec<WorkerConfig>,
    strategy: Option<BalancingStrategy>,
    built: LoadBalancer,
    i: int,
)
    requires
        call_ensures(LoadBalancer::build, (address, workers, strategy), built),
    ensures
        built.address@ == address@,
        built.state.address@ == address@,
        built.state.workers@.len() == workers@.len(),
        built.state.stats.nb_requests_received == 0,
        built.state.stats.nb_errors == 0,
        built.state.stats.weights().len() == workers@.len(),
        strategy matches Some(asked) ==> built.state.strategy == asked,
        strategy is None ==> built.state.strategy == BalancingStrategy::RoundRobin(0),
        0 <= i < workers@.len() ==> {
            &&& built.state.workers@[i].config.id == workers@[i].id
            &&& built.state.workers@[i].config.address@ == workers@[i].address@
            &&& built.state.workers@[i].stats.nb_requests_sent == 0
            &&& built.state.workers@[i].stats.nb_requests_handled == 0
            &&& built.state.workers@[i].stats.nb_error_status_received == 0
            &&& built.state.stats.weights()[i] == 1
        },
{
    let state = built.state;
    lemma_model_of_workers(state);
    assert(state@.address == state.address@);
    assert(state@.strategy == state.strategy);
    assert(state@.weights == state.stats.weights());
    assert(state@.nb_requests_received == state.stats.nb_requests_received);
    assert(state@.nb_errors == state.stats.nb_errors);
    if 0 <= i < workers@.len() {
        assert(state@.stats[i] == state.workers@[i].stats);
        assert(state@.configs[i] == workers@[i]@);
    }
}

/// A strategy can pick unless it is the one by resources, a round without workers, or
/// one by connections where a worker has handled more than it was sent.
pub proof fn law_when_a_strategy_can_pick(state: LoadBalancerState, can: bool)
    requires
        call_ensures(LoadBalancerState::can_pick, (&state,), can),
    ensures
        can <==> match state.strategy {
            BalancingStrategy::ResourceBased => false,
            BalancingStrategy::RoundRobin(_) => state.workers@.len() > 0,
            BalancingStrategy::LeastConnectionWithInternalStats => forall|i: int|
                0 <= i < state.workers@.len() ==> (
                #[trigger] state.workers@[i]).stats.nb_requests_handled
                    <= state.workers@[i].stats.nb_requests_sent,
            BalancingStrategy::Random => true,
            BalancingStrategy::LeastConnectionWithStatsFromWorkers => true,
            BalancingStrategy::WeightedWorkersByErrors => true,
        },
{
    lemma_model_of_workers(state);
    assert(state@.strategy == state.strategy);
    if state.strategy is LeastConnectionWithInternalStats {
        if can {
            assert forall|i: int| 0 <= i < state.workers@.len() implies (
            #[trigger] state.workers@[i]).stats.nb_requests_handled
                <= state.workers@[i].stats.nb_requests_sent by {
                assert(state@.stats[i].active() >= 0);
            }
        } else {
            let i = choose|i: int|
                0 <= i < state@.stats.len() && !((#[trigger] state@.stats[i]).active() >= 0);
            assert(state.workers@[i].stats.nb_requests_handled
                > state.workers@[i].stats.nb_requests_sent);
        }
    }
}

/// The strategy that is set is the one that is used, and nothing else changes.
pub proof fn law_strategy_is_set(
    state: &mut LoadBalancerState,
    request: SetBalancingStrategyRequest,
    status: u16,
)
    requires
        call_ensures(set_balancing_strategy, (state, request), status),
    ensures
        status == 200,
        final(state).strategy == request.strategy,
        final(state).address@ == old(state).address@,
        final(state).stats.nb_requests_received == old(state).stats.nb_requests_received,
        final(state).stats.nb_errors == old(state).stats.nb_errors,
        final(state).stats.weights() == old(state).stats.weights(),
        final(state).workers@.len() == old(state).workers@.len(),
        forall|i: int|
            0 <= i < old(state).workers@.len() ==> {
                &&& (#[trigger] final(state).workers@[i]).stats == old(state).workers@[i].stats
                &&& final(state).workers@[i].config.id == old(state).workers@[i].config.id
                &&& final(state).workers@[i].config.address@
                    == old(state).workers@[i].config.address@
            },
{
    let before = *old(state);
    let after = *final(state);
    lemma_model_of_workers(before);
    lemma_model_of_workers(after);
    lemma_same_model_parts(before, after);
}

/// The parts of the model are the parts of the state.
proof fn lemma_same_model_parts(before: LoadBalancerState, after: LoadBalancerState)
    ensures
        before@.address == before.address@ && after@.address == after.address@,
        before@.strategy == before.strategy && after@.strategy == after.strategy,
        before@.weights == before.stats.weights() && after@.weights == after.stats.weights(),
        before@.nb_requests_received == before.stats.nb_requests_received,
        after@.nb_requests_received == after.stats.nb_requests_received,
        before@.nb_errors == before.stats.nb_errors && after@.nb_errors == after.stats.nb_errors,
        before@.stats == after@.stats && before@.configs == after@.configs ==> {
            &&& after.workers@.len() == before.workers@.len()
            &&& forall|i: int|
                #![trigger after.workers@[i]]
                0 <= i < before.workers@.len() ==> {
                    &&& after.workers@[i].stats == before.workers@[i].stats
                    &&& after.workers@[i].config.id == before.workers@[i].config.id
                    &&& after.workers@[i].config.address@ == before.workers@[i].config.address@
                }
        },
        before@.configs == after@.configs ==> {
            &&& after.workers@.len() == before.workers@.len()
            &&& forall|i: int|
                #![trigger after.workers@[i]]
                0 <= i < before.workers@.len() ==> {
                    &&& after.workers@[i].config.id == before.workers@[i].config.id
                    &&& after.workers@[i].config.address@ == before.workers@[i].config.address@
                }
        },
{
    lemma_model_of_workers(before);
    lemma_model_of_workers(after);
    if before@.configs == after@.configs {
        assert(after.workers@.len() == before.workers@.len());
        assert forall|i: int| #![trigger after.workers@[i]] 0 <= i < before.workers@.len() implies {
            &&& after.workers@[i].config.id == before.workers@[i].config.id
            &&& after.workers@[i].config.address@ == before.workers@[i].config.address@
        } by {
            assert(before@.configs[i].id == before.workers@[i].config.id);
            assert(before@.configs[i].address == before.workers@[i].config.address@);
        }
        if before@.stats == after@.stats {
            assert forall|i: int|
                #![trigger after.workers@[i]]
                0 <= i < before.workers@.len() implies after.workers@[i].stats
                == before.workers@[i].stats by {
                assert(before@.stats[i] == before.workers@[i].stats);
            }
        }
    }
}

/// A request that came in is counted as received, and nothing else changes.
pub proof fn law_arrival_is_counted(state: &mut LoadBalancerState)
    requires
        call_ensures(LoadBalancerState::request_received, (state,), ()),
    ensures
        final(state).stats.nb_requests_received == (old(state).stats.nb_requests_received + 1)
            % 0x1_0000_0000_0000_0000,
        final(state).stats.nb_errors == old(state).stats.nb_errors,
        final(state).stats.weights() == old(state).stats.weights(),
        final(state).address@ == old(state).address@,
        final(state).strategy == old(state).strategy,
        final(state).workers@.len() == old(state).workers@.len(),
        forall|i: int|
            0 <= i < old(state).workers@.len() ==> {
                &&& (#[trigger] final(state).workers@[i]).stats == old(state).workers@[i].stats
                &&& final(state).workers@[i].config.id == old(state).workers@[i].config.id
                &&& final(state).workers@[i].config.address@
                    == old(state).workers@[i].config.address@
            },
{
    lemma_same_model_parts(*old(state), *final(state));
}

/// A request that was sent is counted with the worker that it was sent to, and nothing
/// else changes.
pub proof fn law_sending_is_counted(state: &mut LoadBalancerState, worker: usize)
    requires
        call_ensures(LoadBalancerState::request_sent, (state, worker), ()),
        worker < old(state).workers@.len(),
    ensures
        final(state).stats.nb_requests_received == old(state).stats.nb_requests_received,
        final(state).stats.nb_errors == old(state).stats.nb_errors,
        final(state).stats.weights() == old(state).stats.weights(),
        final(state).address@ == old(state).address@,
        final(state).strategy == old(state).strategy,
        final(state).workers@.len() == old(state).workers@.len(),
        forall|i: int|
            0 <= i < old(state).workers@.len() ==> {
                let before = old(state).workers@[i];
                let after = #[trigger] final(state).workers@[i];
                &&& after.config.id == before.config.id
                &&& after.config.address@ == before.config.address@
                &&& after.stats.nb_requests_sent == if i == worker {
                    (before.stats.nb_requests_sent + 1) % 0x1_0000_0000_0000_0000
                } else {
                    before.stats.nb_requests_sent as int
                }
                &&& after.stats.nb_requests_handled == before.stats.nb_requests_handled
                &&& after.stats.nb_error_status_received == before.stats.nb_error_status_received
            },
{
    lemma_same_model_parts(*old(state), *final(state));
    lemma_model_of_workers(*old(state));
    lemma_model_of_workers(*final(state));
    assert forall|i: int| 0 <= i < old(state).workers@.len() implies (
    #[trigger] final(state).workers@[i]).stats == old(state)@.sent(worker as int).stats[i] by {
        assert(old(state)@.stats[i] == old(state).workers@[i].stats);
    }
    assert(forall|i: int|
        #![trigger final(state).workers@[i]]
        0 <= i < old(state).workers@.len() ==> old(state)@.stats[i]
            == old(state).workers@[i].stats);
}

/// The answer to a request is counted with the worker as one that it handled. A status
/// of the five hundreds is an error of the worker, one of the four hundreds an error of
/// the load balancer, and no answer an error of both; nothing else is an error, and
/// nothing else changes. The status is handed on whatever it is, and only a request
/// without an answer fails.
pub proof fn law_answer_is_counted(
    state: &mut LoadBalancerState,
    worker: usize,
    response: Result<u16, String>,
    reply: Result<u16, LoadBalancerError>,
)
    requires
        call_ensures(LoadBalancerState::response_received, (state, worker, response), reply),
        worker < old(state).workers@.len(),
    ensures
        response matches Ok(status) ==> reply == Ok::<u16, LoadBalancerError>(status),
        response matches Err(text) ==> (reply matches Err(LoadBalancerError::InternalError(cause))
            && cause == text),
        final(state).stats.nb_requests_received == old(state).stats.nb_requests_received,
        final(state).stats.nb_errors == if (response matches Ok(status) ==> status / 100 == 4) {
            (old(state).stats.nb_errors + 1) % 0x1_0000_0000_0000_0000
        } else {
            old(state).stats.nb_errors as int
        },
        final(state).stats.weights() == old(state).stats.weights(),
        final(state).address@ == old(state).address@,
        final(state).strategy == old(state).strategy,
        final(state).workers@.len() == old(state).workers@.len(),
        forall|i: int|
            0 <= i < old(state).workers@.len() ==> {
                let before = old(state).workers@[i];
                let after = #[trigger] final(state).workers@[i];
                &&& after.config.id == before.config.id
                &&& after.config.address@ == before.config.address@
                &&& after.stats.nb_requests_sent == before.stats.nb_requests_sent
                &&& after.stats.nb_requests_handled == if i == worker {
                    (before.stats.nb_requests_handled + 1) % 0x1_0000_0000_0000_0000
                } else {
                    before.stats.nb_requests_handled as int
                }
                &&& after.stats.nb_error_status_received == if i == worker && (
                response matches Ok(status) ==> status / 100 == 5) {
                    (before.stats.nb_error_status_received + 1) % 0x1_0000_0000_0000_0000
                } else {
                    before.stats.nb_error_status_received as int
                }
            },
{
    lemma_same_model_parts(*old(state), *final(state));
    lemma_model_of_workers(*old(state));
    lemma_model_of_workers(*final(state));
    assert forall|i: int| 0 <= i < old(state).workers@.len() implies (
    #[trigger] final(state).workers@[i]).stats == old(state)@.handled(
        worker as int,
        outcome_of(response),
    ).stats[i] by {
        assert(old(state)@.stats[i] == old(state).workers@[i].stats);
    }
    assert(forall|i: int|
        #![trigger final(state).workers@[i]]
        0 <= i < old(state).workers@.len() ==> old(state)@.stats[i]
            == old(state).workers@[i].stats);
}

/// Which statuses blame the client, and which the server.
pub proof fn law_statuses_blame_by_their_hundreds(status: u16, client: bool, server: bool)
    requires
        call_ensures(is_client_error, (status,), client),
        call_ensures(is_server_error, (status,), server),
    ensures
        client <==> status / 100 == 4,
        server <==> status / 100 == 5,
{
}

/// An error tells its cause, only an internal one says what it is, and a client gets
/// the same text with the status `500 Internal Server Error`.
pub proof fn law_errors_are_told(
    text: &str,
    internal: LoadBalancerError,
    error: LoadBalancerError,
    told: String,
    response: (u16, String),
)
    requires
        call_ensures(LoadBalancerError::internal, (text,), internal),
        call_ensures(LoadBalancerError::display, (&error,), told),
        call_ensures(LoadBalancerError::into_response, (error,), response),
    ensures
        internal matches LoadBalancerError::InternalError(cause) && cause@ == text@,
        match error {
            LoadBalancerError::InternalError(cause) => told@ == "internal error: "@ + cause@,
            LoadBalancerError::WorkerError(cause) => told@ == cause@,
            LoadBalancerError::IOError(cause) => told@ == cause@,
        },
        response.0 == 500,
        response.1@ == "LoadBalancer error: "@ + told@,
{
}

/// A request is rewritten for its worker by `http`, which gets the address of the
/// worker, and the path and the query of the request as they are. A path that starts
/// with a slash and has no fragment then stands unchanged behind the address.
pub proof fn law_requests_are_rewritten_for_the_worker(
    worker: WorkerConfig,
    request: RequestUri,
    path_and_query: String,
    uri: Option<String>,
)
    requires
        call_ensures(worker_uri, (&worker, &request), uri),
        request.path_and_query == Some(path_and_query),
    ensures
        match uri {
            Some(text) => http_uri(worker.address@, path_and_query@) == Some(text@),
            None => http_uri(worker.address@, path_and_query@) is None,
        },
        path_and_query@.len() > 0 && path_and_query@[0] == '/' && !path_and_query@.contains('#')
            ==> (uri matches Some(text) ==> text@ == "http://"@ + worker.address@
            + path_and_query@),
{
    assert(request.target() == path_and_query@);
}

/// Whether a character is a letter or a digit.
pub open spec fn is_letter_or_digit(c: char) -> bool {
    'a' <= c <= 'z' || 'A' <= c <= 'Z' || '0' <= c <= '9'
}

/// A plain path with a plain query is never refused at a plain address.
pub proof fn law_plain_requests_are_never_refused(
    worker: WorkerConfig,
    request: RequestUri,
    path_and_query: String,
    uri: Option<String>,
)
    requires
        call_ensures(worker_uri, (&worker, &request), uri),
        request.path_and_query == Some(path_and_query),
        0 < path_and_query@.len(),
        path_and_query@.len() <= 65534,
        path_and_query@[0] == '/',
        forall|i: int|
            0 <= i < path_and_query@.len() ==> {
                let c = #[trigger] path_and_query@[i];
                ||| is_letter_or_digit(c)
                ||| c == '/' || c == '?' || c == '=' || c == '&' || c == '%'
                ||| c == '.' || c == '-' || c == '_' || c == '~' || c == '+'
            },
        worker.address@.len() > 0,
        forall|i: int|
            0 <= i < worker.address@.len() ==> {
                let c = #[trigger] worker.address@[i];
                is_letter_or_digit(c) || c == '.' || c == '-' || c == '_' || c == ':'
            },
        forall|i: int, j: int|
            0 <= i < worker.address@.len() && i < j && j < worker.address@.len()
                && (#[trigger] worker.address@[i]) == ':' ==> (#[trigger] worker.address@[j])
                != ':',
    ensures
        (uri matches Some(text) && text@ == "http://"@ + worker.address@ + path_and_query@),
{
    let target = path_and_query@;
    assert(request.target() == target);
    assert(forall|i: int| 0 <= i < target.len() ==> is_query_char(#[trigger] target[i]));
    assert(forall|i: int|
        0 <= i < target.len() ==> is_path_char(#[trigger] target[i]) || target[i] == '?');
    assert(forall|i: int|
        0 <= i < worker.address@.len() ==> is_host_char(#[trigger] worker.address@[i])
            || worker.address@[i] == ':');
    assert(is_named_host(worker.address@));
}

/// Each strategy picks by its own rule. A round goes to the worker at which its number
/// of picks ends up around the list, and counts the pick; the others change nothing.
pub proof fn law_each_strategy_picks_by_its_rule(
    state: &mut LoadBalancerState,
    picked: Result<Pick, LoadBalancerError>,
)
    requires
        call_ensures(BalancingStrategy::pick_worker, (state,), picked),
    ensures
        final(state).stats.nb_requests_received == old(state).stats.nb_requests_received,
        final(state).stats.nb_errors == old(state).stats.nb_errors,
        final(state).stats.weights() == old(state).stats.weights(),
        final(state).address@ == old(state).address@,
        final(state).workers@.len() == old(state).workers@.len(),
        forall|i: int|
            0 <= i < old(state).workers@.len() ==> {
                &&& (#[trigger] final(state).workers@[i]).stats == old(state).workers@[i].stats
                &&& final(state).workers@[i].config.id == old(state).workers@[i].config.id
                &&& final(state).workers@[i].config.address@
                    == old(state).workers@[i].config.address@
            },
        old(state).strategy matches BalancingStrategy::RoundRobin(picks) ==> {
            &&& picked matches Ok(Pick::Worker(i))
            &&& i < old(state).workers@.len()
            &&& i == picks as int % old(state).workers@.len() as int
            &&& final(state).strategy matches BalancingStrategy::RoundRobin(more)
            &&& more == if picks == usize::MAX {
                0
            } else {
                picks + 1
            }
        },
        !(old(state).strategy is RoundRobin) ==> final(state).strategy == old(state).strategy,
        old(state).strategy is LeastConnectionWithStatsFromWorkers ==> picked matches Ok(
            Pick::AskWorkers,
        ),
        old(state).strategy is LeastConnectionWithInternalStats ==> match picked {
            Ok(Pick::Worker(i)) => {
                &&& i < old(state).workers@.len()
                &&& forall|j: int|
                    0 <= j < old(state).workers@.len() ==> {
                        let a = old(state).workers@[i as int].stats;
                        let b = (#[trigger] old(state).workers@[j]).stats;
                        &&& a.nb_requests_sent - a.nb_requests_handled <= b.nb_requests_sent
                            - b.nb_requests_handled
                        &&& j < i ==> a.nb_requests_sent - a.nb_requests_handled
                            < b.nb_requests_sent - b.nb_requests_handled
                    }
            },
            Ok(Pick::AskWorkers) => false,
            Err(error) => {
                &&& old(state).workers@.len() == 0
                &&& error matches LoadBalancerError::InternalError(cause)
                &&& cause@ == "No workers in config"@
            },
        },
        old(state).strategy is Random ==> match picked {
            Ok(Pick::Worker(i)) => {
                &&& i < old(state).workers@.len()
                &&& exists|drawn_from: Seq<usize>|
                    {
                        &&& drawn_from.len() == old(state).workers@.len()
                        &&& forall|k: int|
                            0 <= k < drawn_from.len() ==> #[trigger] drawn_from[k] == k
                        &&& #[trigger] is_drawn_from(drawn_from, i)
                    }
            },
            Ok(Pick::AskWorkers) => false,
            Err(error) => {
                &&& old(state).workers@.len() == 0
                &&& error matches LoadBalancerError::InternalError(cause)
                &&& cause@ == "List of workers is empty"@
            },
        },
        old(state).strategy is WeightedWorkersByErrors ==> match picked {
            Ok(Pick::Worker(i)) => {
                &&& i < old(state).workers@.len()
                &&& is_sampled(old(state).stats.weights(), i)
                &&& i < old(state).stats.weights().len()
                &&& old(state).stats.weights()[i as int] > 0
            },
            Ok(Pick::AskWorkers) => false,
            Err(error) => {
                &&& error matches LoadBalancerError::InternalError(cause)
                &&& cause@ == "No workers in the config"@
                &&& old(state).stats.weights().len() == 0 || exists|index: usize|
                    old(state).workers@.len() <= index && #[trigger] is_sampled(
                        old(state).stats.weights(),
                        index,
                    )
            },
        },
{
    let before = *old(state);
    lemma_same_model_parts(before, *final(state));
    lemma_model_of_workers(before);
    let active = active_of(before@.stats);
    assert(forall|j: int|
        #![trigger before.workers@[j]]
        0 <= j < before.workers@.len() ==> active[j] == before.workers@[j].stats.nb_requests_sent
            - before.workers@[j].stats.nb_requests_handled);
    let indices = all_indices(before.workers@.len());
    assert(before.workers.len() == before.workers@.len());
    assert(forall|k: int| 0 <= k < before.workers@.len() ==> #[trigger] indices[k] == k);
}

/// A request that arrives is counted as received, and the worker that the strategy
/// picks by its rule is the one for which the request is rewritten. Where the workers
/// have to be asked for their states, each is asked at its address. Nothing else
/// changes, except that a round counts the pick.
pub proof fn law_arriving_request_gets_the_picked_worker(
    state: &mut LoadBalancerState,
    step: (Transfer, TransferAction),
)
    requires
        call_ensures(transfer_request, (state, Transfer::New, TransferEvent::Arrived), step),
    ensures
        final(state).stats.nb_requests_received == (old(state).stats.nb_requests_received + 1)
            % 0x1_0000_0000_0000_0000,
        final(state).stats.nb_errors == old(state).stats.nb_errors,
        final(state).stats.weights() == old(state).stats.weights(),
        final(state).address@ == old(state).address@,
        final(state).workers@.len() == old(state).workers@.len(),
        forall|i: int|
            0 <= i < old(state).workers@.len() ==> {
                &&& (#[trigger] final(state).workers@[i]).stats == old(state).workers@[i].stats
                &&& final(state).workers@[i].config.id == old(state).workers@[i].config.id
                &&& final(state).workers@[i].config.address@
                    == old(state).workers@[i].config.address@
            },
        old(state).strategy matches BalancingStrategy::RoundRobin(picks) ==> {
            &&& step.0 matches Transfer::Chosen(i)
            &&& step.1 == TransferAction::BuildRequest(i)
            &&& i < old(state).workers@.len()
            &&& i == picks as int % old(state).workers@.len() as int
            &&& final(state).strategy matches BalancingStrategy::RoundRobin(more)
            &&& more == if picks == usize::MAX {
                0
            } else {
                picks + 1
            }
        },
        !(old(state).strategy is RoundRobin) ==> final(state).strategy == old(state).strategy,
        old(state).strategy is LeastConnectionWithStatsFromWorkers ==> {
            &&& step.0 == Transfer::AwaitingStates
            &&& step.1 matches TransferAction::AskWorkers(urls)
            &&& urls@.len() == old(state).workers@.len()
            &&& forall|i: int|
                0 <= i < urls@.len() ==> (#[trigger] urls@[i])@ == "http://"@
                    + old(state).workers@[i].config.address@ + "/state"@
        },
        old(state).strategy is LeastConnectionWithInternalStats ==> match step.0 {
            Transfer::Chosen(i) => {
                &&& step.1 == TransferAction::BuildRequest(i)
                &&& i < old(state).workers@.len()
                &&& forall|j: int|
                    0 <= j < old(state).workers@.len() ==> {
                        let a = old(state).workers@[i as int].stats;
                        let b = (#[trigger] old(state).workers@[j]).stats;
                        &&& a.nb_requests_sent - a.nb_requests_handled <= b.nb_requests_sent
                            - b.nb_requests_handled
                        &&& j < i ==> a.nb_requests_sent - a.nb_requests_handled
                            < b.nb_requests_sent - b.nb_requests_handled
                    }
            },
            Transfer::Done => {
                &&& old(state).workers@.len() == 0
                &&& step.1 matches TransferAction::Fail(LoadBalancerError::InternalError(cause))
                &&& cause@ == "No workers in config"@
            },
            _ => false,
        },
        old(state).strategy is Random ==> match step.0 {
            Transfer::Chosen(i) => {
                &&& step.1 == TransferAction::BuildRequest(i)
                &&& i < old(state).workers@.len()
                &&& exists|drawn_from: Seq<usize>|
                    {
                        &&& drawn_from.len() == old(state).workers@.len()
                        &&& forall|k: int|
                            0 <= k < drawn_from.len() ==> #[trigger] drawn_from[k] == k
                        &&& #[trigger] is_drawn_from(drawn_from, i)
                    }
            },
            Transfer::Done => {
                &&& old(state).workers@.len() == 0
                &&& step.1 matches TransferAction::Fail(LoadBalancerError::InternalError(cause))
                &&& cause@ == "List of workers is empty"@
            },
            _ => false,
        },
        old(state).strategy is WeightedWorkersByErrors ==> match step.0 {
            Transfer::Chosen(i) => {
                &&& step.1 == TransferAction::BuildRequest(i)
                &&& i < old(state).workers@.len()
                &&& is_sampled(old(state).stats.weights(), i)
                &&& i < old(state).stats.weights().len()
                &&& old(state).stats.weights()[i as int] > 0
            },
            Transfer::Done => {
                &&& step.1 matches TransferAction::Fail(LoadBalancerError::InternalError(cause))
                &&& cause@ == "No workers in the config"@
                &&& old(state).stats.weights().len() == 0 || exists|index: usize|
                    old(state).workers@.len() <= index && #[trigger] is_sampled(
                        old(state).stats.weights(),
                        index,
                    )
            },
            _ => false,
        },
{
    let before = *old(state);
    lemma_same_model_parts(before, *final(state));
    lemma_model_of_workers(before);
    let active = active_of(before@.stats);
    assert(forall|j: int|
        #![trigger before.workers@[j]]
        0 <= j < before.workers@.len() ==> active[j] == before.workers@[j].stats.nb_requests_sent
            - before.workers@[j].stats.nb_requests_handled);
    let indices = all_indices(before.workers@.len());
    assert(before.workers.len() == before.workers@.len());
    assert(forall|k: int| 0 <= k < before.workers@.len() ==> #[trigger] indices[k] == k);
    if let TransferAction::AskWorkers(urls) = step.1 {
        assert forall|i: int| 0 <= i < urls@.len() implies (#[trigger] urls@[i])@ == "http://"@
            + before.workers@[i].config.address@ + "/state"@ by {
            assert(before@.configs[i].address == before.workers@[i].config.address@);
        }
    }
}

/// Where no worker has told its state, a request that waits for the states fails, and
/// nothing changes in the load balancer.
pub proof fn law_no_states_choose_none(
    state: &mut LoadBalancerState,
    replies: StateReplies,
    step: (Transfer, TransferAction),
)
    requires
        call_ensures(
            transfer_request,
            (state, Transfer::AwaitingStates, TransferEvent::WorkerStates(replies)),
            step,
        ),
        forall|j: int| 0 <= j < replies@.len() ==> (#[trigger] replies@[j]) is Err,
    ensures
        final(state)@ == old(state)@,
        step.0 == Transfer::Done,
        (step.1 matches TransferAction::Fail(LoadBalancerError::InternalError(cause)) && cause@
            == "No stats received from any worker"@),
{
}

/// Once workers have told their states, the request goes to the worker that these point
/// to: if `k` is the reply of a worker that handles the fewest requests of those that
/// replied, and the first of these, it is the first worker with the id in that reply.
/// If none has the id, the request fails. Nothing changes in the load balancer.
pub proof fn law_states_of_the_workers_choose_one(
    state: &mut LoadBalancerState,
    replies: StateReplies,
    step: (Transfer, TransferAction),
    k: int,
    least: DeserializedWorkerState,
)
    requires
        call_ensures(
            transfer_request,
            (state, Transfer::AwaitingStates, TransferEvent::WorkerStates(replies)),
            step,
        ),
        0 <= k < replies@.len(),
        (replies@[k] matches Ok(reply) && reply == least),
        forall|j: int|
            0 <= j < replies@.len() ==> ((#[trigger] replies@[j]) matches Ok(other)
                ==> least.nb_requests_being_handled <= other.nb_requests_being_handled),
        forall|j: int|
            0 <= j < k ==> ((#[trigger] replies@[j]) matches Ok(other)
                ==> least.nb_requests_being_handled < other.nb_requests_being_handled),
    ensures
        final(state)@ == old(state)@,
        match step.0 {
            Transfer::Chosen(i) => {
                &&& step.1 == TransferAction::BuildRequest(i)
                &&& i < old(state).workers@.len()
                &&& old(state).workers@[i as int].config.id == least.config.id
                &&& forall|j: int|
                    0 <= j < i ==> (#[trigger] old(state).workers@[j]).config.id != least.config.id
            },
            Transfer::Done => {
                &&& step.1 matches TransferAction::Fail(LoadBalancerError::InternalError(cause))
                &&& cause@ == "Worker not found in the load balancer config"@
                &&& forall|j: int|
                    0 <= j < old(state).workers@.len() ==> (
                    #[trigger] old(state).workers@[j]).config.id != least.config.id
            },
            _ => false,
        },
{
    let before = *old(state);
    lemma_model_of_workers(before);
    assert(replies@[k] is Ok);
    assert(is_least_busy_reply(replies@, k));
    assert forall|l: int| is_least_busy_reply(replies@, l) implies l == k by {
        assert(replies@[l] is Ok);
    }
}

/// A request stays with the worker that was chosen for it, whatever happens to other
/// requests in between: it is rewritten for that worker, sent to that worker and
/// counted there as sent, and the answer of that worker is counted there as handled and
/// handed on.
pub proof fn law_request_stays_with_its_worker(
    choosing: &mut LoadBalancerState,
    sending: &mut LoadBalancerState,
    answering: &mut LoadBalancerState,
    transfer: Transfer,
    event: TransferEvent,
    worker: usize,
    chosen: (Transfer, TransferAction),
    sent: (Transfer, TransferAction),
    response: Result<u16, String>,
    answered: (Transfer, TransferAction),
)
    requires
        call_ensures(transfer_request, (choosing, transfer, event), chosen),
        chosen.0 == Transfer::Chosen(worker),
        call_ensures(transfer_request, (sending, chosen.0, TransferEvent::RequestBuilt), sent),
        call_ensures(
            transfer_request,
            (answering, sent.0, TransferEvent::Responded(response)),
            answered,
        ),
        worker < old(sending).workers@.len(),
        worker < old(answering).workers@.len(),
    ensures
        chosen.1 == TransferAction::BuildRequest(worker),
        worker < old(choosing).workers@.len(),
        sent.0 == Transfer::InFlight(worker),
        sent.1 == TransferAction::Send(worker),
        final(sending).workers@[worker as int].stats.nb_requests_sent == (old(
            sending,
        ).workers@[worker as int].stats.nb_requests_sent + 1) % 0x1_0000_0000_0000_0000,
        final(answering).workers@[worker as int].stats.nb_requests_handled == (old(
            answering,
        ).workers@[worker as int].stats.nb_requests_handled + 1) % 0x1_0000_0000_0000_0000,
        answered.0 == Transfer::Done,
        response matches Ok(status) ==> answered.1 == TransferAction::Reply(status),
        response matches Err(text) ==> (answered.1 matches TransferAction::Fail(
            LoadBalancerError::InternalError(cause),
        ) && cause == text),
{
    lemma_model_of_workers(*old(choosing));
    lemma_model_of_workers(*old(sending));
    lemma_model_of_workers(*final(sending));
    lemma_model_of_workers(*old(answering));
    lemma_model_of_workers(*final(answering));
    assert(old(sending)@.stats[worker as int] == old(sending).workers@[worker as int].stats);
    assert(old(answering)@.stats[worker as int] == old(answering).workers@[worker as int].stats);
    assert(final(sending)@.stats.len() == old(sending)@.stats.len());
    assert(final(answering)@.stats.len() == old(answering)@.stats.len());
    assert(final(sending)@.stats[worker as int] == final(sending).workers@[worker as int].stats);
    assert(final(answering)@.stats[worker as int]
        == final(answering).workers@[worker as int].stats);
}

/// Sending a request counts it with the worker that was chosen, and nothing else
/// changes.
pub proof fn law_sent_request_is_counted_with_its_worker(
    state: &mut LoadBalancerState,
    worker: usize,
    step: (Transfer, TransferAction),
)
    requires
        call_ensures(
            transfer_request,
            (state, Transfer::Chosen(worker), TransferEvent::RequestBuilt),
            step,
        ),
        worker < old(state).workers@.len(),
    ensures
        step.0 == Transfer::InFlight(worker),
        step.1 == TransferAction::Send(worker),
        final(state).stats.nb_requests_received == old(state).stats.nb_requests_received,
        final(state).stats.nb_errors == old(state).stats.nb_errors,
        final(state).stats.weights() == old(state).stats.weights(),
        final(state).address@ == old(state).address@,
        final(state).strategy == old(state).strategy,
        final(state).workers@.len() == old(state).workers@.len(),
        forall|i: int|
            0 <= i < old(state).workers@.len() ==> {
                let before = old(state).workers@[i];
                let after = #[trigger] final(state).workers@[i];
                &&& after.config.id == before.config.id
                &&& after.config.address@ == before.config.address@
                &&& after.stats.nb_requests_sent == if i == worker {
                    (before.stats.nb_requests_sent + 1) % 0x1_0000_0000_0000_0000
                } else {
                    before.stats.nb_requests_sent as int
                }
                &&& after.stats.nb_requests_handled == before.stats.nb_requests_handled
                &&& after.stats.nb_error_status_received == before.stats.nb_error_status_received
            },
{
    lemma_same_model_parts(*old(state), *final(state));
    lemma_model_of_workers(*old(state));
    lemma_model_of_workers(*final(state));
    assert forall|i: int| 0 <= i < old(state).workers@.len() implies (
    #[trigger] final(state).workers@[i]).stats == old(state)@.sent(worker as int).stats[i] by {
        assert(old(state)@.stats[i] == old(state).workers@[i].stats);
    }
    assert(forall|i: int|
        #![trigger final(state).workers@[i]]
        0 <= i < old(state).workers@.len() ==> old(state)@.stats[i]
            == old(state).workers@[i].stats);
}

/// The answer to a request is handed on and counted with the worker that was sent it: a
/// status of the five hundreds is an error of the worker, one of the four hundreds an
/// error of the load balancer, and no answer an error of both. Nothing else changes.
pub proof fn law_answered_request_is_counted_with_its_worker(
    state: &mut LoadBalancerState,
    worker: usize,
    response: Result<u16, String>,
    step: (Transfer, TransferAction),
)
    requires
        call_ensures(
            transfer_request,
            (state, Transfer::InFlight(worker), TransferEvent::Responded(response)),
            step,
        ),
        worker < old(state).workers@.len(),
    ensures
        step.0 == Transfer::Done,
        response matches Ok(status) ==> step.1 == TransferAction::Reply(status),
        response matches Err(text) ==> (step.1 matches TransferAction::Fail(
            LoadBalancerError::InternalError(cause),
        ) && cause == text),
        final(state).stats.nb_requests_received == old(state).stats.nb_requests_received,
        final(state).stats.nb_errors == if (response matches Ok(status) ==> status / 100 == 4) {
            (old(state).stats.nb_errors + 1) % 0x1_0000_0000_0000_0000
        } else {
            old(state).stats.nb_errors as int
        },
        final(state).stats.weights() == old(state).stats.weights(),
        final(state).address@ == old(state).address@,
        final(state).strategy == old(state).strategy,
        final(state).workers@.len() == old(state).workers@.len(),
        forall|i: int|
            0 <= i < old(state).workers@.len() ==> {
                let before = old(state).workers@[i];
                let after = #[trigger] final(state).workers@[i];
                &&& after.config.id == before.config.id
                &&& after.config.address@ == before.config.address@
                &&& after.stats.nb_requests_sent == before.stats.nb_requests_sent
                &&& after.stats.nb_requests_handled == if i == worker {
                    (before.stats.nb_requests_handled + 1) % 0x1_0000_0000_0000_0000
                } else {
                    before.stats.nb_requests_handled as int
                }
                &&& after.stats.nb_error_status_received == if i == worker && (
                response matches Ok(status) ==> status / 100 == 5) {
                    (before.stats.nb_error_status_received + 1) % 0x1_0000_0000_0000_0000
                } else {
                    before.stats.nb_error_status_received as int
                }
            },
{
    lemma_same_model_parts(*old(state), *final(state));
    lemma_model_of_workers(*old(state));
    lemma_model_of_workers(*final(state));
    assert forall|i: int| 0 <= i < old(state).workers@.len() implies (
    #[trigger] final(state).workers@[i]).stats == old(state)@.handled(
        worker as int,
        outcome_of(response),
    ).stats[i] by {
        assert(old(state)@.stats[i] == old(state).workers@[i].stats);
    }
    assert(forall|i: int|
        #![trigger final(state).workers@[i]]
        0 <= i < old(state).workers@.len() ==> old(state)@.stats[i]
            == old(state).workers@[i].stats);
}

/// A request is taken in whenever the strategy can pick: always at random, by weight and
/// by the states of the workers, in a round if there is a worker, and by connections if
/// no worker has handled more than it was sent. A request on its way is always taken
/// further.
pub proof fn law_requests_are_taken(
    state: &mut LoadBalancerState,
    worker: usize,
    replies: StateReplies,
    response: Result<u16, String>,
)
    ensures
        match old(state).strategy {
            BalancingStrategy::RoundRobin(_) => old(state).workers@.len() > 0,
            BalancingStrategy::LeastConnectionWithInternalStats => forall|i: int|
                0 <= i < old(state).workers@.len() ==> (
                #[trigger] old(state).workers@[i]).stats.nb_requests_handled
                    <= old(state).workers@[i].stats.nb_requests_sent,
            BalancingStrategy::ResourceBased => false,
            _ => true,
        } ==> {
            &&& call_requires(BalancingStrategy::pick_worker, (state,))
            &&& call_requires(transfer_request, (state, Transfer::New, TransferEvent::Arrived))
        },
        call_requires(
            transfer_request,
            (state, Transfer::AwaitingStates, TransferEvent::WorkerStates(replies)),
        ),
        worker < old(state).workers@.len() ==> {
            &&& call_requires(
                transfer_request,
                (state, Transfer::Chosen(worker), TransferEvent::RequestBuilt),
            )
            &&& call_requires(
                transfer_request,
                (state, Transfer::InFlight(worker), TransferEvent::Responded(response)),
            )
            &&& call_requires(LoadBalancerState::request_sent, (state, worker))
            &&& call_requires(LoadBalancerState::response_received, (state, worker, response))
        },
{
    let before = *old(state);
    lemma_model_of_workers(before);
    assert(before@.strategy == before.strategy);
    if before.strategy is LeastConnectionWithInternalStats && forall|i: int|
        0 <= i < before.workers@.len() ==> (
        #[trigger] before.workers@[i]).stats.nb_requests_handled
            <= before.workers@[i].stats.nb_requests_sent {
        assert forall|i: int| 0 <= i < before@.stats.len() implies (
        #[trigger] before@.stats[i]).active() >= 0 by {
            assert(before.workers@[i].stats.nb_requests_handled
                <= before.workers@[i].stats.nb_requests_sent);
        }
    }
}

/// The weights can be computed whenever no worker has more errors than requests, and
/// the other operations on a list of workers ask for no more than their rules need.
pub proof fn law_operations_on_workers_are_taken(
    stats: &mut LoadBalancerStats,
    picks: &mut usize,
    strategy: BalancingStrategy,
    workers: Vec<WorkerView>,
    nb_workers: usize,
    worker: WorkerConfig,
    request: RequestUri,
)
    ensures
        (forall|i: int|
            0 <= i < workers@.len() ==> {
                ||| (#[trigger] workers@[i]).stats.nb_requests_handled == 0
                ||| workers@[i].stats.nb_error_status_received
                    <= workers@[i].stats.nb_requests_handled
            }) ==> {
            &&& call_requires(error_weights, (&workers,))
            &&& call_requires(LoadBalancerStats::recompute_weight, (stats, &strategy, &workers))
            &&& forall|i: int|
                0 <= i < workers@.len() ==> call_requires(
                    WorkerStatistics::error_weight,
                    (&(#[trigger] workers@[i]).stats,),
                )
        },
        !(strategy is WeightedWorkersByErrors) || old(stats).nb_requests_received % 100 != 0
            ==> call_requires(LoadBalancerStats::recompute_weight, (stats, &strategy, &workers)),
        workers@.len() > 0 ==> call_requires(round_robin, (&workers, picks)),
        (forall|i: int|
            0 <= i < workers@.len() ==> (#[trigger] workers@[i]).stats.nb_requests_handled
                <= workers@[i].stats.nb_requests_sent) ==> call_requires(
            least_connection_with_internal_stats,
            (&workers,),
        ),
        nb_workers > 0 ==> call_requires(LoadBalancerStats::new, (nb_workers,)),
        request.path_and_query is Some ==> call_requires(worker_uri, (&worker, &request)),
{
    assert forall|i: int| 0 <= i < workers@.len() && {
        ||| (#[trigger] workers@[i]).stats.nb_requests_handled == 0
        ||| workers@[i].stats.nb_error_status_received <= workers@[i].stats.nb_requests_handled
    } implies workers@[i].stats.has_error_ratio() by {}
    assert forall|i: int|
        0 <= i < workers@.len() && (#[trigger] workers@[i]).stats.nb_requests_handled
            <= workers@[i].stats.nb_requests_sent implies workers@[i].stats.active() >= 0 by {}
}

} // verus!
