//! The load balancer as the contracts see it: what it knows of its workers, what
//! it has counted, and how each event changes that.

use crate::load_balancer::balancing_strategy::{
    all_indices, is_sampled_beyond, BalancingStrategy, Pick,
};
use crate::load_balancer::metrics::{
    counted, law_weight_is_never_zero, weights_by_errors, WorkerStatistics,
};
use crate::load_balancer::server::{LoadBalancerError, WorkerView};
use crate::outside::{is_drawn_from, is_sampled};
use crate::worker::WorkerConfigView;
use vstd::prelude::*;

verus! {

/// Whether `keys[i]` is a smallest key, and the first of them.
pub open spec fn is_first_min(keys: Seq<int>, i: int) -> bool {
    &&& 0 <= i < keys.len()
    &&& forall|j: int| 0 <= j < keys.len() ==> keys[i] <= #[trigger] keys[j]
    &&& forall|j: int| 0 <= j < i ==> keys[i] < #[trigger] keys[j]
}

/// What the load balancer has counted for each of a list of workers.
pub open spec fn stats_of(workers: Seq<WorkerView>) -> Seq<WorkerStatistics> {
    Seq::new(workers.len(), |i: int| workers[i].stats)
}

/// The configurations of a list of workers.
pub open spec fn configs_of(workers: Seq<WorkerView>) -> Seq<WorkerConfigView> {
    Seq::new(workers.len(), |i: int| workers[i].config@)
}

/// How many requests each of a list of workers is handling.
pub open spec fn active_of(stats: Seq<WorkerStatistics>) -> Seq<int> {
    Seq::new(stats.len(), |i: int| stats[i].active())
}

/// Whether a list of weights can lead beyond a number of workers: it is empty, or
/// it gives weight to an index at which there is no worker.
pub open spec fn reaches_beyond(weights: Seq<u64>, nb_workers: nat) -> bool {
    ||| weights.len() == 0
    ||| exists|i: int| nb_workers <= i < weights.len() && #[trigger] weights[i] > 0
}

/// The answer of a worker to a request: its status, or that none came.
pub enum Outcome {
    Status(u16),
    NoAnswer,
}

impl Outcome {
    /// Whether the outcome counts as an error of the load balancer.
    pub open spec fn blames_balancer(self) -> bool {
        match self {
            Outcome::Status(status) => 400 <= status < 500,
            Outcome::NoAnswer => true,
        }
    }

    /// Whether the outcome counts as an error of the worker.
    pub open spec fn blames_worker(self) -> bool {
        match self {
            Outcome::Status(status) => 500 <= status < 600,
            Outcome::NoAnswer => true,
        }
    }
}

/// The load balancer as the contracts see it.
#[verifier::ext_equal]
pub struct Balancer {
    pub address: Seq<char>,
    pub configs: Seq<WorkerConfigView>,
    pub stats: Seq<WorkerStatistics>,
    pub strategy: BalancingStrategy,
    pub nb_requests_received: u64,
    pub nb_errors: u64,
    pub weights: Seq<u64>,
}

impl Balancer {
    pub open spec fn nb_workers(self) -> nat {
        self.stats.len()
    }

    /// Each worker has a configuration and statistics, and a weight.
    pub open spec fn well_formed(self) -> bool {
        &&& self.configs.len() == self.nb_workers()
        &&& self.weights.len() == self.nb_workers()
    }

    /// Whether the strategy can pick a worker at all.
    ///
    /// The round needs a worker to go to; the connections of a worker can be
    /// counted only while it has not handled more requests than it was sent; and
    /// no resources are known by which to pick.
    pub open spec fn can_pick(self) -> bool {
        match self.strategy {
            BalancingStrategy::RoundRobin(_) => self.nb_workers() > 0,
            BalancingStrategy::LeastConnectionWithInternalStats => forall|i: int|
                0 <= i < self.stats.len() ==> (#[trigger] self.stats[i]).active() >= 0,
            BalancingStrategy::ResourceBased => false,
            _ => true,
        }
    }

    /// Whether the strategy may pick the worker at an index, by what the load
    /// balancer knows itself.
    pub open spec fn may_pick(self, i: int) -> bool {
        match self.strategy {
            BalancingStrategy::RoundRobin(picks) => self.nb_workers() > 0 && i == picks as int
                % self.nb_workers() as int,
            BalancingStrategy::LeastConnectionWithStatsFromWorkers => false,
            BalancingStrategy::LeastConnectionWithInternalStats => is_first_min(
                active_of(self.stats),
                i,
            ),
            BalancingStrategy::Random => 0 <= i < self.nb_workers(),
            BalancingStrategy::ResourceBased => false,
            BalancingStrategy::WeightedWorkersByErrors => 0 <= i < self.nb_workers() && i
                < self.weights.len() && self.weights[i] > 0,
        }
    }

    /// Whether the strategy may find no worker, and say so with a text.
    pub open spec fn may_find_none(self, text: Seq<char>) -> bool {
        match self.strategy {
            BalancingStrategy::Random => self.nb_workers() == 0 && text
                == "List of workers is empty"@,
            BalancingStrategy::LeastConnectionWithInternalStats => self.nb_workers() == 0 && text
                == "No workers in config"@,
            BalancingStrategy::WeightedWorkersByErrors => reaches_beyond(
                self.weights,
                self.nb_workers(),
            ) && text == "No workers in the config"@,
            _ => false,
        }
    }

    /// Whether the worker at an index is the one that was drawn, where the strategy
    /// draws one.
    pub open spec fn is_drawn(self, i: usize) -> bool {
        match self.strategy {
            BalancingStrategy::Random => is_drawn_from(all_indices(self.nb_workers()), i),
            BalancingStrategy::WeightedWorkersByErrors => is_sampled(self.weights, i),
            _ => true,
        }
    }

    /// Whether the draw led to no worker, where the strategy draws one.
    pub open spec fn is_none_drawn(self) -> bool {
        self.strategy is WeightedWorkersByErrors ==> is_sampled_beyond(
            self.weights,
            self.nb_workers(),
        )
    }

    /// Whether the strategy may come to a pick.
    pub open spec fn is_pick(self, picked: Result<Pick, LoadBalancerError>) -> bool {
        match picked {
            Ok(Pick::Worker(i)) => self.may_pick(i as int) && self.is_drawn(i),
            Ok(Pick::AskWorkers) => self.strategy is LeastConnectionWithStatsFromWorkers,
            Err(LoadBalancerError::InternalError(text)) => self.may_find_none(text@)
                && self.is_none_drawn(),
            Err(_) => false,
        }
    }

    /// After a pick: a round has moved on, and nothing else has changed.
    pub open spec fn picked(self) -> Balancer {
        match self.strategy {
            BalancingStrategy::RoundRobin(picks) => Balancer {
                strategy: BalancingStrategy::RoundRobin(
                    if picks == usize::MAX {
                        0
                    } else {
                        (picks + 1) as usize
                    },
                ),
                ..self
            },
            _ => self,
        }
    }

    /// After a request came in.
    pub open spec fn arrived(self) -> Balancer {
        Balancer { nb_requests_received: counted(self.nb_requests_received), ..self }
    }

    /// After a request was sent to the worker at an index.
    pub open spec fn sent(self, worker: int) -> Balancer {
        let stats = self.stats[worker];
        Balancer {
            stats: self.stats.update(
                worker,
                WorkerStatistics { nb_requests_sent: counted(stats.nb_requests_sent), ..stats },
            ),
            ..self
        }
    }

    /// After the worker at an index was done with a request.
    pub open spec fn handled(self, worker: int, outcome: Outcome) -> Balancer {
        let stats = self.stats[worker];
        Balancer {
            stats: self.stats.update(
                worker,
                WorkerStatistics {
                    nb_requests_handled: counted(stats.nb_requests_handled),
                    nb_error_status_received: if outcome.blames_worker() {
                        counted(stats.nb_error_status_received)
                    } else {
                        stats.nb_error_status_received
                    },
                    ..stats
                },
            ),
            nb_errors: if outcome.blames_balancer() {
                counted(self.nb_errors)
            } else {
                self.nb_errors
            },
            ..self
        }
    }

    /// After another strategy was set.
    pub open spec fn with_strategy(self, strategy: BalancingStrategy) -> Balancer {
        Balancer { strategy, ..self }
    }
}

impl Balancer {
    /// After a number of picks.
    pub open spec fn after_picks(self, nb_picks: nat) -> Balancer
        decreases nb_picks,
    {
        if nb_picks == 0 {
            self
        } else {
            self.after_picks((nb_picks - 1) as nat).picked()
        }
    }

    /// How many of the next picks may go to the worker at an index.
    pub open spec fn turns(self, nb_picks: nat, i: int) -> nat
        decreases nb_picks,
    {
        if nb_picks == 0 {
            0
        } else {
            let before = self.after_picks((nb_picks - 1) as nat);
            self.turns((nb_picks - 1) as nat, i) + if before.may_pick(i) {
                1nat
            } else {
                0
            }
        }
    }
}

/// The round goes through the workers in turn: as long as its counter does not
/// start over, the pick after `nb_picks` others goes to the worker that lies as
/// many places further, counted around the list.
pub proof fn law_round_robin_goes_round(balancer: Balancer, nb_picks: nat, i: int)
    requires
        balancer.strategy is RoundRobin,
        balancer.nb_workers() > 0,
        balancer.strategy->RoundRobin_0 + nb_picks <= usize::MAX,
    ensures
        balancer.after_picks(nb_picks) == balancer.with_strategy(
            BalancingStrategy::RoundRobin((balancer.strategy->RoundRobin_0 + nb_picks) as usize),
        ),
        balancer.after_picks(nb_picks).may_pick(i) <==> i == (balancer.strategy->RoundRobin_0
            + nb_picks) % balancer.nb_workers() as int,
    decreases nb_picks,
{
    if nb_picks > 0 {
        law_round_robin_goes_round(balancer, (nb_picks - 1) as nat, i);
    }
}

/// A quotient is known by the remainder that it leaves.
proof fn lemma_quotient(x: int, n: int, q: int, r: int)
    requires
        x == n * q + r,
        0 <= r < n,
    ensures
        x / n == q,
{
    assert(n * q == q * n) by (nonlinear_arith);
    vstd::arithmetic::div_mod::lemma_fundamental_div_mod_converse(x, n, q, r);
}

/// How often a number congruent to `i` was passed on the way up to `x`, up to a
/// constant.
spec fn passed(x: int, i: int, n: int) -> int {
    (x - 1 - i) / n
}

/// Going from `x` to `x + 1` passes a number congruent to `i` exactly when `x`
/// is one.
proof fn lemma_passed_step(x: int, i: int, n: int)
    requires
        0 <= i < n,
    ensures
        passed(x + 1, i, n) == passed(x, i, n) + if x % n == i {
            1int
        } else {
            0
        },
{
    let q = x / n;
    let r = x % n;
    vstd::arithmetic::div_mod::lemma_fundamental_div_mod(x, n);
    assert(x == n * q + r && 0 <= r < n);
    if r > i {
        lemma_quotient(x - i, n, q, r - i);
        lemma_quotient(x - 1 - i, n, q, r - 1 - i);
    } else if r == i {
        lemma_quotient(x - i, n, q, 0);
        assert(n * (q - 1) == n * q - n) by (nonlinear_arith);
        lemma_quotient(x - 1 - i, n, q - 1, n - 1);
    } else {
        assert(n * (q - 1) == n * q - n) by (nonlinear_arith);
        lemma_quotient(x - i, n, q - 1, n + r - i);
        lemma_quotient(x - 1 - i, n, q - 1, n + r - 1 - i);
    }
}

/// The number of turns in closed form.
proof fn lemma_turns(balancer: Balancer, nb_picks: nat, i: int)
    requires
        balancer.strategy is RoundRobin,
        0 <= i < balancer.nb_workers(),
        balancer.strategy->RoundRobin_0 + nb_picks <= usize::MAX,
    ensures
        balancer.turns(nb_picks, i) == passed(
            balancer.strategy->RoundRobin_0 + nb_picks,
            i,
            balancer.nb_workers() as int,
        ) - passed(balancer.strategy->RoundRobin_0 as int, i, balancer.nb_workers() as int),
    decreases nb_picks,
{
    if nb_picks > 0 {
        let fewer = (nb_picks - 1) as nat;
        lemma_turns(balancer, fewer, i);
        law_round_robin_goes_round(balancer, fewer, i);
        lemma_passed_step(
            balancer.strategy->RoundRobin_0 + fewer,
            i,
            balancer.nb_workers() as int,
        );
    }
}

/// A quotient grows by the quotient of what is added, or by one more.
proof fn lemma_quotient_grows(a: int, b: int, n: int)
    requires
        n > 0,
        b >= 0,
    ensures
        b / n <= (a + b) / n - a / n <= b / n + 1,
        b % n == 0 ==> (a + b) / n - a / n == b / n,
{
    vstd::arithmetic::div_mod::lemma_fundamental_div_mod(a, n);
    vstd::arithmetic::div_mod::lemma_fundamental_div_mod(b, n);
    let qa = a / n;
    let qb = b / n;
    let r = a % n + b % n;
    assert(n * (qa + qb) == n * qa + n * qb) by (nonlinear_arith);
    assert(n * (qa + qb + 1) == n * qa + n * qb + n) by (nonlinear_arith);
    if r < n {
        lemma_quotient(a + b, n, qa + qb, r);
    } else {
        lemma_quotient(a + b, n, qa + qb + 1, r - n);
    }
}

/// The round is fair: of any number of picks in a row each worker gets its share,
/// or one more, and of whole rounds each worker gets exactly its share.
pub proof fn law_round_robin_is_fair(balancer: Balancer, nb_picks: nat, i: int)
    requires
        balancer.strategy is RoundRobin,
        0 <= i < balancer.nb_workers(),
        balancer.strategy->RoundRobin_0 + nb_picks <= usize::MAX,
    ensures
        nb_picks / balancer.nb_workers() <= balancer.turns(nb_picks, i) <= nb_picks
            / balancer.nb_workers() + 1,
        nb_picks % balancer.nb_workers() == 0 ==> balancer.turns(nb_picks, i) == nb_picks
            / balancer.nb_workers(),
{
    lemma_turns(balancer, nb_picks, i);
    lemma_quotient_grows(
        balancer.strategy->RoundRobin_0 - 1 - i,
        nb_picks as int,
        balancer.nb_workers() as int,
    );
}

/// There is only one first smallest key, so the worker with the least active
/// connections is never left open.
pub proof fn law_first_min_is_unique(keys: Seq<int>, i: int, j: int)
    requires
        is_first_min(keys, i),
        is_first_min(keys, j),
    ensures
        i == j,
{
    assert(keys[i] <= keys[j] && keys[j] <= keys[i]);
}

/// A strategy only ever picks a worker of the list.
pub proof fn law_picks_are_workers(balancer: Balancer, i: int)
    requires
        balancer.may_pick(i),
    ensures
        0 <= i < balancer.nb_workers(),
{
}

/// A strategy finds no worker only where there is none.
pub proof fn law_none_found_only_without_workers(balancer: Balancer, text: Seq<char>)
    requires
        balancer.well_formed(),
        balancer.may_find_none(text),
    ensures
        balancer.nb_workers() == 0,
{
}

/// Under the weights every worker that has weight may be picked, and no other.
pub proof fn law_weights_decide_who_is_picked(balancer: Balancer, i: int)
    requires
        balancer.well_formed(),
        balancer.strategy is WeightedWorkersByErrors,
        0 <= i < balancer.nb_workers(),
    ensures
        balancer.may_pick(i) <==> balancer.weights[i] > 0,
{
}

/// Weights that were computed from the errors of the workers leave every worker in
/// play: each may be picked, and one is always found.
pub proof fn law_errors_leave_every_worker_in_play(
    balancer: Balancer,
    workers: Seq<WorkerView>,
    i: int,
    text: Seq<char>,
)
    requires
        balancer.strategy is WeightedWorkersByErrors,
        balancer.stats == stats_of(workers),
        balancer.weights == weights_by_errors(workers),
        0 <= i < workers.len(),
        workers[i].stats.has_error_ratio(),
    ensures
        balancer.may_pick(i),
        !balancer.may_find_none(text),
{
    law_weight_is_never_zero(workers[i].stats);
}

/// A strategy that was set is the one that is used, until another is set, and
/// setting one leaves all the rest as it was.
pub proof fn law_last_strategy_set_is_used(
    balancer: Balancer,
    first: BalancingStrategy,
    second: BalancingStrategy,
)
    ensures
        balancer.with_strategy(first).with_strategy(second) == balancer.with_strategy(second),
        balancer.with_strategy(second).strategy == second,
        balancer.with_strategy(second).with_strategy(balancer.strategy) == balancer,
{
}

/// The sum of a list of numbers.
pub open spec fn total(numbers: Seq<int>) -> int
    decreases numbers.len(),
{
    if numbers.len() == 0 {
        0
    } else {
        total(numbers.drop_last()) + numbers.last()
    }
}

/// How many requests each of a list of workers was sent.
pub open spec fn sent_of(stats: Seq<WorkerStatistics>) -> Seq<int> {
    Seq::new(stats.len(), |i: int| stats[i].nb_requests_sent as int)
}

/// How many requests each of a list of workers has handled.
pub open spec fn handled_of(stats: Seq<WorkerStatistics>) -> Seq<int> {
    Seq::new(stats.len(), |i: int| stats[i].nb_requests_handled as int)
}

/// Changing one of the numbers changes the sum by as much.
pub(crate) proof fn lemma_total_update(numbers: Seq<int>, i: int, number: int)
    requires
        0 <= i < numbers.len(),
    ensures
        total(numbers.update(i, number)) == total(numbers) + number - numbers[i],
    decreases numbers.len(),
{
    let updated = numbers.update(i, number);
    if i == numbers.len() - 1 {
        assert(updated.drop_last() =~= numbers.drop_last());
    } else {
        assert(updated.drop_last() =~= numbers.drop_last().update(i, number));
        lemma_total_update(numbers.drop_last(), i, number);
    }
}

/// A sum of numbers that are not negative is no less than any of them.
pub(crate) proof fn lemma_total_bounds(numbers: Seq<int>, i: int)
    requires
        0 <= i < numbers.len(),
        forall|j: int| 0 <= j < numbers.len() ==> #[trigger] numbers[j] >= 0,
    ensures
        total(numbers) >= numbers[i],
    decreases numbers.len(),
{
    let rest = numbers.drop_last();
    assert(forall|j: int| 0 <= j < rest.len() ==> rest[j] == numbers[j]);
    assert(numbers[0] >= 0 && numbers[numbers.len() - 1] >= 0);
    if i < rest.len() {
        lemma_total_bounds(rest, i);
    } else if rest.len() > 0 {
        lemma_total_bounds(rest, 0);
        assert(rest[0] == numbers[0]);
    } else {
        assert(total(rest) == 0);
    }
}

/// The sums over two lists compare as the lists do, term by term.
pub(crate) proof fn lemma_total_monotone(smaller: Seq<int>, larger: Seq<int>)
    requires
        smaller.len() == larger.len(),
        forall|j: int| 0 <= j < smaller.len() ==> #[trigger] smaller[j] <= larger[j],
    ensures
        total(smaller) <= total(larger),
    decreases smaller.len(),
{
    if smaller.len() > 0 {
        let rest = smaller.drop_last();
        assert forall|j: int| 0 <= j < rest.len() implies #[trigger] rest[j]
            <= larger.drop_last()[j] by {
            assert(rest[j] == smaller[j]);
        }
        lemma_total_monotone(rest, larger.drop_last());
    }
}

/// The sum over a list of zeros.
pub(crate) proof fn lemma_total_of_zeros(numbers: Seq<int>)
    requires
        forall|j: int| 0 <= j < numbers.len() ==> #[trigger] numbers[j] == 0,
    ensures
        total(numbers) == 0,
    decreases numbers.len(),
{
    if numbers.len() > 0 {
        let rest = numbers.drop_last();
        assert(forall|j: int| 0 <= j < rest.len() ==> rest[j] == numbers[j]);
        lemma_total_of_zeros(rest);
    }
}

/// The sum over a list of ones.
pub(crate) proof fn lemma_total_of_ones(numbers: Seq<int>)
    requires
        forall|j: int| 0 <= j < numbers.len() ==> #[trigger] numbers[j] == 1,
    ensures
        total(numbers) == numbers.len(),
    decreases numbers.len(),
{
    if numbers.len() > 0 {
        let rest = numbers.drop_last();
        assert(forall|j: int| 0 <= j < rest.len() ==> rest[j] == numbers[j]);
        assert(numbers[numbers.len() - 1] == 1);
        lemma_total_of_ones(rest);
    }
}

/// The requests that the load balancer has not answered yet: those that no worker
/// was sent yet, and those that each worker was sent.
pub struct Ledger {
    pub waiting: int,
    pub in_flight: Seq<int>,
}

impl Ledger {
    /// The ledger of a load balancer without open requests.
    pub open spec fn empty(nb_workers: nat) -> Ledger {
        Ledger { waiting: 0, in_flight: Seq::new(nb_workers, |i: int| 0int) }
    }
}

impl Balancer {
    /// Whether the statistics agree with the open requests: each worker was sent
    /// those that it handled and those that it is handling, no more errors are
    /// counted than requests were handled, and no more requests were sent or wait
    /// than were received.
    pub open spec fn agrees_with(self, ledger: Ledger) -> bool {
        &&& self.nb_workers() == ledger.in_flight.len()
        &&& ledger.waiting >= 0
        &&& forall|i: int| 0 <= i < self.nb_workers() ==> #[trigger] ledger.in_flight[i] >= 0
        &&& forall|i: int|
            0 <= i < self.nb_workers() ==> {
                &&& (#[trigger] self.stats[i]).nb_requests_sent == self.stats[i].nb_requests_handled
                    + ledger.in_flight[i]
                &&& self.stats[i].nb_error_status_received <= self.stats[i].nb_requests_handled
            }
        &&& total(sent_of(self.stats)) + ledger.waiting <= self.nb_requests_received
        &&& self.nb_errors <= total(handled_of(self.stats))
    }
}

/// A load balancer that starts agrees with having no open requests.
pub proof fn law_new_balancer_agrees(balancer: Balancer)
    requires
        forall|i: int|
            0 <= i < balancer.nb_workers() ==> #[trigger] balancer.stats[i]
                == WorkerStatistics::zero(),
        balancer.nb_errors == 0,
    ensures
        balancer.agrees_with(Ledger::empty(balancer.nb_workers())),
{
    assert forall|i: int| 0 <= i < balancer.nb_workers() implies #[trigger] sent_of(
        balancer.stats,
    )[i] == 0 by {
        assert(balancer.stats[i] == WorkerStatistics::zero());
    }
    assert forall|i: int| 0 <= i < balancer.nb_workers() implies #[trigger] handled_of(
        balancer.stats,
    )[i] == 0 by {
        assert(balancer.stats[i] == WorkerStatistics::zero());
    }
    lemma_total_of_zeros(sent_of(balancer.stats));
    lemma_total_of_zeros(handled_of(balancer.stats));
}

/// While the statistics agree with the open requests, no errors are counted beyond
/// the requests handled, none of these beyond those sent, and none of these beyond
/// those received.
pub proof fn law_counts_are_ordered(balancer: Balancer, ledger: Ledger)
    requires
        balancer.agrees_with(ledger),
    ensures
        balancer.nb_errors <= total(handled_of(balancer.stats)),
        total(handled_of(balancer.stats)) <= total(sent_of(balancer.stats)),
        total(sent_of(balancer.stats)) <= balancer.nb_requests_received,
{
    let sent = sent_of(balancer.stats);
    let handled = handled_of(balancer.stats);
    assert forall|j: int| 0 <= j < handled.len() implies #[trigger] handled[j] <= sent[j] by {
        assert(balancer.stats[j].nb_requests_sent >= balancer.stats[j].nb_requests_handled);
    }
    lemma_total_monotone(handled, sent);
}

/// While the statistics agree with the open requests, every worker has a number
/// of active connections and an error ratio. So with a worker in the list every
/// strategy but the one by resources can pick.
pub proof fn law_agreement_lets_pick(balancer: Balancer, ledger: Ledger)
    requires
        balancer.agrees_with(ledger),
        balancer.nb_workers() > 0,
        !(balancer.strategy is ResourceBased),
    ensures
        balancer.can_pick(),
        forall|i: int|
            0 <= i < balancer.nb_workers() ==> (#[trigger] balancer.stats[i]).active()
                == ledger.in_flight[i] && balancer.stats[i].has_error_ratio(),
{
}

/// A request that came in keeps the agreement, whether it waits or is refused.
pub(crate) proof fn lemma_arrival_keeps_agreement(balancer: Balancer, ledger: Ledger)
    requires
        balancer.agrees_with(ledger),
        balancer.nb_requests_received < u64::MAX,
    ensures
        balancer.arrived().picked().agrees_with(ledger),
        balancer.arrived().picked().agrees_with(Ledger { waiting: ledger.waiting + 1, ..ledger }),
{
    assert(balancer.arrived().picked().stats == balancer.stats);
}

/// Sending a request that waits keeps the agreement.
pub(crate) proof fn lemma_sending_keeps_agreement(balancer: Balancer, ledger: Ledger, worker: int)
    requires
        balancer.agrees_with(ledger),
        0 <= worker < balancer.nb_workers(),
        ledger.waiting > 0,
    ensures
        balancer.sent(worker).agrees_with(
            Ledger {
                waiting: ledger.waiting - 1,
                in_flight: ledger.in_flight.update(worker, ledger.in_flight[worker] + 1),
            },
        ),
{
    let sent = sent_of(balancer.stats);
    let before = balancer.stats[worker];
    let after = balancer.sent(worker);
    lemma_total_bounds(sent, worker);
    assert(sent[worker] < u64::MAX);
    assert(sent_of(after.stats) =~= sent.update(worker, before.nb_requests_sent + 1));
    lemma_total_update(sent, worker, before.nb_requests_sent + 1);
    assert(handled_of(after.stats) =~= handled_of(balancer.stats));
}

/// The answer to a request in flight keeps the agreement.
pub(crate) proof fn lemma_answer_keeps_agreement(
    balancer: Balancer,
    ledger: Ledger,
    worker: int,
    outcome: Outcome,
)
    requires
        balancer.agrees_with(ledger),
        0 <= worker < balancer.nb_workers(),
        ledger.in_flight[worker] > 0,
    ensures
        balancer.handled(worker, outcome).agrees_with(
            Ledger {
                waiting: ledger.waiting,
                in_flight: ledger.in_flight.update(worker, ledger.in_flight[worker] - 1),
            },
        ),
{
    let handled = handled_of(balancer.stats);
    let sent = sent_of(balancer.stats);
    let before = balancer.stats[worker];
    let after = balancer.handled(worker, outcome);
    assert(before.nb_requests_handled < before.nb_requests_sent);
    assert(handled_of(after.stats) =~= handled.update(worker, before.nb_requests_handled + 1));
    lemma_total_update(handled, worker, before.nb_requests_handled + 1);
    assert(sent_of(after.stats) =~= sent);
    let done = handled.update(worker, before.nb_requests_handled + 1);
    assert forall|j: int| 0 <= j < done.len() implies #[trigger] done[j] <= sent[j] by {
        assert(balancer.stats[j].nb_requests_sent >= balancer.stats[j].nb_requests_handled);
    }
    lemma_total_monotone(done, sent);
}

} // verus!
