//! The load balancer with all the requests that are under way at once.

use crate::load_balancer::balancing_strategy::{BalancingStrategy, StateReplies};
use crate::load_balancer::metrics::{counted, WorkerStatistics};
use crate::load_balancer::model::{
    law_counts_are_ordered, lemma_answer_keeps_agreement,
    lemma_arrival_keeps_agreement, lemma_sending_keeps_agreement, lemma_total_bounds,
    lemma_total_monotone, lemma_total_of_ones, lemma_total_of_zeros, lemma_total_update, sent_of,
    total, Balancer, Ledger, Outcome,
};
use crate::load_balancer::server::{
    can_happen, is_transfer_step, outcome_of, Transfer, TransferAction, TransferEvent,
};
use vstd::prelude::*;

verus! {

/// One for a request that waits for a worker, zero for any other.
pub open spec fn waits(transfer: Transfer) -> int {
    if transfer is AwaitingStates || transfer is Chosen {
        1
    } else {
        0
    }
}

/// One for a request that the worker at an index was sent and has not answered,
/// zero for any other.
pub open spec fn flies(transfer: Transfer, worker: int) -> int {
    if transfer matches Transfer::InFlight(i) && i == worker {
        1
    } else {
        0
    }
}

/// One for a request that was counted as received, zero for one that was not yet.
pub open spec fn begun(transfer: Transfer) -> int {
    if transfer is New {
        0
    } else {
        1
    }
}

/// The load balancer, and how far each request has come.
#[verifier::ext_equal]
pub struct System {
    pub balancer: Balancer,
    pub transfers: Seq<Transfer>,
}

impl System {
    /// How many requests wait for a worker.
    pub open spec fn nb_waiting(self) -> int {
        total(Seq::new(self.transfers.len(), |t: int| waits(self.transfers[t])))
    }

    /// How many requests the worker at an index was sent and has not answered.
    pub open spec fn nb_in_flight(self, worker: int) -> int {
        total(Seq::new(self.transfers.len(), |t: int| flies(self.transfers[t], worker)))
    }

    /// How many requests have begun.
    pub open spec fn nb_begun(self) -> int {
        total(Seq::new(self.transfers.len(), |t: int| begun(self.transfers[t])))
    }

    /// The open requests.
    pub open spec fn ledger(self) -> Ledger {
        Ledger {
            waiting: self.nb_waiting(),
            in_flight: Seq::new(self.balancer.nb_workers(), |i: int| self.nb_in_flight(i)),
        }
    }

    /// A load balancer that starts: nothing is counted, and there are no requests.
    pub open spec fn is_start(self) -> bool {
        &&& self.balancer.well_formed()
        &&& self.transfers.len() == 0
        &&& forall|i: int|
            0 <= i < self.balancer.nb_workers() ==> #[trigger] self.balancer.stats[i]
                == WorkerStatistics::zero()
        &&& self.balancer.nb_requests_received == 0
        &&& self.balancer.nb_errors == 0
    }

    /// What holds of the load balancer at all times: the statistics agree with the
    /// requests that are under way, each of these is meant for a worker of the list,
    /// and every request that has begun is counted as received.
    pub open spec fn is_sound(self) -> bool {
        &&& self.balancer.well_formed()
        &&& self.balancer.agrees_with(self.ledger())
        &&& self.balancer.nb_requests_received == self.nb_begun()
        &&& forall|t: int|
            0 <= t < self.transfers.len() ==> match #[trigger] self.transfers[t] {
                Transfer::Chosen(i) => i < self.balancer.nb_workers(),
                Transfer::InFlight(i) => i < self.balancer.nb_workers(),
                _ => true,
            }
    }

    /// The system after a request has come a step further.
    pub open spec fn stepped(self, t: int, after: Balancer, next: Transfer) -> System {
        System { balancer: after, transfers: self.transfers.update(t, next) }
    }

    /// The system with one more request at its start.
    pub open spec fn with_request(self) -> System {
        System { balancer: self.balancer, transfers: self.transfers.push(Transfer::New) }
    }
}

/// What a step of one request does to the numbers of open requests.
proof fn lemma_step_counts(system: System, t: int, after: Balancer, next: Transfer, worker: int)
    requires
        0 <= t < system.transfers.len(),
    ensures
        system.stepped(t, after, next).nb_waiting() == system.nb_waiting() + waits(next) - waits(
            system.transfers[t],
        ),
        system.stepped(t, after, next).nb_in_flight(worker) == system.nb_in_flight(worker) + flies(
            next,
            worker,
        ) - flies(system.transfers[t], worker),
        system.stepped(t, after, next).nb_begun() == system.nb_begun() + begun(next) - begun(
            system.transfers[t],
        ),
        system.nb_waiting() >= waits(system.transfers[t]),
        system.nb_in_flight(worker) >= flies(system.transfers[t], worker),
{
    let transfers = system.transfers;
    let updated = transfers.update(t, next);
    let waiting = Seq::new(transfers.len(), |u: int| waits(transfers[u]));
    assert(Seq::new(updated.len(), |u: int| waits(updated[u])) =~= waiting.update(t, waits(next)));
    lemma_total_update(waiting, t, waits(next));
    lemma_total_bounds(waiting, t);
    let flying = Seq::new(transfers.len(), |u: int| flies(transfers[u], worker));
    assert(Seq::new(updated.len(), |u: int| flies(updated[u], worker)) =~= flying.update(
        t,
        flies(next, worker),
    ));
    lemma_total_update(flying, t, flies(next, worker));
    lemma_total_bounds(flying, t);
    let beginnings = Seq::new(transfers.len(), |u: int| begun(transfers[u]));
    assert(Seq::new(updated.len(), |u: int| begun(updated[u])) =~= beginnings.update(
        t,
        begun(next),
    ));
    lemma_total_update(beginnings, t, begun(next));
}

/// With a request that has not begun, fewer requests have begun than there are.
proof fn lemma_fewer_begun(system: System, t: int)
    requires
        0 <= t < system.transfers.len(),
        system.transfers[t] is New,
    ensures
        system.nb_begun() < system.transfers.len(),
{
    let beginnings = Seq::new(system.transfers.len(), |u: int| begun(system.transfers[u]));
    let ones = Seq::new(system.transfers.len(), |u: int| 1int);
    lemma_total_update(beginnings, t, 1);
    lemma_total_monotone(beginnings.update(t, 1), ones);
    lemma_total_of_ones(ones);
}

/// A load balancer that starts, without any request, keeps the invariant.
pub proof fn law_invariant_holds_at_the_start(system: System)
    requires
        system.is_start(),
    ensures
        system.is_sound(),
{
    crate::load_balancer::model::law_new_balancer_agrees(system.balancer);
    assert(system.ledger().in_flight =~= Ledger::empty(system.balancer.nb_workers()).in_flight);
}

/// A new request keeps the invariant.
pub proof fn law_new_request_keeps_invariant(system: System)
    requires
        system.is_sound(),
    ensures
        system.with_request().is_sound(),
{
    let more = system.with_request();
    let waiting = Seq::new(more.transfers.len(), |u: int| waits(more.transfers[u]));
    assert(waiting.drop_last() =~= Seq::new(
        system.transfers.len(),
        |u: int| waits(system.transfers[u]),
    ));
    assert forall|i: int| 0 <= i < system.balancer.nb_workers() implies more.nb_in_flight(i)
        == system.nb_in_flight(i) by {
        let flying = Seq::new(more.transfers.len(), |u: int| flies(more.transfers[u], i));
        assert(flying.drop_last() =~= Seq::new(
            system.transfers.len(),
            |u: int| flies(system.transfers[u], i),
        ));
    }
    assert(more.ledger().in_flight =~= system.ledger().in_flight);
    let beginnings = Seq::new(more.transfers.len(), |u: int| begun(more.transfers[u]));
    assert(beginnings.drop_last() =~= Seq::new(
        system.transfers.len(),
        |u: int| begun(system.transfers[u]),
    ));
    assert forall|t: int| 0 <= t < more.transfers.len() implies match #[trigger] more.transfers[t] {
        Transfer::Chosen(i) => i < more.balancer.nb_workers(),
        Transfer::InFlight(i) => i < more.balancer.nb_workers(),
        _ => true,
    } by {
        if t < system.transfers.len() {
            assert(more.transfers[t] == system.transfers[t]);
        }
    }
}

/// Setting another strategy keeps the invariant.
pub proof fn law_strategy_keeps_invariant(system: System, strategy: BalancingStrategy)
    requires
        system.is_sound(),
    ensures
        (System { balancer: system.balancer.with_strategy(strategy), ..system }).is_sound(),
{
    let changed = System { balancer: system.balancer.with_strategy(strategy), ..system };
    assert(changed.ledger().in_flight =~= system.ledger().in_flight);
}

/// Giving the workers other weights keeps the invariant.
pub proof fn law_weights_keep_invariant(system: System, weights: Seq<u64>)
    requires
        system.is_sound(),
        weights.len() == system.balancer.nb_workers(),
    ensures
        (System { balancer: Balancer { weights, ..system.balancer }, ..system }).is_sound(),
{
    let changed = System { balancer: Balancer { weights, ..system.balancer }, ..system };
    assert(changed.ledger().in_flight =~= system.ledger().in_flight);
}

/// A step of any request keeps the invariant, as long as the count of the requests
/// received does not start over with it.
pub proof fn law_step_keeps_invariant(
    system: System,
    t: int,
    event: TransferEvent,
    after: Balancer,
    next: Transfer,
    action: TransferAction,
)
    requires
        system.is_sound(),
        0 <= t < system.transfers.len(),
        can_happen(system.balancer, system.transfers[t], event),
        is_transfer_step(system.balancer, system.transfers[t], event, after, next, action),
        system.transfers[t] is New ==> system.balancer.nb_requests_received < u64::MAX,
    ensures
        system.stepped(t, after, next).is_sound(),
{
    let before = system.balancer;
    let transfer = system.transfers[t];
    let stepped = system.stepped(t, after, next);
    lemma_step_counts(system, t, after, next, 0);
    assert forall|i: int| 0 <= i < before.nb_workers() implies #[trigger] stepped.nb_in_flight(i)
        == system.nb_in_flight(i) + flies(next, i) - flies(transfer, i) by {
        lemma_step_counts(system, t, after, next, i);
    }
    assert forall|u: int|
        0 <= u < stepped.transfers.len() implies match #[trigger] stepped.transfers[u] {
        Transfer::Chosen(i) => i < after.nb_workers(),
        Transfer::InFlight(i) => i < after.nb_workers(),
        _ => true,
    } by {
        if u != t {
            assert(stepped.transfers[u] == system.transfers[u]);
        }
    }
    match (transfer, event) {
        (Transfer::New, TransferEvent::Arrived) => {
            lemma_arrival_keeps_agreement(before, system.ledger());
            assert(stepped.ledger().in_flight =~= system.ledger().in_flight);
        },
        (Transfer::AwaitingStates, TransferEvent::WorkerStates(replies)) => {
            assert(stepped.ledger().in_flight =~= system.ledger().in_flight);
        },
        (Transfer::Chosen(w), TransferEvent::RequestBuilt) => {
            lemma_sending_keeps_agreement(before, system.ledger(), w as int);
            assert(stepped.ledger().in_flight =~= system.ledger().in_flight.update(
                w as int,
                system.ledger().in_flight[w as int] + 1,
            ));
        },
        (Transfer::InFlight(w), TransferEvent::Responded(response)) => {
            lemma_step_counts(system, t, after, next, w as int);
            lemma_answer_keeps_agreement(
                before,
                system.ledger(),
                w as int,
                outcome_of(response),
            );
            assert(stepped.ledger().in_flight =~= system.ledger().in_flight.update(
                w as int,
                system.ledger().in_flight[w as int] - 1,
            ));
        },
        _ => {},
    }
}

/// What can happen to the load balancer: a request comes up, a request comes a step
/// further, another strategy is set, or the workers are given other weights.
pub enum Change {
    Request,
    Step {
        t: int,
        event: TransferEvent,
        after: Balancer,
        next: Transfer,
        action: TransferAction,
    },
    Strategy(BalancingStrategy),
    Weights(Seq<u64>),
}

impl System {
    /// Whether a change can happen.
    pub open spec fn can_change(self, change: Change) -> bool {
        match change {
            Change::Request => true,
            Change::Step { t, event, after, next, action } => {
                &&& 0 <= t < self.transfers.len()
                &&& can_happen(self.balancer, self.transfers[t], event)
                &&& is_transfer_step(self.balancer, self.transfers[t], event, after, next, action)
            },
            Change::Strategy(_) => true,
            Change::Weights(weights) => weights.len() == self.balancer.nb_workers(),
        }
    }

    /// The system after a change.
    pub open spec fn changed(self, change: Change) -> System {
        match change {
            Change::Request => self.with_request(),
            Change::Step { t, event, after, next, action } => self.stepped(t, after, next),
            Change::Strategy(strategy) => System {
                balancer: self.balancer.with_strategy(strategy),
                ..self
            },
            Change::Weights(weights) => System {
                balancer: Balancer { weights, ..self.balancer },
                ..self
            },
        }
    }

    /// The system after a run of changes.
    pub open spec fn after(self, run: Seq<Change>) -> System
        decreases run.len(),
    {
        if run.len() == 0 {
            self
        } else {
            self.after(run.drop_last()).changed(run.last())
        }
    }

    /// Whether a run of changes can happen, one after the other.
    pub open spec fn can_run(self, run: Seq<Change>) -> bool
        decreases run.len(),
    {
        run.len() == 0 || self.can_run(run.drop_last()) && self.after(run.drop_last()).can_change(
            run.last(),
        )
    }

    /// How many requests there are in a run.
    pub open spec fn nb_requests(run: Seq<Change>) -> int
        decreases run.len(),
    {
        if run.len() == 0 {
            0
        } else {
            Self::nb_requests(run.drop_last()) + if run.last() is Request {
                1int
            } else {
                0
            }
        }
    }
}

/// Whatever happens to a load balancer from its start on, in whatever order its
/// requests go on, the invariant holds. There may be as many requests as the
/// counter of those received can count.
pub proof fn law_run_keeps_invariant(start: System, run: Seq<Change>)
    requires
        start.is_start(),
        start.can_run(run),
        System::nb_requests(run) <= u64::MAX,
    ensures
        start.after(run).is_sound(),
        start.after(run).transfers.len() == System::nb_requests(run),
    decreases run.len(),
{
    if run.len() == 0 {
        law_invariant_holds_at_the_start(start);
    } else {
        law_run_keeps_invariant(start, run.drop_last());
        let before = start.after(run.drop_last());
        match run.last() {
            Change::Request => {
                law_new_request_keeps_invariant(before);
            },
            Change::Step { t, event, after, next, action } => {
                if before.transfers[t] is New {
                    lemma_fewer_begun(before, t);
                }
                law_step_keeps_invariant(before, t, event, after, next, action);
            },
            Change::Strategy(strategy) => {
                law_strategy_keeps_invariant(before, strategy);
            },
            Change::Weights(weights) => {
                law_weights_keep_invariant(before, weights);
            },
        }
    }
}

/// Once all the requests of a load balancer are answered, its statistics account for
/// them: as many were received as there were requests, each worker has handled what
/// it was sent, no more requests were sent than received, and no more errors are
/// counted than requests, neither of a worker nor of the load balancer.
pub proof fn law_answered_requests_are_accounted_for(start: System, run: Seq<Change>)
    requires
        start.is_start(),
        start.can_run(run),
        System::nb_requests(run) <= u64::MAX,
        forall|t: int|
            0 <= t < start.after(run).transfers.len() ==> #[trigger] start.after(run).transfers[t]
                is Done,
    ensures
        start.after(run).balancer.nb_requests_received == System::nb_requests(run),
        forall|i: int|
            0 <= i < start.after(run).balancer.nb_workers() ==> {
                let stats = #[trigger] start.after(run).balancer.stats[i];
                stats.nb_error_status_received <= stats.nb_requests_handled
                    && stats.nb_requests_handled == stats.nb_requests_sent
            },
        total(sent_of(start.after(run).balancer.stats)) <= System::nb_requests(run),
        start.after(run).balancer.nb_errors <= System::nb_requests(run),
{
    let end = start.after(run);
    law_run_keeps_invariant(start, run);
    law_counts_are_ordered(end.balancer, end.ledger());
    let beginnings = Seq::new(end.transfers.len(), |t: int| begun(end.transfers[t]));
    assert forall|t: int| 0 <= t < beginnings.len() implies #[trigger] beginnings[t] == 1 by {
        assert(end.transfers[t] is Done);
    }
    lemma_total_of_ones(beginnings);
    assert forall|i: int| 0 <= i < end.balancer.nb_workers() implies {
        let stats = #[trigger] end.balancer.stats[i];
        stats.nb_error_status_received <= stats.nb_requests_handled && stats.nb_requests_handled
            == stats.nb_requests_sent
    } by {
        let flying = Seq::new(end.transfers.len(), |t: int| flies(end.transfers[t], i));
        assert forall|t: int| 0 <= t < flying.len() implies #[trigger] flying[t] == 0 by {
            assert(end.transfers[t] is Done);
        }
        lemma_total_of_zeros(flying);
        assert(end.ledger().in_flight[i] == 0);
    }
}

/// Under the invariant no request gets stuck on its way: the event that it waits
/// for can happen.
pub proof fn law_requests_can_go_on(system: System, t: int, event: TransferEvent)
    requires
        system.is_sound(),
        0 <= t < system.transfers.len(),
        match system.transfers[t] {
            Transfer::New => event is Arrived && system.balancer.nb_workers() > 0 && !(
            system.balancer.strategy is ResourceBased),
            Transfer::AwaitingStates => event is WorkerStates,
            Transfer::Chosen(_) => event is RequestBuilt,
            Transfer::InFlight(_) => event is Responded,
            Transfer::Done => false,
        },
    ensures
        can_happen(system.balancer, system.transfers[t], event),
{
    if system.transfers[t] is New {
        crate::load_balancer::model::law_agreement_lets_pick(system.balancer, system.ledger());
    }
}

/// A step of a request leaves the address, the workers and their weights as they
/// are, and at most moves a round on.
pub proof fn law_step_keeps_workers(
    before: Balancer,
    transfer: Transfer,
    event: TransferEvent,
    after: Balancer,
    next: Transfer,
    action: TransferAction,
)
    requires
        can_happen(before, transfer, event),
        is_transfer_step(before, transfer, event, after, next, action),
    ensures
        after.address == before.address,
        after.configs == before.configs,
        after.weights == before.weights,
        after.nb_workers() == before.nb_workers(),
        after.strategy.same_kind(before.strategy),
{
}

/// How many events are left at most until a request is answered.
pub open spec fn events_left(transfer: Transfer) -> nat {
    match transfer {
        Transfer::New => 4,
        Transfer::AwaitingStates => 3,
        Transfer::Chosen(_) => 2,
        Transfer::InFlight(_) => 1,
        Transfer::Done => 0,
    }
}

/// Every step brings a request nearer to its answer, and the client is answered
/// exactly in the step that ends the transfer.
pub proof fn law_step_leads_to_an_answer(
    before: Balancer,
    transfer: Transfer,
    event: TransferEvent,
    after: Balancer,
    next: Transfer,
    action: TransferAction,
)
    requires
        is_transfer_step(before, transfer, event, after, next, action),
    ensures
        events_left(next) < events_left(transfer),
        next is Done <==> action is Reply || action is Fail,
{
}

/// Asking the workers for their states: the load balancer while it waits for them,
/// what it asked, and what came of it.
pub struct Inquiry {
    pub waiting: Balancer,
    pub asked: TransferAction,
    pub replies: StateReplies,
}

/// Whether a new request that no other one disturbs comes to `next` when a worker
/// is looked for, with or without asking the workers.
pub open spec fn is_placed(
    before: Balancer,
    inquiry: Option<Inquiry>,
    after: Balancer,
    next: Transfer,
    action: TransferAction,
) -> bool {
    match inquiry {
        None => is_transfer_step(
            before,
            Transfer::New,
            TransferEvent::Arrived,
            after,
            next,
            action,
        ),
        Some(inquiry) => {
            &&& is_transfer_step(
                before,
                Transfer::New,
                TransferEvent::Arrived,
                inquiry.waiting,
                Transfer::AwaitingStates,
                inquiry.asked,
            )
            &&& is_transfer_step(
                inquiry.waiting,
                Transfer::AwaitingStates,
                TransferEvent::WorkerStates(inquiry.replies),
                after,
                next,
                action,
            )
        },
    }
}

/// A request that no other one disturbs, and for which a worker is found, is counted
/// once as received, once as sent to its worker and once as handled by it, whether
/// or not the workers were asked for their states. Its outcome is counted once with
/// the load balancer or the worker where it blames them, and nothing is counted for
/// any other worker.
pub proof fn law_request_is_counted_once(
    before: Balancer,
    inquiry: Option<Inquiry>,
    chosen: Balancer,
    sent: Balancer,
    after: Balancer,
    worker: usize,
    response: Result<u16, String>,
    actions: (TransferAction, TransferAction, TransferAction),
)
    requires
        before.configs.len() == before.nb_workers(),
        is_placed(before, inquiry, chosen, Transfer::Chosen(worker), actions.0),
        is_transfer_step(
            chosen,
            Transfer::Chosen(worker),
            TransferEvent::RequestBuilt,
            sent,
            Transfer::InFlight(worker),
            actions.1,
        ),
        is_transfer_step(
            sent,
            Transfer::InFlight(worker),
            TransferEvent::Responded(response),
            after,
            Transfer::Done,
            actions.2,
        ),
    ensures
        after.nb_requests_received == counted(before.nb_requests_received),
        after.nb_errors == if outcome_of(response).blames_balancer() {
            counted(before.nb_errors)
        } else {
            before.nb_errors
        },
        after.nb_workers() == before.nb_workers(),
        worker < before.nb_workers(),
        after.stats[worker as int] == (WorkerStatistics {
            nb_requests_sent: counted(before.stats[worker as int].nb_requests_sent),
            nb_requests_handled: counted(before.stats[worker as int].nb_requests_handled),
            nb_error_status_received: if outcome_of(response).blames_worker() {
                counted(before.stats[worker as int].nb_error_status_received)
            } else {
                before.stats[worker as int].nb_error_status_received
            },
        }),
        forall|i: int|
            0 <= i < before.nb_workers() && i != worker ==> #[trigger] after.stats[i]
                == before.stats[i],
{
    if inquiry is None {
        crate::load_balancer::model::law_picks_are_workers(before, worker as int);
    }
}

/// A request that no other one disturbs, and for which no worker is found, is
/// counted once as received, and nothing else is counted.
pub proof fn law_refused_request_is_only_received(
    before: Balancer,
    inquiry: Option<Inquiry>,
    after: Balancer,
    action: TransferAction,
)
    requires
        is_placed(before, inquiry, after, Transfer::Done, action),
    ensures
        action is Fail,
        after.nb_requests_received == counted(before.nb_requests_received),
        after.nb_errors == before.nb_errors,
        after.stats == before.stats,
{
}

/// An answer blames the load balancer or the worker but never both, one with a
/// status of success blames neither, and no answer blames both.
pub proof fn law_who_is_blamed(status: u16)
    ensures
        !(Outcome::Status(status).blames_balancer() && Outcome::Status(status).blames_worker()),
        status < 400 ==> !Outcome::Status(status).blames_balancer() && !Outcome::Status(
            status,
        ).blames_worker(),
        Outcome::NoAnswer.blames_balancer() && Outcome::NoAnswer.blames_worker(),
{
}

} // verus!
