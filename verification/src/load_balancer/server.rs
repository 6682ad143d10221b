//! The state of the load balancer and the course of a request through it.

use crate::load_balancer::balancing_strategy::{
    are_state_urls, least_connection_outcome, least_connection_with_stats_from_workers, state_urls,
    BalancingStrategy, Pick, StateReplies,
};
use crate::load_balancer::metrics::{LoadBalancerStats, WorkerStatistics};
use crate::load_balancer::model::{configs_of, stats_of, Balancer, Outcome};
use crate::outside::{
    build_http_uri, http_uri, is_host_and_port, is_origin_form, is_path_and_query,
};
use crate::worker::{WorkerConfig, INTERNAL_SERVER_ERROR, OK};
use vstd::prelude::*;
use vstd::string::*;

verus! {

/// View of the worker from the load balancer's point of view.
#[derive(Debug)]
pub struct WorkerView {
    pub config: WorkerConfig,
    pub stats: WorkerStatistics,
}

impl WorkerView {
    /// A worker to which nothing has been sent.
    pub fn new(config: WorkerConfig) -> (worker: WorkerView)
        ensures
            worker.config == config,
            worker.stats == WorkerStatistics::zero(),
    {
        WorkerView { config, stats: WorkerStatistics::default() }
    }
}

#[derive(Debug)]
pub struct LoadBalancerState {
    pub address: String,
    /// The worker servers available to the load balancer.
    pub workers: Vec<WorkerView>,
    /// The balancing strategy being currently employed.
    pub strategy: BalancingStrategy,
    pub stats: LoadBalancerStats,
}

/// A load balancer: the address at which it was bound, and the state that it
/// starts from.
#[derive(Debug)]
pub struct LoadBalancer {
    pub address: String,
    pub state: LoadBalancerState,
}

impl View for LoadBalancerState {
    type V = Balancer;

    open spec fn view(&self) -> Balancer {
        Balancer {
            address: self.address@,
            configs: configs_of(self.workers@),
            stats: stats_of(self.workers@),
            strategy: self.strategy,
            nb_requests_received: self.stats.nb_requests_received,
            nb_errors: self.stats.nb_errors,
            weights: self.stats.weights(),
        }
    }
}

/// An error of the load balancer. Each variant carries the text of its cause.
#[derive(Debug)]
pub enum LoadBalancerError {
    InternalError(String),
    WorkerError(String),
    IOError(String),
}

impl LoadBalancerError {
    /// Whether the error is an internal one with a given text.
    pub open spec fn is_internal(self, text: Seq<char>) -> bool {
        self matches LoadBalancerError::InternalError(cause) && cause@ == text
    }

    /// What the error says of itself: only an internal error is announced as such.
    pub open spec fn text(self) -> Seq<char> {
        match self {
            LoadBalancerError::InternalError(cause) => "internal error: "@ + cause@,
            LoadBalancerError::WorkerError(cause) => cause@,
            LoadBalancerError::IOError(cause) => cause@,
        }
    }

    /// The internal error with a given text.
    pub fn internal(text: &str) -> (error: LoadBalancerError)
        ensures
            error.is_internal(text@),
    {
        LoadBalancerError::InternalError(text.to_owned())
    }

    /// What the error says of itself.
    pub fn display(&self) -> (text: String)
        ensures
            text@ == self.text(),
    {
        match self {
            LoadBalancerError::InternalError(cause) => {
                let mut text: String = "internal error: ".to_owned();
                text.append(cause.as_str());
                text
            },
            LoadBalancerError::WorkerError(cause) => cause.clone(),
            LoadBalancerError::IOError(cause) => cause.clone(),
        }
    }

    /// The status and the body that a client gets for the error.
    pub fn into_response(self) -> (response: (u16, String))
        ensures
            response.0 == INTERNAL_SERVER_ERROR,
            response.1@ == "LoadBalancer error: "@ + self.text(),
    {
        let mut body: String = "LoadBalancer error: ".to_owned();
        body.append(self.display().as_str());
        (INTERNAL_SERVER_ERROR, body)
    }
}

impl LoadBalancerState {
    /// The state of a load balancer that has not received any request, with
    /// workers of the same weight.
    pub fn new(address: String, workers: Vec<WorkerView>, strategy: BalancingStrategy) -> (state:
        LoadBalancerState)
        ensures
            state.address == address,
            state.workers == workers,
            state@ == (Balancer {
                address: address@,
                configs: configs_of(workers@),
                stats: stats_of(workers@),
                strategy,
                nb_requests_received: 0,
                nb_errors: 0,
                weights: Seq::new(workers@.len(), |i: int| 1u64),
            }),
            state@.well_formed(),
    {
        let stats: LoadBalancerStats = LoadBalancerStats::for_workers(workers.len());
        LoadBalancerState { address, workers, strategy, stats }
    }

    /// Whether the strategy can pick a worker at all.
    pub fn can_pick(&self) -> (can: bool)
        ensures
            can == self@.can_pick(),
    {
        match self.strategy {
            BalancingStrategy::RoundRobin(_) => self.workers.len() > 0,
            BalancingStrategy::LeastConnectionWithInternalStats => {
                let mut i: usize = 0;
                while i < self.workers.len()
                    invariant
                        i <= self.workers@.len(),
                        self.strategy is LeastConnectionWithInternalStats,
                        forall|j: int| 0 <= j < i ==> (#[trigger] self@.stats[j]).active() >= 0,
                    decreases self.workers@.len() - i,
                {
                    assert(self@.stats[i as int] == self.workers@[i as int].stats);
                    if self.workers[i].stats.nb_requests_sent
                        < self.workers[i].stats.nb_requests_handled {
                        return false;
                    }
                    i += 1;
                }
                true
            },
            BalancingStrategy::ResourceBased => false,
            _ => true,
        }
    }

    /// Counts a request that came in.
    pub fn request_received(&mut self)
        ensures
            final(self)@ == old(self)@.arrived(),
    {
        self.stats.nb_requests_received = self.stats.nb_requests_received.wrapping_add(1);
    }

    /// Counts a request that was sent to the worker at an index.
    pub fn request_sent(&mut self, worker: usize)
        requires
            worker < old(self)@.nb_workers(),
        ensures
            final(self)@ == old(self)@.sent(worker as int),
    {
        let stats: WorkerStatistics = self.workers[worker].stats;
        self.workers[worker].stats = WorkerStatistics {
            nb_requests_sent: stats.nb_requests_sent.wrapping_add(1),
            ..stats
        };
    }

    /// Counts what came of a request to the worker at an index: the status of the
    /// answer, or the text of the error that kept it from coming.
    ///
    /// The answer is handed on whatever its status; only a request without an
    /// answer is an error.
    pub fn response_received(&mut self, worker: usize, response: Result<u16, String>) -> (reply:
        Result<u16, LoadBalancerError>)
        requires
            worker < old(self)@.nb_workers(),
        ensures
            final(self)@ == old(self)@.handled(worker as int, outcome_of(response)),
            reply == match response {
                Ok(status) => Ok(status),
                Err(cause) => Err(LoadBalancerError::InternalError(cause)),
            },
    {
        let mut stats: WorkerStatistics = self.workers[worker].stats;
        stats.nb_requests_handled = stats.nb_requests_handled.wrapping_add(1);
        let reply: Result<u16, LoadBalancerError> = match response {
            // The load balancer fails to send the request
            Err(cause) => {
                self.stats.nb_errors = self.stats.nb_errors.wrapping_add(1);
                stats.nb_error_status_received = stats.nb_error_status_received.wrapping_add(1);
                Err(LoadBalancerError::InternalError(cause))
            },
            Ok(status) => {
                if is_client_error(status) {
                    // The load balancer has encountered an error
                    self.stats.nb_errors = self.stats.nb_errors.wrapping_add(1);
                } else if is_server_error(status) {
                    // Worker server returns an error, increment the worker error stats
                    stats.nb_error_status_received = stats.nb_error_status_received.wrapping_add(1);
                }
                Ok(status)
            },
        };
        self.workers[worker].stats = stats;
        reply
    }
}

/// Whether a status says that the request was wrong.
pub fn is_client_error(status: u16) -> (is: bool)
    ensures
        is == (400 <= status < 500),
{
    400 <= status && status < 500
}

/// Whether a status says that the server failed.
pub fn is_server_error(status: u16) -> (is: bool)
    ensures
        is == (500 <= status < 600),
{
    500 <= status && status < 600
}

/// What the answer to a request is to the statistics.
pub open spec fn outcome_of(response: Result<u16, String>) -> Outcome {
    match response {
        Ok(status) => Outcome::Status(status),
        Err(_) => Outcome::NoAnswer,
    }
}

impl LoadBalancer {
    /// The load balancer at the address at which it was bound, over a list of
    /// workers. Without a strategy it starts with a round.
    pub fn build(
        address: String,
        workers: Vec<WorkerConfig>,
        strategy: Option<BalancingStrategy>,
    ) -> (load_balancer: LoadBalancer)
        ensures
            load_balancer.address@ == address@,
            load_balancer.state@ == (Balancer {
                address: address@,
                configs: Seq::new(workers@.len(), |i: int| workers@[i]@),
                stats: Seq::new(workers@.len(), |i: int| WorkerStatistics::zero()),
                strategy: match strategy {
                    Some(strategy) => strategy,
                    None => BalancingStrategy::RoundRobin(0),
                },
                nb_requests_received: 0,
                nb_errors: 0,
                weights: Seq::new(workers@.len(), |i: int| 1u64),
            }),
    {
        let worker_views: Vec<WorkerView> = worker_views(&workers);
        let strategy: BalancingStrategy = match strategy {
            Some(strategy) => strategy,
            None => BalancingStrategy::default(),
        };
        let state: LoadBalancerState = LoadBalancerState::new(
            address.clone(),
            worker_views,
            strategy,
        );
        proof {
            assert(state@.configs =~= Seq::new(workers@.len(), |i: int| workers@[i]@));
            assert(state@.stats =~= Seq::new(workers@.len(), |i: int| WorkerStatistics::zero()));
        }
        LoadBalancer { address, state }
    }
}

/// The workers of a list of configurations, with nothing counted yet.
fn worker_views(configs: &Vec<WorkerConfig>) -> (views: Vec<WorkerView>)
    ensures
        views@.len() == configs@.len(),
        forall|i: int|
            0 <= i < views@.len() ==> (#[trigger] views@[i]).config == configs@[i] && views@[i].stats
                == WorkerStatistics::zero(),
{
    let mut views: Vec<WorkerView> = Vec::new();
    let mut i: usize = 0;
    while i < configs.len()
        invariant
            i <= configs@.len(),
            views@.len() == i,
            forall|j: int|
                0 <= j < i ==> (#[trigger] views@[j]).config == configs@[j] && views@[j].stats
                    == WorkerStatistics::zero(),
        decreases configs@.len() - i,
    {
        views.push(WorkerView::new(configs[i].clone()));
        i += 1;
    }
    views
}

#[derive(Debug)]
pub struct SetBalancingStrategyRequest {
    pub strategy: BalancingStrategy,
}

/// Sets the strategy that is asked for, and answers with the status.
pub fn set_balancing_strategy(
    state: &mut LoadBalancerState,
    request: SetBalancingStrategyRequest,
) -> (status: u16)
    ensures
        final(state)@ == old(state)@.with_strategy(request.strategy),
        status == OK,
{
    state.strategy = request.strategy;
    OK
}

/// The URI of a request, in its parts. A request line mostly carries the path and
/// the query alone.
#[derive(Debug)]
pub struct RequestUri {
    pub scheme: Option<String>,
    pub authority: Option<String>,
    pub path_and_query: Option<String>,
}

impl RequestUri {
    /// The path and the query of a URI that has them.
    pub open spec fn target(self) -> Seq<char> {
        self.path_and_query->0@
    }

    /// The URI that a request has at a server with an authority: the path and the
    /// query stay, and scheme and authority are replaced.
    pub open spec fn at(self, authority: Seq<char>) -> Option<Seq<char>> {
        http_uri(authority, self.target())
    }
}

/// The URI at which a worker gets a request: the one of the request, with the
/// worker for its authority. There is none where `http` takes the parts for no
/// URI.
pub fn worker_uri(worker: &WorkerConfig, request: &RequestUri) -> (uri: Option<String>)
    requires
        request.path_and_query is Some,
    ensures
        match uri {
            Some(text) => request.at(worker.address@) == Some(text@),
            None => request.at(worker.address@) is None,
        },
        uri matches Some(text) ==> is_origin_form(request.target()) ==> text@ == "http://"@
            + worker.address@ + request.target(),
        is_origin_form(request.target()) && is_path_and_query(request.target())
            && is_host_and_port(worker.address@) ==> uri is Some,
        is_origin_form(request.target()) && !is_path_and_query(request.target()) ==> uri is None,
{
    match &request.path_and_query {
        Some(path_and_query) => build_http_uri(worker.address.as_str(), path_and_query.as_str()),
        None => vstd::pervasive::unreached(),
    }
}

/// Two requests that differ only in the scheme or the authority of their URIs get
/// the same URI at a worker.
pub proof fn law_only_path_and_query_stay(a: RequestUri, b: RequestUri, authority: Seq<char>)
    requires
        a.path_and_query is Some,
        b.path_and_query is Some,
        a.target() == b.target(),
    ensures
        a.at(authority) == b.at(authority),
{
}

/// How far the transfer of a request to a worker has come.
#[derive(Debug)]
pub enum Transfer {
    /// The request has not been counted yet.
    New,
    /// The workers have been asked for their states.
    AwaitingStates,
    /// The worker at an index has been picked.
    Chosen(usize),
    /// The worker at an index has been sent the request.
    InFlight(usize),
    /// The client has its answer.
    Done,
}

/// What happens to a request on its way.
#[derive(Debug)]
pub enum TransferEvent {
    /// It came in.
    Arrived,
    /// The workers were asked for their states, and this is what came of it.
    WorkerStates(StateReplies),
    /// It was rewritten for the worker that was picked.
    RequestBuilt,
    /// The worker answered with a status, or did not, for a reason in words.
    Responded(Result<u16, String>),
}

/// What is to be done next for a request.
#[derive(Debug)]
pub enum TransferAction {
    /// Ask the workers for their states, at these addresses.
    AskWorkers(Vec<String>),
    /// Rewrite the request for the worker at an index.
    BuildRequest(usize),
    /// Send the request to the worker at an index.
    Send(usize),
    /// Hand the answer of the worker on, which has this status.
    Reply(u16),
    /// Answer the client with an error.
    Fail(LoadBalancerError),
}

/// Whether an event can happen to a request that has come so far.
pub open spec fn can_happen(balancer: Balancer, transfer: Transfer, event: TransferEvent) -> bool {
    match (transfer, event) {
        (Transfer::New, TransferEvent::Arrived) => balancer.can_pick(),
        (Transfer::AwaitingStates, TransferEvent::WorkerStates(_)) => true,
        (Transfer::Chosen(i), TransferEvent::RequestBuilt) => i < balancer.nb_workers(),
        (Transfer::InFlight(i), TransferEvent::Responded(_)) => i < balancer.nb_workers(),
        _ => false,
    }
}

/// What an event makes of the load balancer and of a request.
pub open spec fn is_transfer_step(
    before: Balancer,
    transfer: Transfer,
    event: TransferEvent,
    after: Balancer,
    next: Transfer,
    action: TransferAction,
) -> bool {
    match (transfer, event) {
        (Transfer::New, TransferEvent::Arrived) => {
            &&& after == before.arrived().picked()
            &&& match (next, action) {
                (Transfer::Chosen(i), TransferAction::BuildRequest(j)) => i == j && before.may_pick(
                    i as int,
                ) && before.is_drawn(i),
                (Transfer::AwaitingStates, TransferAction::AskWorkers(urls)) => before.strategy is
                    LeastConnectionWithStatsFromWorkers && are_state_urls(urls@, before.configs),
                (Transfer::Done, TransferAction::Fail(LoadBalancerError::InternalError(text))) =>
                    before.may_find_none(text@) && before.is_none_drawn(),
                _ => false,
            }
        },
        (Transfer::AwaitingStates, TransferEvent::WorkerStates(replies)) => {
            &&& after == before
            &&& match (next, action) {
                (Transfer::Chosen(i), TransferAction::BuildRequest(j)) => i == j
                    && least_connection_outcome(before.configs, replies@, Ok(i)),
                (Transfer::Done, TransferAction::Fail(error)) => least_connection_outcome(
                    before.configs,
                    replies@,
                    Err(error),
                ),
                _ => false,
            }
        },
        (Transfer::Chosen(i), TransferEvent::RequestBuilt) => {
            &&& after == before.sent(i as int)
            &&& next == Transfer::InFlight(i)
            &&& action == TransferAction::Send(i)
        },
        (Transfer::InFlight(i), TransferEvent::Responded(response)) => {
            &&& after == before.handled(i as int, outcome_of(response))
            &&& next == Transfer::Done
            &&& action == match response {
                Ok(status) => TransferAction::Reply(status),
                Err(cause) => TransferAction::Fail(LoadBalancerError::InternalError(cause)),
            }
        },
        _ => false,
    }
}

/// Pick a worker server depending on the balancing strategy chosen and redirect
/// the request to the worker, one event at a time.
pub fn transfer_request(
    state: &mut LoadBalancerState,
    transfer: Transfer,
    event: TransferEvent,
) -> (step: (Transfer, TransferAction))
    requires
        can_happen(old(state)@, transfer, event),
    ensures
        is_transfer_step(old(state)@, transfer, event, final(state)@, step.0, step.1),
{
    match (transfer, event) {
        (Transfer::New, TransferEvent::Arrived) => {
            state.request_received();
            match BalancingStrategy::pick_worker(state) {
                Ok(Pick::Worker(i)) => (Transfer::Chosen(i), TransferAction::BuildRequest(i)),
                Ok(Pick::AskWorkers) => (
                    Transfer::AwaitingStates,
                    TransferAction::AskWorkers(state_urls(&state.workers)),
                ),
                Err(error) => (Transfer::Done, TransferAction::Fail(error)),
            }
        },
        (Transfer::AwaitingStates, TransferEvent::WorkerStates(replies)) => {
            match least_connection_with_stats_from_workers(&state.workers, &replies) {
                Ok(i) => (Transfer::Chosen(i), TransferAction::BuildRequest(i)),
                Err(error) => (Transfer::Done, TransferAction::Fail(error)),
            }
        },
        (Transfer::Chosen(i), TransferEvent::RequestBuilt) => {
            state.request_sent(i);
            (Transfer::InFlight(i), TransferAction::Send(i))
        },
        (Transfer::InFlight(i), TransferEvent::Responded(response)) => {
            match state.response_received(i, response) {
                Ok(status) => (Transfer::Done, TransferAction::Reply(status)),
                Err(error) => (Transfer::Done, TransferAction::Fail(error)),
            }
        },
        _ => vstd::pervasive::unreached(),
    }
}

} // verus!
