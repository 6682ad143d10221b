//! The worker server: its configuration, the counters that it keeps on its own
//! requests, and what it answers.

use crate::outside::{draw_number, is_random_number};
use vstd::prelude::*;
use vstd::string::*;

verus! {

/// The HTTP status `200 OK`.
pub const OK: u16 = 200;

/// The HTTP status `500 Internal Server Error`.
pub const INTERNAL_SERVER_ERROR: u16 = 500;

/// The address at which a local worker listens: the port is left to the
/// operating system.
pub const LOCAL_ADDR: &'static str = "127.0.0.1:0";

pub type WorkerId = u32;

#[derive(Debug, PartialEq)]
pub struct WorkerConfig {
    pub id: WorkerId,
    pub address: String,
}

/// A worker's configuration as the contracts see it.
pub struct WorkerConfigView {
    pub id: WorkerId,
    pub address: Seq<char>,
}

impl View for WorkerConfig {
    type V = WorkerConfigView;

    open spec fn view(&self) -> WorkerConfigView {
        WorkerConfigView { id: self.id, address: self.address@ }
    }
}

impl Clone for WorkerConfig {
    fn clone(&self) -> (copy: Self)
        ensures
            copy == *self,
    {
        WorkerConfig { id: self.id, address: self.address.clone() }
    }
}

/// State that contains information that can be useful for the load balancer.
#[derive(Debug)]
pub struct WorkerState {
    pub config: WorkerConfig,
    pub nb_requests_received: u32,
    pub nb_requests_being_handled: u16,
}

/// What happens to a request at a worker.
pub enum WorkerEvent {
    Received,
    Answered,
}

/// The two counters of a worker: the requests received in all, and those that
/// are being handled. Both count modulo their width.
pub struct WorkerCounters {
    pub received: u32,
    pub being_handled: u16,
}

impl WorkerCounters {
    pub open spec fn zero() -> WorkerCounters {
        WorkerCounters { received: 0, being_handled: 0 }
    }

    pub open spec fn step(self, event: WorkerEvent) -> WorkerCounters {
        match event {
            WorkerEvent::Received => WorkerCounters {
                received: if self.received == u32::MAX { 0 } else { (self.received + 1) as u32 },
                being_handled: if self.being_handled == u16::MAX {
                    0
                } else {
                    (self.being_handled + 1) as u16
                },
            },
            WorkerEvent::Answered => WorkerCounters {
                received: self.received,
                being_handled: if self.being_handled == 0 {
                    u16::MAX
                } else {
                    (self.being_handled - 1) as u16
                },
            },
        }
    }

    /// The counters after a list of events.
    pub open spec fn after(self, events: Seq<WorkerEvent>) -> WorkerCounters
        decreases events.len(),
    {
        if events.len() == 0 {
            self
        } else {
            self.after(events.drop_last()).step(events.last())
        }
    }
}

/// How many events of a list are requests received.
pub open spec fn nb_received(events: Seq<WorkerEvent>) -> nat
    decreases events.len(),
{
    if events.len() == 0 {
        0
    } else {
        nb_received(events.drop_last()) + if events.last() is Received {
            1nat
        } else {
            0
        }
    }
}

/// How many events of a list are requests answered.
pub open spec fn nb_answered(events: Seq<WorkerEvent>) -> nat
    decreases events.len(),
{
    if events.len() == 0 {
        0
    } else {
        nb_answered(events.drop_last()) + if events.last() is Answered {
            1nat
        } else {
            0
        }
    }
}

/// After any history, a worker that started from zero has counted the requests
/// that it received, and those that it received and has not answered yet, each
/// modulo the width of the counter.
pub proof fn law_worker_counters_follow_history(events: Seq<WorkerEvent>)
    ensures
        WorkerCounters::zero().after(events).received == nb_received(events) % 0x1_0000_0000,
        WorkerCounters::zero().after(events).being_handled == (nb_received(events) - nb_answered(
            events,
        )) % 0x1_0000,
    decreases events.len(),
{
    if events.len() > 0 {
        law_worker_counters_follow_history(events.drop_last());
    }
}

/// Answering a request undoes what its arrival did to the number of requests
/// being handled, whatever happened to other requests in between.
pub proof fn law_answer_undoes_arrival(counters: WorkerCounters, between: Seq<WorkerEvent>)
    ensures
        counters.step(WorkerEvent::Received).after(between).step(
            WorkerEvent::Answered,
        ).being_handled == counters.after(between).being_handled,
    decreases between.len(),
{
    if between.len() > 0 {
        law_answer_undoes_arrival(counters, between.drop_last());
    }
}

impl WorkerState {
    /// The counters of the state.
    pub open spec fn counters(self) -> WorkerCounters {
        WorkerCounters {
            received: self.nb_requests_received,
            being_handled: self.nb_requests_being_handled,
        }
    }

    /// A worker that has not received any request.
    pub fn new(config: WorkerConfig) -> (state: WorkerState)
        ensures
            state.config == config,
            state.counters() == WorkerCounters::zero(),
    {
        WorkerState { config, nb_requests_received: 0, nb_requests_being_handled: 0 }
    }

    /// Counts a request that came in.
    pub fn request_received(&mut self)
        ensures
            final(self).config == old(self).config,
            final(self).counters() == old(self).counters().step(WorkerEvent::Received),
    {
        self.nb_requests_received = self.nb_requests_received.wrapping_add(1);
        self.nb_requests_being_handled = self.nb_requests_being_handled.wrapping_add(1);
    }

    /// Counts a request that was answered.
    pub fn request_answered(&mut self)
        ensures
            final(self).config == old(self).config,
            final(self).counters() == old(self).counters().step(WorkerEvent::Answered),
    {
        self.nb_requests_being_handled = self.nb_requests_being_handled.wrapping_sub(1);
    }
}

/// A worker server: its configuration, and the state that it starts from.
#[derive(Debug)]
pub struct WorkerServer {
    pub config: WorkerConfig,
    pub state: WorkerState,
}

impl WorkerServer {
    /// The worker with an id at the address at which it was bound.
    pub fn build(id: WorkerId, address: String) -> (server: WorkerServer)
        ensures
            server.config == (WorkerConfig { id, address }),
            server.state.config == server.config,
            server.state.counters() == WorkerCounters::zero(),
    {
        let config = WorkerConfig { id, address };
        let state = WorkerState::new(config.clone());
        WorkerServer { config, state }
    }

    /// The configuration with which a local worker is started: an id drawn at
    /// random, which may be any number, and `LOCAL_ADDR`.
    pub fn local_config() -> (config: WorkerConfig)
        ensures
            config.address@ == LOCAL_ADDR@,
            is_random_number(config.id),
    {
        WorkerConfig { id: draw_number(), address: LOCAL_ADDR.to_owned() }
    }
}

/// Check health of the worker: it is healthy whatever its state.
pub fn check_health(state: &WorkerState) -> (status: u16)
    ensures
        status == OK,
{
    OK
}

/// A request for work that takes `duration` milliseconds.
#[derive(Debug)]
pub struct WorkRequest {
    pub duration: u64,
}

/// Send work to worker: how many milliseconds it works, and the status that it
/// then answers.
pub fn work(state: &WorkerState, request: WorkRequest) -> (answer: (u64, u16))
    ensures
        answer == (request.duration, OK),
{
    (request.duration, OK)
}

/// Simplified worker state, used when asking for the worker state.
#[derive(Debug)]
pub struct DeserializedWorkerState {
    pub config: WorkerConfig,
    pub nb_requests_received: u32,
    pub nb_requests_being_handled: u32,
}

/// The status that a worker answers when asked for its state, and the state that it
/// reports.
pub fn get_worker_state(state: &WorkerState) -> (answer: (u16, DeserializedWorkerState))
    ensures
        answer.0 == OK,
        answer.1.config == state.config,
        answer.1.nb_requests_received == state.nb_requests_received,
        answer.1.nb_requests_being_handled == state.nb_requests_being_handled,
{
    let report = DeserializedWorkerState {
        config: state.config.clone(),
        nb_requests_received: state.nb_requests_received,
        nb_requests_being_handled: state.nb_requests_being_handled as u32,
    };
    (OK, report)
}

/// An error of the worker, with the text of what went wrong.
#[derive(Debug)]
pub struct WorkerError(pub String);

impl WorkerError {
    /// The text of the error.
    pub fn display(&self) -> (text: String)
        ensures
            text@ == self.0@,
    {
        self.0.clone()
    }

    /// The status and the body that a client gets for the error.
    pub fn into_response(self) -> (response: (u16, String))
        ensures
            response.0 == INTERNAL_SERVER_ERROR,
            response.1@ == "Something went wrong: "@ + self.0@,
    {
        let mut body: String = "Something went wrong: ".to_owned();
        body.append(self.0.as_str());
        (INTERNAL_SERVER_ERROR, body)
    }
}

/// A new worker has its configuration and has counted nothing.
pub proof fn law_new_worker_has_counted_nothing(config: WorkerConfig, state: WorkerState)
    requires
        call_ensures(WorkerState::new, (config,), state),
    ensures
        state.config == config,
        state.nb_requests_received == 0,
        state.nb_requests_being_handled == 0,
{
}

/// A request that comes in is one more that was received and one more that is being
/// handled, each modulo the width of the counter.
pub proof fn law_arrival_is_counted_twice(state: &mut WorkerState)
    requires
        call_ensures(WorkerState::request_received, (state,), ()),
    ensures
        final(state).config == old(state).config,
        final(state).nb_requests_received == (old(state).nb_requests_received + 1) % 0x1_0000_0000,
        final(state).nb_requests_being_handled == (old(state).nb_requests_being_handled + 1)
            % 0x1_0000,
{
    assert(final(state).counters().received == final(state).nb_requests_received);
    assert(final(state).counters().being_handled == final(state).nb_requests_being_handled);
}

/// A request that is answered is one less that is being handled, modulo the width of
/// the counter, and stays received.
pub proof fn law_answer_is_counted_once(state: &mut WorkerState)
    requires
        call_ensures(WorkerState::request_answered, (state,), ()),
    ensures
        final(state).config == old(state).config,
        final(state).nb_requests_received == old(state).nb_requests_received,
        final(state).nb_requests_being_handled == (old(state).nb_requests_being_handled - 1)
            % 0x1_0000,
{
    assert(final(state).counters().received == final(state).nb_requests_received);
    assert(final(state).counters().being_handled == final(state).nb_requests_being_handled);
}

/// A worker is built with the id and the address that are given, and its state knows
/// both and has counted nothing.
pub proof fn law_worker_is_built_as_asked(id: WorkerId, address: String, server: WorkerServer)
    requires
        call_ensures(WorkerServer::build, (id, address), server),
    ensures
        server.config.id == id,
        server.config.address == address,
        server.state.config == server.config,
        server.state.nb_requests_received == 0,
        server.state.nb_requests_being_handled == 0,
{
    assert(server.state.counters().received == server.state.nb_requests_received);
    assert(server.state.counters().being_handled == server.state.nb_requests_being_handled);
}

/// A local worker listens at the local host, at a port that the operating system
/// chooses, and its id is the number that was drawn.
pub proof fn law_local_worker_is_drawn(config: WorkerConfig)
    requires
        call_ensures(WorkerServer::local_config, (), config),
    ensures
        config.address@ == "127.0.0.1:0"@,
        is_random_number(config.id),
{
}

/// A copy of a configuration is the configuration.
pub proof fn law_configuration_is_copied(config: WorkerConfig, copy: WorkerConfig)
    requires
        call_ensures(WorkerConfig::clone, (&config,), copy),
    ensures
        copy.id == config.id,
        copy.address == config.address,
{
}

/// Whatever the state of a worker, it answers every request with `200 OK`: at once
/// when asked whether it is healthy, after the time that was asked for when it works,
/// and with what it has counted when asked for its state.
pub proof fn law_worker_answers_ok(
    state: WorkerState,
    health: u16,
    request: WorkRequest,
    worked: (u64, u16),
    report: (u16, DeserializedWorkerState),
)
    requires
        call_ensures(check_health, (&state,), health),
        call_ensures(work, (&state, request), worked),
        call_ensures(get_worker_state, (&state,), report),
    ensures
        health == 200,
        worked.0 == request.duration,
        worked.1 == 200,
        report.0 == 200,
        report.1.config.id == state.config.id,
        report.1.config.address == state.config.address,
        report.1.nb_requests_received == state.nb_requests_received,
        report.1.nb_requests_being_handled == state.nb_requests_being_handled,
{
}

/// An error of the worker is answered with `500 Internal Server Error` and its text.
pub proof fn law_worker_error_is_told(error: WorkerError, text: String, response: (u16, String))
    requires
        call_ensures(WorkerError::display, (&error,), text),
        call_ensures(WorkerError::into_response, (error,), response),
    ensures
        text@ == error.0@,
        response.0 == 500,
        response.1@ == "Something went wrong: "@ + text@,
{
}

} // verus!
