//! The balancing strategies, and how each of them picks a worker.

use crate::load_balancer::model::{active_of, configs_of, is_first_min, reaches_beyond, stats_of};
use crate::load_balancer::server::{LoadBalancerError, LoadBalancerState, WorkerView};
use crate::outside::{draw_index, draw_item, is_drawn_from, is_sampled};
use crate::worker::{DeserializedWorkerState, WorkerConfig, WorkerConfigView, WorkerId};
use vstd::prelude::*;
use vstd::string::*;

verus! {

/// How the worker for the next request is picked. `RoundRobin` carries the
/// number of picks that it has made.
#[derive(Debug, Clone, Copy)]
pub enum BalancingStrategy {
    RoundRobin(usize),
    LeastConnectionWithStatsFromWorkers,
    LeastConnectionWithInternalStats,
    Random,
    ResourceBased,
    WeightedWorkersByErrors,
}

impl Default for BalancingStrategy {
    fn default() -> (strategy: BalancingStrategy)
        ensures
            strategy == BalancingStrategy::RoundRobin(0),
    {
        BalancingStrategy::RoundRobin(0)
    }
}

impl BalancingStrategy {
    /// The name of the strategy.
    pub open spec fn name(self) -> Seq<char> {
        match self {
            BalancingStrategy::RoundRobin(_) => "RoundRobin"@,
            BalancingStrategy::LeastConnectionWithStatsFromWorkers =>
                "LeastConnectionWithStatsFromWorkers"@,
            BalancingStrategy::LeastConnectionWithInternalStats =>
                "LeastConnectionWithInternalStats"@,
            BalancingStrategy::Random => "Random"@,
            BalancingStrategy::ResourceBased => "ResourceBased"@,
            BalancingStrategy::WeightedWorkersByErrors => "WeightedWorkersByErrors"@,
        }
    }

    /// Whether two strategies are of the same kind, however far a round has come.
    pub open spec fn same_kind(self, other: BalancingStrategy) -> bool {
        match self {
            BalancingStrategy::RoundRobin(_) => other is RoundRobin,
            _ => self == other,
        }
    }

    /// The name of the strategy.
    pub fn as_ref(&self) -> (name: &'static str)
        ensures
            name@ == self.name(),
    {
        match self {
            BalancingStrategy::RoundRobin(_) => "RoundRobin",
            BalancingStrategy::LeastConnectionWithStatsFromWorkers => {
                "LeastConnectionWithStatsFromWorkers"
            },
            BalancingStrategy::LeastConnectionWithInternalStats => {
                "LeastConnectionWithInternalStats"
            },
            BalancingStrategy::Random => "Random",
            BalancingStrategy::ResourceBased => "ResourceBased",
            BalancingStrategy::WeightedWorkersByErrors => "WeightedWorkersByErrors",
        }
    }

    /// Every kind of strategy once, in the order of their declaration, with the
    /// round at its start.
    pub fn iter() -> (strategies: Vec<BalancingStrategy>)
        ensures
            strategies@ == seq![
                BalancingStrategy::RoundRobin(0),
                BalancingStrategy::LeastConnectionWithStatsFromWorkers,
                BalancingStrategy::LeastConnectionWithInternalStats,
                BalancingStrategy::Random,
                BalancingStrategy::ResourceBased,
                BalancingStrategy::WeightedWorkersByErrors,
            ],
    {
        vec![
            BalancingStrategy::RoundRobin(0),
            BalancingStrategy::LeastConnectionWithStatsFromWorkers,
            BalancingStrategy::LeastConnectionWithInternalStats,
            BalancingStrategy::Random,
            BalancingStrategy::ResourceBased,
            BalancingStrategy::WeightedWorkersByErrors,
        ]
    }
}

impl PartialEq for BalancingStrategy {
    fn eq(&self, other: &BalancingStrategy) -> (same: bool) {
        match (self, other) {
            (BalancingStrategy::RoundRobin(_), BalancingStrategy::RoundRobin(_)) => true,
            (
                BalancingStrategy::LeastConnectionWithStatsFromWorkers,
                BalancingStrategy::LeastConnectionWithStatsFromWorkers,
            ) => true,
            (
                BalancingStrategy::LeastConnectionWithInternalStats,
                BalancingStrategy::LeastConnectionWithInternalStats,
            ) => true,
            (BalancingStrategy::Random, BalancingStrategy::Random) => true,
            (BalancingStrategy::ResourceBased, BalancingStrategy::ResourceBased) => true,
            (
                BalancingStrategy::WeightedWorkersByErrors,
                BalancingStrategy::WeightedWorkersByErrors,
            ) => true,
            _ => false,
        }
    }
}

impl vstd::std_specs::cmp::PartialEqSpecImpl for BalancingStrategy {
    open spec fn obeys_eq_spec() -> bool {
        true
    }

    open spec fn eq_spec(&self, other: &BalancingStrategy) -> bool {
        self.same_kind(*other)
    }
}

/// Being of the same kind is an equivalence, and two strategies are of the same
/// kind exactly when they have the same name.
pub proof fn law_same_kind_is_an_equivalence(
    a: BalancingStrategy,
    b: BalancingStrategy,
    c: BalancingStrategy,
)
    ensures
        a.same_kind(a),
        a.same_kind(b) ==> b.same_kind(a),
        a.same_kind(b) && b.same_kind(c) ==> a.same_kind(c),
        a.same_kind(b) <==> a.name() == b.name(),
{
    reveal_strlit("RoundRobin");
    reveal_strlit("LeastConnectionWithStatsFromWorkers");
    reveal_strlit("LeastConnectionWithInternalStats");
    reveal_strlit("Random");
    reveal_strlit("ResourceBased");
    reveal_strlit("WeightedWorkersByErrors");
    assert(a.name().len() == b.name().len() ==> a.same_kind(b));
}

/// Picks the workers in turn: `last_worker` counts the picks.
pub fn round_robin(workers: &Vec<WorkerView>, last_worker: &mut usize) -> (next_worker: Result<
    usize,
    LoadBalancerError,
>)
    requires
        workers@.len() > 0,
    ensures
        next_worker == Ok::<usize, LoadBalancerError>((*old(last_worker) % workers.len()) as usize),
        *final(last_worker) == if *old(last_worker) == usize::MAX {
            0
        } else {
            (*old(last_worker) + 1) as usize
        },
{
    let last_worker_index: usize = *last_worker % workers.len();
    *last_worker = last_worker.wrapping_add(1);
    Ok(last_worker_index)
}

/// The indices of a list of a given length.
pub open spec fn all_indices(len: nat) -> Seq<usize> {
    Seq::new(len, |i: int| i as usize)
}

/// The indices of a list of a given length.
fn indices(len: usize) -> (indices: Vec<usize>)
    ensures
        indices@.len() == len,
        forall|i: int| 0 <= i < len ==> indices@[i] == i,
{
    let mut indices: Vec<usize> = Vec::new();
    let mut i: usize = 0;
    while i < len
        invariant
            i <= len,
            indices@.len() == i,
            forall|j: int| 0 <= j < i ==> indices@[j] == j,
        decreases len - i,
    {
        indices.push(i);
        i += 1;
    }
    indices
}

/// The worker that was drawn at random, if there was one to draw.
pub fn random_choice(drawn: Option<usize>) -> (next_worker: Result<usize, LoadBalancerError>)
    ensures
        match next_worker {
            Ok(i) => drawn == Some(i),
            Err(error) => drawn is None && error.is_internal("List of workers is empty"@),
        },
{
    match drawn {
        Some(i) => Ok(i),
        None => Err(LoadBalancerError::internal("List of workers is empty")),
    }
}

/// Picks the worker that is drawn at random from all of them. There is none to pick
/// exactly when the list is empty.
pub fn random(workers: &Vec<WorkerView>) -> (next_worker: Result<usize, LoadBalancerError>)
    ensures
        match next_worker {
            Ok(i) => i < workers@.len() && is_drawn_from(all_indices(workers@.len()), i),
            Err(error) => workers@.len() == 0 && error.is_internal("List of workers is empty"@),
        },
{
    let candidates: Vec<usize> = indices(workers.len());
    assert(candidates@ =~= all_indices(workers@.len()));
    random_choice(draw_item(&candidates))
}

/// Picks the worker who is handling the least number of requests, with stats
/// from the load balancer. Of several such workers it is the first.
pub fn least_connection_with_internal_stats(workers: &Vec<WorkerView>) -> (next_worker: Result<
    usize,
    LoadBalancerError,
>)
    requires
        forall|i: int| 0 <= i < workers@.len() ==> (#[trigger] workers@[i]).stats.active() >= 0,
    ensures
        match next_worker {
            Ok(i) => is_first_min(active_of(stats_of(workers@)), i as int),
            Err(error) => workers@.len() == 0 && error.is_internal("No workers in config"@),
        },
{
    if workers.len() == 0 {
        return Err(LoadBalancerError::internal("No workers in config"));
    }
    let ghost active = active_of(stats_of(workers@));
    let mut best: usize = 0;
    let mut least: u64 = workers[0].stats.nb_requests_sent - workers[0].stats.nb_requests_handled;
    let mut i: usize = 1;
    while i < workers.len()
        invariant
            1 <= i <= workers@.len(),
            active == active_of(stats_of(workers@)),
            forall|j: int| 0 <= j < workers@.len() ==> (#[trigger] workers@[j]).stats.active() >= 0,
            0 <= best < i,
            least == active[best as int],
            forall|j: int| 0 <= j < i ==> least <= #[trigger] active[j],
            forall|j: int| 0 <= j < best ==> least < #[trigger] active[j],
        decreases workers@.len() - i,
    {
        assert(workers@[i as int].stats.active() >= 0);
        let nb_requests: u64 = workers[i].stats.nb_requests_sent
            - workers[i].stats.nb_requests_handled;
        assert(active[i as int] == nb_requests);
        if nb_requests < least {
            best = i;
            least = nb_requests;
        }
        i += 1;
    }
    Ok(best)
}

/// What came of asking the workers for their states.
pub type StateReplies = Vec<Result<DeserializedWorkerState, LoadBalancerError>>;

/// Whether the reply at an index is the one of a worker that handles the least
/// number of requests of those that replied, and the first of these.
pub open spec fn is_least_busy_reply(
    replies: Seq<Result<DeserializedWorkerState, LoadBalancerError>>,
    k: int,
) -> bool {
    &&& 0 <= k < replies.len()
    &&& replies[k] is Ok
    &&& forall|j: int|
        0 <= j < replies.len() && (#[trigger] replies[j]) is Ok
            ==> replies[k]->Ok_0.nb_requests_being_handled
            <= replies[j]->Ok_0.nb_requests_being_handled
    &&& forall|j: int|
        0 <= j < k && (#[trigger] replies[j]) is Ok ==> replies[k]->Ok_0.nb_requests_being_handled
            < replies[j]->Ok_0.nb_requests_being_handled
}

/// Whether the worker at an index is the first with an id.
pub open spec fn is_first_with_id(workers: Seq<WorkerConfigView>, id: WorkerId, i: int) -> bool {
    &&& 0 <= i < workers.len()
    &&& workers[i].id == id
    &&& forall|j: int| 0 <= j < i ==> (#[trigger] workers[j]).id != id
}

/// What the replies of the workers make of a pick: the first worker that has the
/// id of the least busy reply, or an error if no worker replied or none has that
/// id.
pub open spec fn least_connection_outcome(
    workers: Seq<WorkerConfigView>,
    replies: Seq<Result<DeserializedWorkerState, LoadBalancerError>>,
    next_worker: Result<usize, LoadBalancerError>,
) -> bool {
    if forall|j: int| 0 <= j < replies.len() ==> !((#[trigger] replies[j]) is Ok) {
        next_worker matches Err(error) && error.is_internal("No stats received from any worker"@)
    } else {
        exists|k: int|
            #![trigger is_least_busy_reply(replies, k)]
            is_least_busy_reply(replies, k) && match next_worker {
                Ok(i) => is_first_with_id(workers, replies[k]->Ok_0.config.id, i as int),
                Err(error) => {
                    &&& forall|j: int|
                        0 <= j < workers.len() ==> (#[trigger] workers[j]).id
                            != replies[k]->Ok_0.config.id
                    &&& error.is_internal("Worker not found in the load balancer config"@)
                },
            }
    }
}

/// There is only one least busy reply that counts, so the replies of the workers
/// leave nothing of the pick open.
pub proof fn law_replies_decide_the_pick(
    workers: Seq<WorkerConfigView>,
    replies: Seq<Result<DeserializedWorkerState, LoadBalancerError>>,
    a: Result<usize, LoadBalancerError>,
    b: Result<usize, LoadBalancerError>,
)
    requires
        least_connection_outcome(workers, replies, a),
        least_connection_outcome(workers, replies, b),
    ensures
        match (a, b) {
            (Ok(i), Ok(j)) => i == j,
            (Err(e), Err(f)) => e.text() == f.text(),
            _ => false,
        },
{
    assert forall|k: int, l: int|
        is_least_busy_reply(replies, k) && is_least_busy_reply(replies, l) implies k == l by {
        assert(replies[k] is Ok && replies[l] is Ok);
    }
}

/// The index of the reply of the least busy worker.
fn least_busy_reply(replies: &StateReplies) -> (found: Option<usize>)
    ensures
        match found {
            Some(k) => is_least_busy_reply(replies@, k as int),
            None => forall|j: int| 0 <= j < replies@.len() ==> !((#[trigger] replies@[j]) is Ok),
        },
{
    let mut found: Option<usize> = None;
    let mut least: u32 = 0;
    let mut i: usize = 0;
    while i < replies.len()
        invariant
            i <= replies@.len(),
            match found {
                Some(k) => {
                    &&& is_least_busy_reply(replies@.take(i as int), k as int)
                    &&& least == replies@[k as int]->Ok_0.nb_requests_being_handled
                },
                None => forall|j: int| 0 <= j < i ==> !((#[trigger] replies@[j]) is Ok),
            },
        decreases replies@.len() - i,
    {
        let ghost before = replies@.take(i as int);
        let ghost after = replies@.take(i + 1);
        match &replies[i] {
            Ok(state) => {
                if found.is_none() || state.nb_requests_being_handled < least {
                    found = Some(i);
                    least = state.nb_requests_being_handled;
                }
            },
            Err(_) => {},
        }
        proof {
            assert(forall|j: int| 0 <= j < i ==> after[j] == before[j]);
            assert(after[i as int] == replies@[i as int]);
        }
        i += 1;
    }
    assert(replies@.take(replies@.len() as int) =~= replies@);
    found
}

/// The index of the first worker with an id.
fn position_of_id(workers: &Vec<WorkerView>, id: WorkerId) -> (found: Option<usize>)
    ensures
        match found {
            Some(i) => is_first_with_id(configs_of(workers@), id, i as int),
            None => forall|j: int|
                0 <= j < workers@.len() ==> (#[trigger] configs_of(workers@)[j]).id != id,
        },
{
    let mut i: usize = 0;
    while i < workers.len()
        invariant
            i <= workers@.len(),
            forall|j: int| 0 <= j < i ==> (#[trigger] configs_of(workers@)[j]).id != id,
        decreases workers@.len() - i,
    {
        if workers[i].config.id == id {
            return Some(i);
        }
        i += 1;
    }
    None
}

/// Picks the worker who is handling the least number of requests, with stats
/// from the workers. Workers which did not send their state are left out, and of
/// several least busy workers it is the first that counts.
pub fn least_connection_with_stats_from_workers(
    workers: &Vec<WorkerView>,
    replies: &StateReplies,
) -> (next_worker: Result<usize, LoadBalancerError>)
    ensures
        least_connection_outcome(configs_of(workers@), replies@, next_worker),
{
    match least_busy_reply(replies) {
        None => Err(LoadBalancerError::internal("No stats received from any worker")),
        Some(k) => match &replies[k] {
            Ok(state) => {
                assert(is_least_busy_reply(replies@, k as int));
                match position_of_id(workers, state.config.id) {
                    Some(i) => Ok(i),
                    None => Err(
                        LoadBalancerError::internal("Worker not found in the load balancer config"),
                    ),
                }
            },
            Err(_) => vstd::pervasive::unreached(),
        },
    }
}

/// Whether a list of weights has led beyond a number of workers: it is empty, or it
/// has handed out an index at which there is no worker.
pub open spec fn is_sampled_beyond(weights: Seq<u64>, nb_workers: nat) -> bool {
    ||| weights.len() == 0
    ||| exists|index: usize| nb_workers <= index && #[trigger] is_sampled(weights, index)
}

/// The worker at an index that was drawn by the weights.
pub fn worker_at(workers: &Vec<WorkerView>, index: usize) -> (next_worker: Result<
    usize,
    LoadBalancerError,
>)
    ensures
        match next_worker {
            Ok(i) => i == index && index < workers@.len(),
            Err(error) => index >= workers@.len() && error.is_internal(
                "No workers in the config"@,
            ),
        },
{
    if index < workers.len() {
        Ok(index)
    } else {
        Err(LoadBalancerError::internal("No workers in the config"))
    }
}

/// Select worker depending on the weight assigned to each: the one whose index the
/// weights hand out. A worker without weight is never selected.
pub fn weighted_workers(lb_state: &LoadBalancerState, workers: &Vec<WorkerView>) -> (next_worker:
    Result<usize, LoadBalancerError>)
    ensures
        match next_worker {
            Ok(i) => {
                &&& i < workers@.len()
                &&& i < lb_state.stats.weights().len()
                &&& lb_state.stats.weights()[i as int] > 0
                &&& is_sampled(lb_state.stats.weights(), i)
            },
            Err(error) => {
                &&& error.is_internal("No workers in the config"@)
                &&& reaches_beyond(lb_state.stats.weights(), workers@.len())
                &&& is_sampled_beyond(lb_state.stats.weights(), workers@.len())
            },
        },
{
    match &lb_state.stats.workers_weight {
        Some(weights) => {
            let index_of_next_worker: usize = draw_index(weights);
            worker_at(workers, index_of_next_worker)
        },
        None => Err(LoadBalancerError::internal("No workers in the config")),
    }
}

/// The address at which a worker tells its state.
pub fn state_url(worker: &WorkerConfig) -> (url: String)
    ensures
        url@ == state_url_of(worker@),
{
    let mut url: String = "http://".to_owned();
    url.append(worker.address.as_str());
    url.append("/state");
    url
}

/// The address at which a worker tells its state.
pub open spec fn state_url_of(worker: WorkerConfigView) -> Seq<char> {
    "http://"@ + worker.address + "/state"@
}

/// Whether a list of texts holds the addresses at which a list of workers tell
/// their states, in the order of the workers.
pub open spec fn are_state_urls(urls: Seq<String>, workers: Seq<WorkerConfigView>) -> bool {
    &&& urls.len() == workers.len()
    &&& forall|i: int| 0 <= i < urls.len() ==> (#[trigger] urls[i])@ == state_url_of(workers[i])
}

/// The addresses at which a list of workers tell their states.
pub fn state_urls(workers: &Vec<WorkerView>) -> (urls: Vec<String>)
    ensures
        are_state_urls(urls@, configs_of(workers@)),
{
    let mut urls: Vec<String> = Vec::new();
    let mut i: usize = 0;
    while i < workers.len()
        invariant
            i <= workers@.len(),
            urls@.len() == i,
            forall|j: int|
                0 <= j < i ==> (#[trigger] urls@[j])@ == state_url_of(workers@[j].config@),
        decreases workers@.len() - i,
    {
        urls.push(state_url(&workers[i].config));
        i += 1;
    }
    urls
}

/// How far a request about the state of a worker came: there was no client to
/// make it, the worker did not answer, the answer could not be read, or the
/// state is there. Each failure carries the text of its cause.
#[derive(Debug)]
pub enum StateRequest {
    NoClient(String),
    NoAnswer(String),
    Unreadable(String),
    Answered(DeserializedWorkerState),
}

/// What a request about the state of a worker comes to. Only a worker that did
/// not answer is an error of the worker.
pub fn request_worker_state(request: StateRequest) -> (state: Result<
    DeserializedWorkerState,
    LoadBalancerError,
>)
    ensures
        state == match request {
            StateRequest::NoClient(cause) => Err(LoadBalancerError::InternalError(cause)),
            StateRequest::NoAnswer(cause) => Err(LoadBalancerError::WorkerError(cause)),
            StateRequest::Unreadable(cause) => Err(LoadBalancerError::InternalError(cause)),
            StateRequest::Answered(state) => Ok(state),
        },
{
    match request {
        StateRequest::NoClient(cause) => Err(LoadBalancerError::InternalError(cause)),
        StateRequest::NoAnswer(cause) => Err(LoadBalancerError::WorkerError(cause)),
        StateRequest::Unreadable(cause) => Err(LoadBalancerError::InternalError(cause)),
        StateRequest::Answered(state) => Ok(state),
    }
}

/// What the load balancer knows itself of the worker for a request: which one it
/// is, or that the workers have to be asked for their states.
#[derive(Debug)]
pub enum Pick {
    Worker(usize),
    AskWorkers,
}

impl BalancingStrategy {
    /// Pick a server worker depending on the balancing strategy.
    ///
    /// Where the strategy goes by the states of the workers, they have to be
    /// asked, and `least_connection_with_stats_from_workers` then picks.
    pub fn pick_worker(state: &mut LoadBalancerState) -> (picked: Result<Pick, LoadBalancerError>)
        requires
            old(state)@.can_pick(),
        ensures
            final(state)@ == old(state)@.picked(),
            old(state)@.is_pick(picked),
    {
        match state.strategy {
            BalancingStrategy::RoundRobin(picks) => {
                let mut last_worker: usize = picks;
                let next_worker: Result<usize, LoadBalancerError> = round_robin(
                    &state.workers,
                    &mut last_worker,
                );
                state.strategy = BalancingStrategy::RoundRobin(last_worker);
                as_pick(next_worker)
            },
            BalancingStrategy::Random => as_pick(random(&state.workers)),
            BalancingStrategy::LeastConnectionWithStatsFromWorkers => Ok(Pick::AskWorkers),
            BalancingStrategy::LeastConnectionWithInternalStats => {
                proof {
                    assert forall|i: int| 0 <= i < state.workers@.len() implies (
                    #[trigger] state.workers@[i]).stats.active() >= 0 by {
                        assert(state@.stats[i] == state.workers@[i].stats);
                    }
                }
                as_pick(least_connection_with_internal_stats(&state.workers))
            },
            BalancingStrategy::WeightedWorkersByErrors => as_pick(
                weighted_workers(state, &state.workers),
            ),
            BalancingStrategy::ResourceBased => vstd::pervasive::unreached(),
        }
    }
}

/// The pick of a worker that the load balancer knows itself.
fn as_pick(next_worker: Result<usize, LoadBalancerError>) -> (picked: Result<
    Pick,
    LoadBalancerError,
>)
    ensures
        picked == match next_worker {
            Ok(i) => Ok(Pick::Worker(i)),
            Err(error) => Err(error),
        },
{
    match next_worker {
        Ok(i) => Ok(Pick::Worker(i)),
        Err(error) => Err(error),
    }
}

} // verus!
