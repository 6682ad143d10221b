use load_balancer::load_balancer::balancing_strategy::BalancingStrategy;
use load_balancer::load_balancer::server::{
    is_client_error, is_server_error, set_balancing_strategy, transfer_request, worker_uri,
    LoadBalancer, LoadBalancerError, LoadBalancerState, RequestUri, SetBalancingStrategyRequest,
    Transfer, TransferAction, TransferEvent,
};
use load_balancer::tracing::{on_response, Level};
use load_balancer::worker::{
    check_health, get_worker_state, work, DeserializedWorkerState, WorkRequest, WorkerConfig,
    WorkerServer,
};
use rand::seq::IndexedRandom;

fn test_configs(nb_workers: u32) -> Vec<WorkerConfig> {
    let mut configs = vec![];
    for i in 0..nb_workers {
        configs.push(WorkerConfig {
            id: 100 + i,
            address: format!("127.0.0.1:{}", 4000 + i),
        });
    }
    configs
}

fn test_run(workers: Vec<WorkerConfig>) -> LoadBalancerState {
    LoadBalancer::build(String::from("127.0.0.1:0"), workers, None).state
}

fn request_uri(path_and_query: &str) -> RequestUri {
    RequestUri {
        scheme: None,
        authority: None,
        path_and_query: Some(String::from(path_and_query)),
    }
}

fn start(state: &mut LoadBalancerState) -> Transfer {
    assert!(state.can_pick());
    let (transfer, action) = transfer_request(state, Transfer::New, TransferEvent::Arrived);
    assert!(matches!(action, TransferAction::BuildRequest(_)));
    let (transfer, action) = transfer_request(state, transfer, TransferEvent::RequestBuilt);
    assert!(matches!(action, TransferAction::Send(_)));
    transfer
}

fn finish(
    state: &mut LoadBalancerState,
    transfer: Transfer,
    response: Result<u16, String>,
) -> TransferAction {
    let (transfer, action) = transfer_request(state, transfer, TransferEvent::Responded(response));
    assert!(matches!(transfer, Transfer::Done));
    action
}

#[test]
fn worker_requests_are_redirected() {
    // We start 3 workers
    let mut workers = vec![];
    for config in test_configs(3) {
        workers.push(WorkerServer::build(config.id, config.address));
    }

    // We start the loadbalancer
    let mut state = test_run(workers.iter().map(|worker| worker.config.clone()).collect());

    // Test the worker different endpoints
    for endpoint in ["check-health", "state", "work"] {
        let (transfer, action) =
            transfer_request(&mut state, Transfer::New, TransferEvent::Arrived);
        let chosen = match action {
            TransferAction::BuildRequest(worker) => worker,
            _ => unreachable!(),
        };
        let request = request_uri(&format!("/{}", endpoint));
        let uri = worker_uri(&state.workers[chosen].config, &request).unwrap();
        let worker = &mut workers[chosen];
        assert_eq!(uri, format!("http://{}/{}", worker.config.address, endpoint));
        let (transfer, action) =
            transfer_request(&mut state, transfer, TransferEvent::RequestBuilt);
        assert!(matches!(action, TransferAction::Send(index) if index == chosen));

        worker.state.request_received();
        let status = match endpoint {
            "check-health" => check_health(&worker.state),
            "state" => {
                let (status, report) = get_worker_state(&worker.state);
                assert_eq!(report.config, worker.config);
                status
            }
            _ => work(&worker.state, WorkRequest { duration: 1 }).1,
        };
        worker.state.request_answered();

        let action = finish(&mut state, transfer, Ok(status));
        assert!(matches!(action, TransferAction::Reply(200)));
    }
}

#[test]
fn server_error_statistics_are_taken_correctly() {
    // We start a loadbalancer without workers actually running
    let load_balancer = LoadBalancer::build(
        String::from("127.0.0.1:0"),
        test_configs(2),
        Some(BalancingStrategy::RoundRobin(usize::default())),
    );
    let mut state = load_balancer.state;

    // Send two failing requests
    for i in 0..2 {
        let transfer = start(&mut state);
        let action = finish(&mut state, transfer, Err(String::from("refused")));
        let (status, body) = match action {
            TransferAction::Fail(error) => error.into_response(),
            _ => unreachable!(),
        };
        assert!(is_server_error(status));
        assert_eq!(body, "LoadBalancer error: internal error: refused");
        assert_eq!(state.workers[i].stats.nb_error_status_received, 1);
        assert_eq!(state.workers[i].stats.nb_requests_sent, 1);
        assert_eq!(state.workers[i].stats.nb_requests_handled, 1);
        assert_eq!(state.stats.nb_requests_received, i as u64 + 1);
    }
    assert_eq!(state.stats.nb_errors, 2);
}

#[test]
fn server_success_statistics_are_taken_correctly() {
    let nb_workers = 4;
    let mut state = test_run(test_configs(nb_workers as u32));

    // Send succesfull requests and check stats
    for i in 0..nb_workers {
        let transfer = start(&mut state);
        finish(&mut state, transfer, Ok(200));
        assert_eq!(state.workers[i].stats.nb_error_status_received, 0);
        assert_eq!(state.workers[i].stats.nb_requests_sent, 1);
        assert_eq!(state.workers[i].stats.nb_requests_handled, 1);
        assert_eq!(state.stats.nb_requests_received, i as u64 + 1);
        assert_eq!(state.stats.nb_errors, 0);
    }

    // Send long requests that the workers do not answer yet
    let mut open = vec![];
    for _ in 0..nb_workers {
        open.push(start(&mut state));
    }

    for i in 0..nb_workers {
        assert_eq!(state.workers[i].stats.nb_error_status_received, 0);
        assert_eq!(state.workers[i].stats.nb_requests_sent, 2);
        assert_eq!(state.workers[i].stats.nb_requests_handled, 1);
    }
    assert_eq!(state.stats.nb_requests_received, nb_workers as u64 * 2);
    assert_eq!(state.stats.nb_errors, 0);

    // Once they are answered nothing is left open
    for transfer in open {
        finish(&mut state, transfer, Ok(200));
    }
    for worker in &state.workers {
        assert_eq!(worker.stats.nb_requests_sent, worker.stats.nb_requests_handled);
    }
}

#[test]
fn change_strategy_endpoint_works_as_expected() {
    let mut state = test_run(test_configs(3));
    let possible_strategies = BalancingStrategy::iter();

    for _ in 0..10 {
        let strategy = possible_strategies.choose(&mut rand::rng()).unwrap();
        let status = set_balancing_strategy(
            &mut state,
            SetBalancingStrategyRequest {
                strategy: *strategy,
            },
        );
        assert_eq!(status, 200);
        assert_eq!(*strategy, state.strategy);
    }
}

#[test]
fn changing_the_strategy_keeps_the_rest() {
    let mut state = test_run(test_configs(2));
    let transfer = start(&mut state);
    finish(&mut state, transfer, Ok(404));
    set_balancing_strategy(
        &mut state,
        SetBalancingStrategyRequest {
            strategy: BalancingStrategy::RoundRobin(6),
        },
    );
    assert_eq!(state.stats.nb_requests_received, 1);
    assert_eq!(state.stats.nb_errors, 1);
    assert_eq!(state.workers[0].stats.nb_requests_handled, 1);
    let (transfer, _) = transfer_request(&mut state, Transfer::New, TransferEvent::Arrived);
    assert!(matches!(transfer, Transfer::Chosen(0)));
    assert!(matches!(state.strategy, BalancingStrategy::RoundRobin(7)));
}

#[test]
fn build_starts_from_nothing() {
    let load_balancer = LoadBalancer::build(String::from("127.0.0.1:3000"), test_configs(2), None);
    assert_eq!(load_balancer.address, "127.0.0.1:3000");
    let state = load_balancer.state;
    assert_eq!(state.address, "127.0.0.1:3000");
    assert_eq!(state.workers.len(), 2);
    assert_eq!(state.workers[1].config, test_configs(2)[1]);
    assert_eq!(state.workers[1].stats.nb_requests_sent, 0);
    assert!(matches!(state.strategy, BalancingStrategy::RoundRobin(0)));
    assert_eq!(state.stats.read_workers_weight(), vec![1, 1]);

    let empty = LoadBalancer::build(
        String::from("a"),
        vec![],
        Some(BalancingStrategy::Random),
    );
    assert_eq!(empty.state.workers.len(), 0);
    assert_eq!(empty.state.strategy, BalancingStrategy::Random);
}

#[test]
fn blame_goes_by_the_status() {
    let cases = [
        (200, 0, 0),
        (302, 0, 0),
        (399, 0, 0),
        (400, 1, 0),
        (499, 1, 0),
        (500, 0, 1),
        (599, 0, 1),
        (600, 0, 0),
        (999, 0, 0),
    ];
    for (status, balancer, worker) in cases {
        let mut state = test_run(test_configs(1));
        let transfer = start(&mut state);
        let action = finish(&mut state, transfer, Ok(status));
        assert!(matches!(action, TransferAction::Reply(reply) if reply == status));
        assert_eq!(state.stats.nb_errors, balancer);
        assert_eq!(state.workers[0].stats.nb_error_status_received, worker);
        assert_eq!(is_client_error(status), balancer == 1);
        assert_eq!(is_server_error(status), worker == 1);
    }
}

#[test]
fn a_refused_pick_is_answered_with_an_error() {
    let mut state = LoadBalancer::build(
        String::from("a"),
        vec![],
        Some(BalancingStrategy::Random),
    )
    .state;
    let (transfer, action) = transfer_request(&mut state, Transfer::New, TransferEvent::Arrived);
    assert!(matches!(transfer, Transfer::Done));
    match action {
        TransferAction::Fail(error) => assert_eq!(
            error.into_response(),
            (
                500,
                String::from("LoadBalancer error: internal error: List of workers is empty")
            )
        ),
        _ => unreachable!(),
    }
    assert_eq!(state.stats.nb_requests_received, 1);
    assert_eq!(state.stats.nb_errors, 0);
}

#[test]
fn workers_are_asked_before_the_least_busy_is_picked() {
    let mut state = LoadBalancer::build(
        String::from("a"),
        test_configs(2),
        Some(BalancingStrategy::LeastConnectionWithStatsFromWorkers),
    )
    .state;
    let (transfer, action) = transfer_request(&mut state, Transfer::New, TransferEvent::Arrived);
    match action {
        TransferAction::AskWorkers(urls) => assert_eq!(
            urls,
            vec![
                String::from("http://127.0.0.1:4000/state"),
                String::from("http://127.0.0.1:4001/state"),
            ]
        ),
        _ => unreachable!(),
    }
    let mut replies = vec![];
    for (i, config) in test_configs(2).into_iter().enumerate() {
        replies.push(Ok(DeserializedWorkerState {
            config,
            nb_requests_received: 10,
            nb_requests_being_handled: 3 - i as u32,
        }));
    }
    let (transfer, _) =
        transfer_request(&mut state, transfer, TransferEvent::WorkerStates(replies));
    assert!(matches!(transfer, Transfer::Chosen(1)));

    let (transfer, _) = transfer_request(&mut state, Transfer::New, TransferEvent::Arrived);
    let (transfer, action) = transfer_request(
        &mut state,
        transfer,
        TransferEvent::WorkerStates(vec![Err(LoadBalancerError::WorkerError(String::from("x")))]),
    );
    assert!(matches!(transfer, Transfer::Done));
    assert!(matches!(action, TransferAction::Fail(_)));
    assert_eq!(state.stats.nb_requests_received, 2);
}

#[test]
fn interleaved_requests_keep_the_books() {
    let mut state = test_run(test_configs(2));
    let first = start(&mut state);
    let second = start(&mut state);
    let third = start(&mut state);
    finish(&mut state, second, Ok(500));
    let fourth = start(&mut state);
    finish(&mut state, first, Err(String::from("x")));

    // The first worker has the third request open, the second worker the fourth
    assert_eq!(state.workers[0].stats.nb_requests_sent, 2);
    assert_eq!(state.workers[0].stats.nb_requests_handled, 1);
    assert_eq!(state.workers[0].stats.nb_error_status_received, 1);
    assert_eq!(state.workers[1].stats.nb_requests_sent, 2);
    assert_eq!(state.workers[1].stats.nb_requests_handled, 1);
    assert_eq!(state.workers[1].stats.nb_error_status_received, 1);
    assert_eq!(state.stats.nb_requests_received, 4);
    assert_eq!(state.stats.nb_errors, 1);

    finish(&mut state, third, Ok(404));
    finish(&mut state, fourth, Ok(200));
    assert_eq!(state.workers[0].stats.nb_requests_handled, 2);
    assert_eq!(state.workers[1].stats.nb_requests_handled, 2);
    assert_eq!(state.stats.nb_errors, 2);
}

#[test]
fn counters_start_over() {
    let mut state = test_run(test_configs(1));
    state.stats.nb_requests_received = u64::MAX;
    state.stats.nb_errors = u64::MAX;
    state.workers[0].stats.nb_requests_sent = u64::MAX;
    state.workers[0].stats.nb_requests_handled = u64::MAX;
    state.workers[0].stats.nb_error_status_received = u64::MAX;
    let transfer = start(&mut state);
    finish(&mut state, transfer, Err(String::from("x")));
    assert_eq!(state.stats.nb_requests_received, 0);
    assert_eq!(state.stats.nb_errors, 0);
    assert_eq!(state.workers[0].stats.nb_requests_sent, 0);
    assert_eq!(state.workers[0].stats.nb_requests_handled, 0);
    assert_eq!(state.workers[0].stats.nb_error_status_received, 0);
}

fn worker_at(address: &str) -> WorkerConfig {
    WorkerConfig {
        id: 1,
        address: String::from(address),
    }
}

#[test]
fn requests_are_rewritten_for_the_worker() {
    let worker = worker_at("127.0.0.1:8080");
    for path_and_query in [
        "/",
        "/work",
        "/work?x=1",
        "/a/b?c=d&e=?f",
        "/?",
        "/Work.0/-",
        "/%20\"{}|^",
        "/?`^{}|",
        "/\u{e9}?\u{20ac}",
    ] {
        assert_eq!(
            worker_uri(&worker, &request_uri(path_and_query)).unwrap(),
            format!("http://127.0.0.1:8080{}", path_and_query)
        );
    }
    for path_and_query in ["no slash", "/a b", "/a<", "/a>?b", "/`", "/?\"", "/?a<b", "/\u{7f}"] {
        assert!(worker_uri(&worker, &request_uri(path_and_query)).is_none());
    }
}

#[test]
fn uris_are_built_for_the_address_of_any_server() {
    for address in [
        "worker-1.example.com",
        "worker_1:4000",
        "localhost:80",
        "[::1]:8080",
        "[fe80::1%251]",
        "[1:2:3:4:5:6:7:8]:1",
    ] {
        assert_eq!(
            worker_uri(&worker_at(address), &request_uri("/state?x=1")).unwrap(),
            format!("http://{}/state?x=1", address)
        );
    }
    for address in ["a b", "", "a:1:2", "[::1"] {
        assert!(worker_uri(&worker_at(address), &request_uri("/work")).is_none());
    }
}

#[test]
fn uris_have_a_longest_path() {
    let worker = worker_at("127.0.0.1:8080");
    let longest = format!("/{}", "a".repeat(65533));
    assert!(worker_uri(&worker, &request_uri(&longest)).is_some());
    assert!(worker_uri(&worker, &request_uri(&format!("{}a", longest))).is_none());
    // The length is taken in bytes
    let longest = format!("/a{}", "\u{e9}".repeat(32766));
    assert!(worker_uri(&worker, &request_uri(&longest)).is_some());
    assert!(worker_uri(&worker, &request_uri(&format!("{}a", longest))).is_none());
}

#[test]
fn only_the_path_and_the_query_of_a_request_stay() {
    let worker = worker_at("127.0.0.1:4000");
    let absolute = RequestUri {
        scheme: Some(String::from("https")),
        authority: Some(String::from("127.0.0.1:3000")),
        path_and_query: Some(String::from("/work?x=1")),
    };
    assert_eq!(
        worker_uri(&worker, &absolute).unwrap(),
        "http://127.0.0.1:4000/work?x=1"
    );
    assert_eq!(
        worker_uri(&worker, &absolute),
        worker_uri(&worker, &request_uri("/work?x=1"))
    );
}

#[test]
fn requests_placed_by_the_states_of_the_workers_are_counted_once() {
    let mut state = test_run(test_configs(3));
    let strategy = BalancingStrategy::LeastConnectionWithStatsFromWorkers;
    set_balancing_strategy(&mut state, SetBalancingStrategyRequest { strategy });

    let (transfer, action) = transfer_request(&mut state, Transfer::New, TransferEvent::Arrived);
    assert!(matches!(action, TransferAction::AskWorkers(urls) if urls.len() == 3));
    let mut replies = vec![];
    for (worker, busy) in state.workers.iter().zip([4, 1, 2]) {
        replies.push(Ok(DeserializedWorkerState {
            config: worker.config.clone(),
            nb_requests_received: 9,
            nb_requests_being_handled: busy,
        }));
    }
    let event = TransferEvent::WorkerStates(replies);
    let (transfer, action) = transfer_request(&mut state, transfer, event);
    assert!(matches!(action, TransferAction::BuildRequest(1)));
    let (transfer, _) = transfer_request(&mut state, transfer, TransferEvent::RequestBuilt);
    let action = finish(&mut state, transfer, Ok(503));
    assert!(matches!(action, TransferAction::Reply(503)));

    assert_eq!(state.stats.nb_requests_received, 1);
    assert_eq!(state.stats.nb_errors, 0);
    for (i, worker) in state.workers.iter().enumerate() {
        let expected = if i == 1 { 1 } else { 0 };
        assert_eq!(worker.stats.nb_requests_sent, expected);
        assert_eq!(worker.stats.nb_requests_handled, expected);
        assert_eq!(worker.stats.nb_error_status_received, expected);
    }
}

#[test]
fn refused_requests_are_only_received() {
    let mut state = test_run(test_configs(2));
    let strategy = BalancingStrategy::LeastConnectionWithStatsFromWorkers;
    set_balancing_strategy(&mut state, SetBalancingStrategyRequest { strategy });
    let (transfer, _) = transfer_request(&mut state, Transfer::New, TransferEvent::Arrived);
    let event = TransferEvent::WorkerStates(vec![]);
    let (transfer, action) = transfer_request(&mut state, transfer, event);
    assert!(matches!(transfer, Transfer::Done));
    assert!(matches!(action, TransferAction::Fail(_)));
    assert_eq!(state.stats.nb_requests_received, 1);
    assert_eq!(state.stats.nb_errors, 0);
    for worker in &state.workers {
        assert_eq!(worker.stats.nb_requests_sent, 0);
        assert_eq!(worker.stats.nb_requests_handled, 0);
        assert_eq!(worker.stats.nb_error_status_received, 0);
    }
}

#[test]
fn answered_requests_are_accounted_for() {
    for strategy in [
        BalancingStrategy::RoundRobin(0),
        BalancingStrategy::Random,
        BalancingStrategy::LeastConnectionWithInternalStats,
        BalancingStrategy::WeightedWorkersByErrors,
    ] {
        let mut state = test_run(test_configs(3));
        set_balancing_strategy(&mut state, SetBalancingStrategyRequest { strategy });
        let mut open = vec![];
        for _ in 0..10 {
            open.push(start(&mut state));
        }
        for (i, transfer) in open.into_iter().rev().enumerate() {
            let response = match i % 4 {
                0 => Ok(200),
                1 => Ok(404),
                2 => Ok(503),
                _ => Err(String::from("connection refused")),
            };
            finish(&mut state, transfer, response);
        }
        assert_eq!(state.stats.nb_requests_received, 10);
        assert_eq!(state.stats.nb_errors, 5);
        let mut nb_sent = 0;
        for worker in &state.workers {
            assert_eq!(worker.stats.nb_requests_handled, worker.stats.nb_requests_sent);
            assert!(worker.stats.nb_error_status_received <= worker.stats.nb_requests_handled);
            nb_sent += worker.stats.nb_requests_sent;
        }
        assert_eq!(nb_sent, 10);
    }
}

#[test]
fn errors_say_what_they_are() {
    let cases = [
        (
            LoadBalancerError::InternalError(String::from("x")),
            "internal error: x",
        ),
        (LoadBalancerError::WorkerError(String::from("y")), "y"),
        (LoadBalancerError::IOError(String::from("z")), "z"),
    ];
    for (error, text) in cases {
        assert_eq!(error.display(), text);
        assert_eq!(
            error.into_response(),
            (500, format!("LoadBalancer error: {}", text))
        );
    }
}

#[test]
fn failed_requests_are_logged_as_errors() {
    for (status, level) in [
        (100, Level::Info),
        (200, Level::Info),
        (399, Level::Info),
        (400, Level::Error),
        (404, Level::Error),
        (599, Level::Error),
        (600, Level::Info),
    ] {
        assert_eq!(on_response(status), level);
    }
}
