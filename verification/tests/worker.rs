use load_balancer::worker::{
    check_health, get_worker_state, work, WorkRequest, WorkerConfig, WorkerError, WorkerServer,
    WorkerState, LOCAL_ADDR,
};

fn create_worker() -> WorkerServer {
    let config = WorkerServer::local_config();
    WorkerServer::build(config.id, config.address)
}

#[test]
fn worker_health_check_returns_200() {
    let worker = create_worker();
    assert_eq!(check_health(&worker.state), 200);
}

#[test]
fn worker_work_returns_200() {
    let worker = create_worker();
    let (duration, status) = work(&worker.state, WorkRequest { duration: 10 });
    assert_eq!(duration, 10);
    assert_eq!(status, 200);
}

#[test]
fn worker_state_returns_200_and_correct_state() {
    let mut worker = create_worker();
    let addr = worker.config.address.clone();

    let nb_request_sent = 10;
    for i in 1..=nb_request_sent {
        worker.state.request_received();
        let (status, state) = get_worker_state(&worker.state);
        worker.state.request_answered();
        assert_eq!(status, 200);
        assert!(state.nb_requests_being_handled < nb_request_sent);
        assert_eq!(state.nb_requests_received, i);
        assert_eq!(state.config.address, addr);
    }
}

#[test]
fn worker_counts_open_requests() {
    let mut state = WorkerState::new(WorkerConfig {
        id: 3,
        address: String::from("a"),
    });
    state.request_received();
    state.request_received();
    state.request_received();
    state.request_answered();
    assert_eq!(state.nb_requests_received, 3);
    assert_eq!(state.nb_requests_being_handled, 2);
    assert_eq!(state.config.id, 3);
    state.request_answered();
    state.request_answered();
    assert_eq!(state.nb_requests_received, 3);
    assert_eq!(state.nb_requests_being_handled, 0);
}

#[test]
fn worker_counters_start_over() {
    let mut state = WorkerState::new(WorkerConfig {
        id: 3,
        address: String::from("a"),
    });
    state.nb_requests_received = u32::MAX;
    state.nb_requests_being_handled = u16::MAX;
    state.request_received();
    assert_eq!(state.nb_requests_received, 0);
    assert_eq!(state.nb_requests_being_handled, 0);
    state.request_answered();
    assert_eq!(state.nb_requests_being_handled, u16::MAX);
    assert_eq!(get_worker_state(&state).1.nb_requests_being_handled, 65535);
}

#[test]
fn local_workers_get_different_ids() {
    let mut ids = vec![];
    for _ in 0..16 {
        let config = WorkerServer::local_config();
        assert_eq!(config.address, "127.0.0.1:0");
        assert_eq!(config.address, LOCAL_ADDR);
        ids.push(config.id);
    }
    assert!(ids.iter().any(|id| *id != ids[0]));
}

#[test]
fn worker_errors_are_answered_with_500() {
    let error = WorkerError(String::from("no json"));
    assert_eq!(error.display(), "no json");
    assert_eq!(
        error.into_response(),
        (500, String::from("Something went wrong: no json"))
    );
}
