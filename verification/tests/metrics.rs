use load_balancer::load_balancer::balancing_strategy::BalancingStrategy;
use load_balancer::load_balancer::metrics::{error_weights, LoadBalancerStats, WorkerStatistics};
use load_balancer::load_balancer::server::{
    transfer_request, LoadBalancer, LoadBalancerState, Transfer, TransferAction, TransferEvent,
    WorkerView,
};
use load_balancer::worker::WorkerConfig;

fn test_configs(nb_workers: u32) -> Vec<WorkerConfig> {
    let mut configs = vec![];
    for i in 0..nb_workers {
        configs.push(WorkerConfig {
            id: 100 + i,
            address: format!("127.0.0.1:{}", 4000 + i),
        });
    }
    configs
}

fn test_workers(nb_workers: u32) -> Vec<WorkerView> {
    test_configs(nb_workers)
        .into_iter()
        .map(WorkerView::new)
        .collect()
}

fn recompute(state: &mut LoadBalancerState) -> Vec<u64> {
    state
        .stats
        .recompute_weight(&state.strategy, &state.workers)
        .unwrap();
    state.stats.read_workers_weight()
}

fn start(state: &mut LoadBalancerState) -> Transfer {
    assert!(state.can_pick());
    let (transfer, _) = transfer_request(state, Transfer::New, TransferEvent::Arrived);
    let (transfer, action) = transfer_request(state, transfer, TransferEvent::RequestBuilt);
    assert!(matches!(action, TransferAction::Send(_)));
    transfer
}

fn finish(
    state: &mut LoadBalancerState,
    transfer: Transfer,
    response: Result<u16, String>,
) -> TransferAction {
    transfer_request(state, transfer, TransferEvent::Responded(response)).1
}

#[test]
fn metrics_error_statistics_are_taken_correctly() {
    // The workers of the load balancer are not running
    let load_balancer = LoadBalancer::build(String::from("127.0.0.1:0"), test_configs(2), None);
    let mut state = load_balancer.state;

    // Send two failing requests
    for i in 0..2 {
        let transfer = start(&mut state);
        let action = finish(&mut state, transfer, Err(String::from("connection refused")));
        let status = match action {
            TransferAction::Fail(error) => error.into_response().0,
            _ => unreachable!(),
        };
        assert!(500 <= status && status < 600);
        assert_eq!(state.workers[i].stats.nb_error_status_received, 1);
        assert_eq!(state.workers[i].stats.nb_requests_sent, 1);
        assert_eq!(state.workers[i].stats.nb_requests_handled, 1);
        assert_eq!(state.stats.nb_requests_received, i as u64 + 1);
    }
    assert_eq!(state.stats.nb_errors, 2);
}

#[test]
fn metrics_success_statistics_are_taken_correctly() {
    let nb_workers = 4;
    let load_balancer = LoadBalancer::build(
        String::from("127.0.0.1:0"),
        test_configs(nb_workers as u32),
        None,
    );
    let mut state = load_balancer.state;

    // Send succesfull requests and check stats
    for i in 0..nb_workers {
        let transfer = start(&mut state);
        let action = finish(&mut state, transfer, Ok(200));
        assert!(matches!(action, TransferAction::Reply(200)));
        assert_eq!(state.workers[i].stats.nb_error_status_received, 0);
        assert_eq!(state.workers[i].stats.nb_requests_sent, 1);
        assert_eq!(state.workers[i].stats.nb_requests_handled, 1);
        assert_eq!(state.stats.nb_requests_received, i as u64 + 1);
        assert_eq!(state.stats.nb_errors, 0);
    }

    // Send long requests that the workers do not answer yet
    for _ in 0..nb_workers {
        start(&mut state);
    }

    for i in 0..nb_workers {
        assert_eq!(state.workers[i].stats.nb_error_status_received, 0);
        assert_eq!(state.workers[i].stats.nb_requests_sent, 2);
        assert_eq!(state.workers[i].stats.nb_requests_handled, 1);
    }
    assert_eq!(state.stats.nb_requests_received, nb_workers as u64 * 2);
    assert_eq!(state.stats.nb_errors, 0);
}

// Conditions
// - the bigger the error ratio is, the less weight a worker should have
// - workers with the similar error ratio should have similar weight
// - weight should never be 0
#[test]
fn weighted_workers_stats_are_computed_correctly() {
    let nb_workers = 5;
    let mut lb_state = LoadBalancerState::new(
        "127.0.0.1".to_owned(),
        test_workers(nb_workers),
        BalancingStrategy::WeightedWorkersByErrors,
    );

    // With 0 requests all weights should be equal
    let weights = recompute(&mut lb_state);
    assert!(weights.len() == nb_workers as usize);
    assert!(weights.iter().all(|weight| *weight == weights[0]));
    assert!(weights.iter().all(|weight| *weight != 0));

    // Give all workers the same stats, all weights should be equal
    for worker in &mut lb_state.workers {
        worker.stats.nb_requests_handled = 100;
        worker.stats.nb_error_status_received = 50;
    }
    let weights = recompute(&mut lb_state);
    assert!(weights.len() == nb_workers as usize);
    assert!(weights.iter().all(|weight| *weight == weights[0]));
    assert!(weights.iter().all(|weight| *weight != 0));

    // Give all workers the same error ratio, all weights should be equal
    for (i, worker) in lb_state.workers.iter_mut().enumerate() {
        worker.stats.nb_requests_handled = (i + 1) as u64 * 100;
        worker.stats.nb_error_status_received = (i + 1) as u64 * 50;
    }
    let weights = recompute(&mut lb_state);
    assert!(weights.len() == nb_workers as usize);
    assert!(weights.iter().all(|weight| *weight == weights[0]));
    assert!(weights.iter().all(|weight| *weight != 0));

    // Workers with bigger error ratio have less weight
    for (i, worker) in lb_state.workers.iter_mut().enumerate() {
        worker.stats.nb_requests_handled = 100;
        worker.stats.nb_error_status_received = 100 - i as u64 * 10;
    }
    let weights = recompute(&mut lb_state);
    assert!(weights.is_sorted());
    assert!(weights.len() == nb_workers as usize);
    assert!(weights.iter().all(|weight| *weight != 0));
}

fn statistics(nb_requests_handled: u64, nb_error_status_received: u64) -> WorkerStatistics {
    WorkerStatistics {
        nb_requests_sent: nb_requests_handled,
        nb_requests_handled,
        nb_error_status_received,
    }
}

#[test]
fn weights_follow_the_errors() {
    let mut workers = test_workers(4);
    workers[1].stats = statistics(8, 0);
    workers[2].stats = statistics(8, 1);
    workers[3].stats = statistics(u64::MAX, u64::MAX);
    assert_eq!(error_weights(&workers), vec![1, 101, 88, 1]);
    assert_eq!(statistics(u64::MAX, 0).error_weight(), 101);
    assert_eq!(statistics(u64::MAX, u64::MAX / 2).error_weight(), 51);
    assert_eq!(statistics(100, 10).error_weight(), 91);
    assert_eq!(statistics(100, 90).error_weight(), 11);
    assert_eq!(statistics(3, 1).error_weight(), 67);
}

#[test]
fn more_errors_weigh_less() {
    for nb_requests in [1, 3, 50, 100] {
        for nb_errors in 0..nb_requests {
            assert!(
                statistics(nb_requests, nb_errors + 1).error_weight()
                    < statistics(nb_requests, nb_errors).error_weight()
            );
        }
    }
    // Within a hundredth the weights may be equal, except next to no error at all
    assert_eq!(statistics(1000, 1).error_weight(), 100);
    assert_eq!(statistics(1000, 2).error_weight(), 100);
    assert_eq!(statistics(1000, 0).error_weight(), 101);
    assert!(statistics(200, 100).error_weight() + 25 <= statistics(400, 100).error_weight());
}

#[test]
fn similar_error_ratios_weigh_alike() {
    assert_eq!(
        statistics(100, 50).error_weight(),
        statistics(14, 7).error_weight()
    );
    for nb_errors in 0..1000 {
        let weight = statistics(1000, nb_errors).error_weight();
        assert!(weight - statistics(1000, nb_errors + 1).error_weight() <= 1);
    }
}

#[test]
fn recomputed_weights_differ_as_the_errors_do() {
    let mut lb_state = LoadBalancerState::new(
        "127.0.0.1".to_owned(),
        test_workers(3),
        BalancingStrategy::WeightedWorkersByErrors,
    );
    lb_state.workers[0].stats = statistics(100, 90);
    lb_state.workers[1].stats = statistics(100, 10);
    assert_eq!(recompute(&mut lb_state), vec![11, 91, 1]);
}

#[test]
fn weights_are_recomputed_every_hundred_requests() {
    let mut lb_state = LoadBalancerState::new(
        "127.0.0.1".to_owned(),
        test_workers(2),
        BalancingStrategy::WeightedWorkersByErrors,
    );
    lb_state.workers[0].stats = statistics(10, 5);
    lb_state.stats.nb_requests_received = 150;
    assert_eq!(recompute(&mut lb_state), vec![1, 1]);
    lb_state.stats.nb_requests_received = 200;
    assert_eq!(recompute(&mut lb_state), vec![51, 1]);
}

#[test]
fn weights_are_left_alone_by_other_strategies() {
    for strategy in BalancingStrategy::iter() {
        let weighted = strategy == BalancingStrategy::WeightedWorkersByErrors;
        let mut lb_state =
            LoadBalancerState::new("127.0.0.1".to_owned(), test_workers(2), strategy);
        lb_state.workers[1].stats = statistics(10, 0);
        let expected = if weighted { vec![1, 101] } else { vec![1, 1] };
        assert_eq!(recompute(&mut lb_state), expected);
    }
}

#[test]
fn weights_without_workers_are_an_error() {
    let mut stats = LoadBalancerStats::new(2);
    let error = stats
        .recompute_weight(&BalancingStrategy::WeightedWorkersByErrors, &vec![])
        .unwrap_err();
    assert_eq!(
        error.display(),
        "internal error: Weights sequence is empty/too long/unordered"
    );
    assert_eq!(stats.read_workers_weight(), vec![1, 1]);
}

#[test]
fn refused_weights_leave_the_present_ones() {
    let mut stats = LoadBalancerStats::new(3);
    stats.set_workers_weight(vec![5, 0, 7]).unwrap();
    assert_eq!(stats.read_workers_weight(), vec![5, 0, 7]);

    let error = stats.set_workers_weight(vec![0, 0]).unwrap_err();
    assert_eq!(error.display(), "internal error: Not enough weights > zero");
    let error = stats.set_workers_weight(vec![1, u64::MAX]).unwrap_err();
    assert_eq!(
        error.display(),
        "internal error: Overflow when summing weights"
    );
    let error = stats.set_workers_weight(vec![]).unwrap_err();
    assert_eq!(
        error.display(),
        "internal error: Weights sequence is empty/too long/unordered"
    );
    assert_eq!(stats.read_workers_weight(), vec![5, 0, 7]);

    stats.set_workers_weight(vec![0, u64::MAX]).unwrap();
    assert_eq!(stats.read_workers_weight(), vec![0, u64::MAX]);
}

#[test]
fn statistics_start_from_zero() {
    let stats = LoadBalancerStats::new(3);
    assert_eq!(stats.nb_requests_received, 0);
    assert_eq!(stats.nb_errors, 0);
    assert_eq!(stats.read_workers_weight(), vec![1, 1, 1]);
    assert_eq!(
        LoadBalancerStats::default().read_workers_weight(),
        Vec::<u64>::new()
    );
    assert_eq!(
        LoadBalancerStats::for_workers(0).read_workers_weight(),
        Vec::<u64>::new()
    );
    assert_eq!(
        LoadBalancerStats::for_workers(2).read_workers_weight(),
        vec![1, 1]
    );
    assert_eq!(
        WorkerStatistics::default(),
        WorkerStatistics {
            nb_requests_sent: 0,
            nb_requests_handled: 0,
            nb_error_status_received: 0,
        }
    );
}
