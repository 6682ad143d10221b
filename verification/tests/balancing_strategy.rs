use load_balancer::load_balancer::balancing_strategy::{
    least_connection_with_internal_stats, least_connection_with_stats_from_workers, random, random_choice,
    request_worker_state, round_robin, state_url, state_urls, weighted_workers, worker_at,
    BalancingStrategy, Pick, StateRequest,
};
use load_balancer::load_balancer::metrics::LoadBalancerStats;
use load_balancer::load_balancer::server::{LoadBalancerError, LoadBalancerState, WorkerView};
use load_balancer::worker::{
    get_worker_state, work, DeserializedWorkerState, WorkRequest, WorkerConfig, WorkerState,
};

fn test_workers(nb_workers: u32) -> Vec<WorkerView> {
    let mut workers = vec![];
    for i in 0..nb_workers {
        workers.push(WorkerView::new(WorkerConfig {
            id: 100 + i,
            address: format!("127.0.0.1:{}", 4000 + i),
        }));
    }
    workers
}

fn report(id: u32, nb_requests_being_handled: u32) -> DeserializedWorkerState {
    DeserializedWorkerState {
        config: WorkerConfig {
            id,
            address: String::from("127.0.0.1:0"),
        },
        nb_requests_received: 7,
        nb_requests_being_handled,
    }
}

fn weighted_state(workers: u32, weights: Vec<u64>) -> LoadBalancerState {
    let mut lb_state = LoadBalancerState::new(
        "127.0.0.1".to_owned(),
        test_workers(workers),
        BalancingStrategy::WeightedWorkersByErrors,
    );
    lb_state.stats.set_workers_weight(weights).unwrap();
    lb_state
}

#[test]
fn round_robin_picks_next_worker() {
    let workers = test_workers(5);
    let mut glob_index = usize::default();
    for index in 0..10 {
        let next_worker = round_robin(&workers, &mut glob_index).unwrap();
        assert_eq!(
            workers[next_worker].config.id,
            workers[index % workers.len()].config.id
        );
    }
}

#[test]
fn round_robin_counter_starts_over() {
    let workers = test_workers(3);
    let mut last_worker = usize::MAX;
    assert_eq!(
        round_robin(&workers, &mut last_worker).unwrap(),
        usize::MAX % 3
    );
    assert_eq!(last_worker, 0);
    assert_eq!(round_robin(&workers, &mut last_worker).unwrap(), 0);
    assert_eq!(last_worker, 1);
}

#[test]
fn round_robin_is_fair_over_whole_rounds() {
    let workers = test_workers(4);
    let mut last_worker = 3;
    let mut turns = vec![0; 4];
    for _ in 0..20 {
        turns[round_robin(&workers, &mut last_worker).unwrap()] += 1;
    }
    assert_eq!(turns, vec![5, 5, 5, 5]);
    for _ in 0..2 {
        turns[round_robin(&workers, &mut last_worker).unwrap()] += 1;
    }
    assert_eq!(turns, vec![6, 5, 5, 6]);
}

#[test]
fn random_does_not_create_impossible_value() {
    let workers = test_workers(5);
    for _ in 1..=10 {
        let next_worker = random(&workers).expect("should not fail");
        assert!(workers
            .iter()
            .find(|worker| worker.config == workers[next_worker].config)
            .is_some());
    }
}

#[test]
fn random_reaches_more_than_one_worker() {
    let workers = test_workers(5);
    let mut seen = vec![false; 5];
    for _ in 0..2000 {
        seen[random(&workers).unwrap()] = true;
    }
    assert_eq!(seen, vec![true; 5]);
}

#[test]
fn random_without_workers_is_an_error() {
    let error = random(&vec![]).unwrap_err();
    assert_eq!(error.display(), "internal error: List of workers is empty");
    assert!(matches!(error, LoadBalancerError::InternalError(_)));
}

#[test]
fn a_drawn_worker_is_taken() {
    assert_eq!(random_choice(Some(4)).unwrap(), 4);
    assert_eq!(
        random_choice(None).unwrap_err().display(),
        "internal error: List of workers is empty"
    );
}

#[test]
fn least_connection_with_internal_stats_picks_the_right_worker() {
    let mut workers = test_workers(5);
    for i in 0..=10 {
        let next_worker = least_connection_with_internal_stats(&workers).expect("should not fail");
        let index = i % workers.len();
        println!("{}", index);
        assert_eq!(workers[next_worker].config, workers[index].config);
        workers[index].stats.nb_requests_sent += 1;
    }
}

#[test]
fn least_connection_with_internal_stats_counts_handled_requests() {
    let mut workers = test_workers(3);
    workers[0].stats.nb_requests_sent = 12;
    workers[0].stats.nb_requests_handled = 2;
    workers[1].stats.nb_requests_sent = 1000;
    workers[1].stats.nb_requests_handled = 997;
    workers[2].stats.nb_requests_sent = 4;
    workers[2].stats.nb_requests_handled = 1;
    assert_eq!(least_connection_with_internal_stats(&workers).unwrap(), 1);
}

#[test]
fn least_connection_with_internal_stats_without_workers_is_an_error() {
    let error = least_connection_with_internal_stats(&vec![]).unwrap_err();
    assert_eq!(error.display(), "internal error: No workers in config");
}

#[test]
fn least_connection_with_worker_state_picks_the_right_worker() {
    const NB_WORKERS: usize = 3;
    let workers = test_workers(NB_WORKERS as u32);
    let mut states = vec![];
    for worker in &workers {
        states.push(WorkerState::new(worker.config.clone()));
    }

    // Send long work to all workers except last one
    let mut answers = vec![];
    for i in 0..(NB_WORKERS - 1) {
        states[i].request_received();
        // We make them work for 1s
        answers.push(work(&states[i], WorkRequest { duration: 1000 }));
    }

    let mut replies = vec![];
    for state in &mut states {
        state.request_received();
        let (status, report) = get_worker_state(state);
        assert_eq!(status, 200);
        replies.push(request_worker_state(StateRequest::Answered(report)));
        state.request_answered();
    }
    let next_worker = least_connection_with_stats_from_workers(&workers, &replies)
        .expect("Failed to find next worker");
    assert_eq!(
        workers[next_worker].config,
        workers.last().unwrap().config
    );
    for (duration, status) in answers {
        assert_eq!(duration, 1000);
        assert_eq!(status, 200);
    }
}

#[test]
fn least_connection_leaves_out_workers_without_state() {
    let workers = test_workers(4);
    let replies = vec![
        request_worker_state(StateRequest::NoAnswer(String::from("refused"))),
        Ok(report(101, 3)),
        Ok(report(103, 2)),
        Ok(report(102, 2)),
    ];
    // Of the two least busy replies the first one counts
    assert_eq!(
        least_connection_with_stats_from_workers(&workers, &replies).unwrap(),
        3
    );
}

#[test]
fn least_connection_takes_the_first_worker_with_the_id() {
    let mut workers = test_workers(3);
    workers[1].config.id = 9;
    workers[2].config.id = 9;
    let replies = vec![Ok(report(9, 0))];
    assert_eq!(
        least_connection_with_stats_from_workers(&workers, &replies).unwrap(),
        1
    );
}

#[test]
fn least_connection_without_any_state_is_an_error() {
    let workers = test_workers(2);
    let replies = vec![
        request_worker_state(StateRequest::NoAnswer(String::from("refused"))),
        request_worker_state(StateRequest::Unreadable(String::from("not json"))),
    ];
    let error = least_connection_with_stats_from_workers(&workers, &replies).unwrap_err();
    assert_eq!(
        error.display(),
        "internal error: No stats received from any worker"
    );
    let error = least_connection_with_stats_from_workers(&workers, &vec![]).unwrap_err();
    assert_eq!(
        error.display(),
        "internal error: No stats received from any worker"
    );
}

#[test]
fn least_connection_with_an_unknown_worker_is_an_error() {
    let workers = test_workers(2);
    let replies = vec![Ok(report(100, 5)), Ok(report(999, 1))];
    let error = least_connection_with_stats_from_workers(&workers, &replies).unwrap_err();
    assert_eq!(
        error.display(),
        "internal error: Worker not found in the load balancer config"
    );
}

#[test]
fn state_requests_fail_by_their_stage() {
    let no_client = request_worker_state(StateRequest::NoClient(String::from("a"))).unwrap_err();
    assert!(matches!(no_client, LoadBalancerError::InternalError(cause) if cause == "a"));
    let no_answer = request_worker_state(StateRequest::NoAnswer(String::from("b"))).unwrap_err();
    assert!(matches!(no_answer, LoadBalancerError::WorkerError(cause) if cause == "b"));
    let unreadable = request_worker_state(StateRequest::Unreadable(String::from("c"))).unwrap_err();
    assert!(matches!(unreadable, LoadBalancerError::InternalError(cause) if cause == "c"));
    let answered = request_worker_state(StateRequest::Answered(report(5, 6))).unwrap();
    assert_eq!(answered.config.id, 5);
    assert_eq!(answered.nb_requests_received, 7);
    assert_eq!(answered.nb_requests_being_handled, 6);
}

#[test]
fn workers_are_asked_at_their_state_address() {
    let workers = test_workers(2);
    assert_eq!(state_url(&workers[1].config), "http://127.0.0.1:4001/state");
    assert_eq!(
        state_urls(&workers),
        vec![
            String::from("http://127.0.0.1:4000/state"),
            String::from("http://127.0.0.1:4001/state"),
        ]
    );
}

#[test]
fn weighted_workers_is_correct() {
    let nb_workers = 5;
    let workers = test_workers(nb_workers);
    let mut lb_state = LoadBalancerState::new(
        "127.0.0.1".to_owned(),
        test_workers(nb_workers),
        BalancingStrategy::WeightedWorkersByErrors,
    );

    // Picked worker exists in the config
    for _ in 1..=10 {
        let next_worker = weighted_workers(&lb_state, &workers).expect("should not fail");
        assert!(workers
            .iter()
            .find(|worker| worker.config == workers[next_worker].config)
            .is_some());
    }

    // Weigthed distribution works correctly
    // Only first index has some weight
    let mut weights = [0u64, 0, 0, 0, 0];
    for i in 0..nb_workers as usize {
        weights.fill(0);
        weights[i] = 1;
        let mut stats = LoadBalancerStats::new(nb_workers as usize);
        stats.set_workers_weight(weights.to_vec()).unwrap();
        lb_state.stats = stats;
        let next_worker = weighted_workers(&lb_state, &workers).expect("should not fail");
        assert_eq!(workers[next_worker].config, workers[i].config);
    }

    let weights = [1u64, 0, 1, 0, 1];
    for _ in 0..nb_workers as usize {
        let mut stats = LoadBalancerStats::new(nb_workers as usize);
        stats.set_workers_weight(weights.to_vec()).unwrap();
        lb_state.stats = stats;
        let next_worker = weighted_workers(&lb_state, &workers).expect("should not fail");
        assert!(
            workers[next_worker].config == workers[0].config
                || workers[next_worker].config == workers[2].config
                || workers[next_worker].config == workers[4].config
        );
    }
}

#[test]
fn weights_beyond_the_workers_lead_to_an_error() {
    let lb_state = weighted_state(2, vec![0, 0, 0, 4]);
    let error = weighted_workers(&lb_state, &lb_state.workers).unwrap_err();
    assert_eq!(error.display(), "internal error: No workers in the config");

    let lb_state = weighted_state(2, vec![0, 3, 0, 0]);
    assert_eq!(weighted_workers(&lb_state, &lb_state.workers).unwrap(), 1);

    let nobody = LoadBalancerState::new(
        "127.0.0.1".to_owned(),
        vec![],
        BalancingStrategy::WeightedWorkersByErrors,
    );
    let error = weighted_workers(&nobody, &nobody.workers).unwrap_err();
    assert_eq!(error.display(), "internal error: No workers in the config");
}

#[test]
fn a_drawn_index_is_looked_up() {
    let workers = test_workers(2);
    assert_eq!(worker_at(&workers, 1).unwrap(), 1);
    assert_eq!(
        worker_at(&workers, 2).unwrap_err().display(),
        "internal error: No workers in the config"
    );
}

#[test]
fn pick_worker_goes_by_the_strategy() {
    let mut state =
        LoadBalancerState::new("lb".to_owned(), test_workers(3), BalancingStrategy::default());
    for i in 0..7 {
        assert!(state.can_pick());
        let picked = BalancingStrategy::pick_worker(&mut state).unwrap();
        assert!(matches!(picked, Pick::Worker(worker) if worker == i % 3));
    }
    assert!(matches!(state.strategy, BalancingStrategy::RoundRobin(7)));

    state.strategy = BalancingStrategy::LeastConnectionWithStatsFromWorkers;
    assert!(state.can_pick());
    let picked = BalancingStrategy::pick_worker(&mut state).unwrap();
    assert!(matches!(picked, Pick::AskWorkers));

    state.strategy = BalancingStrategy::LeastConnectionWithInternalStats;
    state.workers[0].stats.nb_requests_sent = 1;
    assert!(state.can_pick());
    let picked = BalancingStrategy::pick_worker(&mut state).unwrap();
    assert!(matches!(picked, Pick::Worker(1)));

    state.strategy = BalancingStrategy::WeightedWorkersByErrors;
    state.stats.set_workers_weight(vec![0, 0, 5]).unwrap();
    assert!(state.can_pick());
    let picked = BalancingStrategy::pick_worker(&mut state).unwrap();
    assert!(matches!(picked, Pick::Worker(2)));

    state.strategy = BalancingStrategy::Random;
    assert!(state.can_pick());
    let picked = BalancingStrategy::pick_worker(&mut state).unwrap();
    assert!(matches!(picked, Pick::Worker(worker) if worker < 3));
}

#[test]
fn some_picks_cannot_be_made() {
    let mut state =
        LoadBalancerState::new("lb".to_owned(), test_workers(2), BalancingStrategy::ResourceBased);
    assert!(!state.can_pick());
    state.strategy = BalancingStrategy::LeastConnectionWithInternalStats;
    assert!(state.can_pick());
    state.workers[1].stats.nb_requests_handled = 1;
    assert!(!state.can_pick());
    state.strategy = BalancingStrategy::Random;
    assert!(state.can_pick());

    let mut nobody =
        LoadBalancerState::new("lb".to_owned(), vec![], BalancingStrategy::RoundRobin(0));
    assert!(!nobody.can_pick());
    nobody.strategy = BalancingStrategy::Random;
    assert!(nobody.can_pick());
}

#[test]
fn strategies_compare_by_their_kind() {
    let strategies = BalancingStrategy::iter();
    assert_eq!(strategies.len(), 6);
    for (i, a) in strategies.iter().enumerate() {
        for (j, b) in strategies.iter().enumerate() {
            assert_eq!(a == b, i == j);
            assert_eq!(a.as_ref() == b.as_ref(), i == j);
        }
    }
    assert_eq!(
        BalancingStrategy::RoundRobin(3),
        BalancingStrategy::RoundRobin(8)
    );
    assert_eq!(
        BalancingStrategy::default(),
        BalancingStrategy::RoundRobin(0)
    );
}

#[test]
fn strategies_have_names() {
    let names: Vec<&str> = BalancingStrategy::iter()
        .iter()
        .map(|strategy| strategy.as_ref())
        .collect();
    assert_eq!(
        names,
        vec![
            "RoundRobin",
            "LeastConnectionWithStatsFromWorkers",
            "LeastConnectionWithInternalStats",
            "Random",
            "ResourceBased",
            "WeightedWorkersByErrors",
        ]
    );
}
