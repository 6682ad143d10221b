# Load balancer

A load balancer whose rules are verified with Verus.

Incoming requests are spread over a list of worker servers by one of several
strategies, which can be changed while the load balancer runs:

- `RoundRobin`: the workers in turn.
- `Random`: any worker.
- `LeastConnectionWithInternalStats`: the worker with the least open requests, as
  the load balancer has counted them.
- `LeastConnectionWithStatsFromWorkers`: the worker with the least open requests,
  as the workers report them.
- `WeightedWorkersByErrors`: a worker drawn by weights that follow from the errors
  of the workers.
- `ResourceBased`: not available; no request can be placed with it.

## Layout

- `src/worker.rs`: the worker, its counters and its answers.
- `src/load_balancer/balancing_strategy.rs`: how each strategy picks a worker.
- `src/load_balancer/metrics.rs`: the statistics and the weights.
- `src/load_balancer/server.rs`: the state of the load balancer and the course of
  a request through it, one event at a time.
- `src/load_balancer/model.rs` and `src/load_balancer/system.rs`: the load balancer
  as the contracts see it, and the laws that hold of it.
- `src/tracing.rs`: how grave the end of a request is.
- `src/outside.rs`: the calls into `rand` and `http`, which are trusted.
- `app/`: the servers themselves, on `axum`, `hyper` and `reqwest`. They keep the
  states of the library behind a lock.
