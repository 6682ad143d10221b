//! The load balancer: how a worker is picked for a request, what is counted,
//! and what a client is answered.

pub mod balancing_strategy;
pub mod laws;
pub mod metrics;
pub mod model;
pub mod server;
pub mod system;
