//! A load balancer: the rules by which incoming requests are spread over a
//! list of worker servers, and the statistics that are kept on the way.
//!
//! The states are plain values. Whoever serves several requests at once keeps
//! them behind a lock and takes each step of a request under it.

pub mod load_balancer;
pub mod outside;
pub mod tracing;
pub mod worker;
