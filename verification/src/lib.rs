//! A recursive, caching DNS resolver core.
//!
//! The crate holds the decision logic of the resolver: the iterative
//! resolution state machine (root, TLD, authoritative), the TTL cache with
//! prefetch, the query handler that turns an inbound request into a response,
//! and the supervisory control plane (heartbeat monitor, restart policy,
//! cooperative cancellation). Wire I/O, the DNS codec, and the async runtime
//! live outside the crate and hand plain values in and out.

pub mod types;
pub mod name;
pub mod cache;
pub mod resolver;
pub mod handler;
pub mod control;
pub mod roots;
