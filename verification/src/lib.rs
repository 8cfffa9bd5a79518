//! Core logic of a minimal host-metrics dashboard: a sampler reads per-core
//! CPU utilization at a bounded rate, a broadcast hub fans each snapshot out
//! to any number of subscribed sessions (keeping at most one pending snapshot
//! per subscriber, newest wins), and each session serializes snapshots to a
//! textual wire message for one push-channel client.

pub mod assets;
pub mod codec;
pub mod hub;
pub mod routes;
pub mod sampler;
pub mod session;
pub mod snapshot;
