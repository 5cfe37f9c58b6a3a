//! Core of a latency/throughput benchmark harness for a publish-subscribe
//! streaming platform.
//!
//! The library holds the verified orchestration logic: start synchronization
//! between producer and consumer, rate-paced submission, warmup suppression,
//! sample routing, and statistical aggregation. Latencies are carried as
//! integer microseconds, which is a fixed-point representation of
//! milliseconds with three decimal places; all conversions are documented at
//! their single point of definition.
//!
//! Calls into the streaming client, file and network I/O, thread plumbing and
//! serialization live outside the library and drive it through the state
//! machines and pure functions defined here.

pub mod channel;
pub mod config;
pub mod consumer;
pub mod event;
pub mod gate;
pub mod hist;
pub mod producer;
pub mod result;
pub mod stats;
pub mod text;
