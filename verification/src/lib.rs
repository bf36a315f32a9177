//! A write-path benchmark core for an embedded persistent key-value store.
//!
//! The library drives a matrix of benchmark configurations (record size,
//! direct-I/O mode, durability mode) against a storage engine, times every
//! write, and aggregates the collected samples into throughput, write-rate
//! and tail-latency statistics.

pub mod chunks;
pub mod clock;
pub mod config;
pub mod errors;
pub mod run;
pub mod stats;
pub mod workload;
