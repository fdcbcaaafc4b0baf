//! Reliable delivery core of a log-forwarding agent.
//!
//! The agent tails local log sources and ships batches of log lines to a
//! remote ingestion endpoint. This crate holds the delivery subsystem: the
//! admission limiter that bounds concurrent outbound attempts, the retry
//! engine that holds batches whose transport attempt failed, the offset store
//! that tracks attempted and durably confirmed read positions per source, and
//! the orchestrator that composes them around an injected transport.
//!
//! All I/O (the HTTP transport, the durable offset backend, the retry
//! directory, clocks) lives outside this crate; callers perform it and feed
//! the results back in as plain values.

pub mod batch;
pub mod client;
pub mod codec;
pub mod config;
pub mod limiter;
pub mod offset_store;
pub mod retry;
