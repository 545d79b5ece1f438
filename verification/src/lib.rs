//! A verified core for a batch-and-sync ingestion pipeline.
//!
//! Items submitted by users are stored as resources, optionally grouped into
//! per-user batches, and propagated to a remote document store through a
//! durable outbox of retryable tasks. The library models the entity store
//! in memory and proves the state-machine, sequencing, enqueueing and
//! backoff rules; the surrounding process supplies the I/O.

pub mod backoff;
pub mod config;
pub mod ingest;
pub mod media;
pub mod model;
pub mod notion;
pub mod outbox;
pub mod store;
pub mod text;
