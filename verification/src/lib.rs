//! An event-sourced write model for a bank-account domain: a pure aggregate
//! state machine driven by commands and events, a durable append-log
//! contract with per-stream monotonic versions and optimistic concurrency,
//! the command use case that binds the two and publishes committed events,
//! and the snapshotter and projector that consume them.

pub mod aggregate;
pub mod clock;
pub mod codec;
pub mod dao;
pub mod eventsourcing;
pub mod inmemory_eventstore;
pub mod projector;
pub mod snapshotter;
pub mod usecase;
mod text;
