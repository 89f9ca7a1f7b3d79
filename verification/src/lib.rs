//! A small library for building applications in the Command-Query
//! Responsibility Segregation (CQRS) and event-sourcing style.
//!
//! The library defines the contracts an embedding application implements —
//! aggregates, commands, event and snapshot stores, event consumers, queries —
//! and the orchestration that turns a command into persisted, versioned,
//! fanned-out events. Every contract carries a formal specification, and the
//! orchestration is verified against those specifications.

pub mod aggregate;
pub mod codec;
pub mod command;
pub mod consumer;
pub mod counter;
pub mod cqrs;
pub mod error;
pub mod events;
pub mod game;
pub mod ids;
pub mod memory;
pub mod query;
pub mod repository;

pub use aggregate::manager::AggregateManager;
pub use aggregate::manager::SimpleAggregateManager;
pub use aggregate::manager::SnapshotAggregateManager;
pub use aggregate::snapshot::AggregateSnapshot;
pub use aggregate::snapshot::SnapshotStore;
pub use aggregate::Aggregate;
pub use command::Command;
pub use consumer::ConsumerGroup;
pub use consumer::EventConsumer;
pub use consumer::EventConsumersGroup;
pub use cqrs::Cqrs;
pub use error::CqrsError;
pub use events::Event;
pub use events::EventPayload;
pub use events::EventStore;
pub use ids::fresh_aggregate_id;
pub use ids::AggregateId;
pub use query::ModelReader;
pub use query::QueriesRunner;
pub use query::Query;
pub use repository::Repository;
