//! The error taxonomy of the runtime.
//!
//! Every fallible operation of the library reports one of these kinds.
//! Errors raised before the persistence step of a command execution are fully
//! recoverable (nothing was written); errors raised at or after it describe a
//! partial success (the events are durable even though a later step failed).

use vstd::prelude::*;

use crate::ids::AggregateId;

verus! {

/// An error reported by the event-sourced runtime.
#[derive(Clone, Debug)]
pub enum CqrsError {
    /// An event or snapshot payload could not be decoded as the type the
    /// caller expected.
    PayloadDeserialization,
    /// The event store failed to read or write.
    StoreOperation { aggregate_id: AggregateId, reason: String },
    /// An expected-versus-actual version mismatch was detected when events
    /// were appended; the caller should reload the aggregate and retry.
    Concurrency { aggregate_id: AggregateId, expected: u64, actual: u64 },
    /// No events or snapshot exist for this identity. Most callers treat
    /// this as "a new aggregate" rather than as a hard failure.
    AggregateNotFound(AggregateId),
    /// The command is inapplicable to the current state, or a command
    /// handler emitted an event tagged with a different aggregate identity.
    CommandValidation { aggregate_id: AggregateId, reason: String },
    /// The optional snapshot step failed after the events were already
    /// durably persisted.
    Snapshot(String),
    /// A follow-up command could not be submitted to the outbound channel.
    CommandDispatch(String),
    /// A wrapped lower-level error.
    Generic(String),
}

/// The mathematical content of a [`CqrsError`]: its kind together with the
/// identities and versions it reports. Human-readable reason strings carry
/// no meaning for the runtime's logic and are abstracted away.
pub enum ErrorV {
    PayloadDeserialization,
    StoreOperation { aggregate_id: AggregateId },
    Concurrency { aggregate_id: AggregateId, expected: u64, actual: u64 },
    AggregateNotFound { aggregate_id: AggregateId },
    CommandValidation { aggregate_id: AggregateId },
    Snapshot,
    CommandDispatch,
    Generic,
}

impl View for CqrsError {
    type V = ErrorV;

    open spec fn view(&self) -> ErrorV {
        match self {
            CqrsError::PayloadDeserialization => ErrorV::PayloadDeserialization,
            CqrsError::StoreOperation { aggregate_id, .. } => ErrorV::StoreOperation {
                aggregate_id: *aggregate_id,
            },
            CqrsError::Concurrency { aggregate_id, expected, actual } => ErrorV::Concurrency {
                aggregate_id: *aggregate_id,
                expected: *expected,
                actual: *actual,
            },
            CqrsError::AggregateNotFound(aggregate_id) => ErrorV::AggregateNotFound {
                aggregate_id: *aggregate_id,
            },
            CqrsError::CommandValidation { aggregate_id, .. } => ErrorV::CommandValidation {
                aggregate_id: *aggregate_id,
            },
            CqrsError::Snapshot(..) => ErrorV::Snapshot,
            CqrsError::CommandDispatch(..) => ErrorV::CommandDispatch,
            CqrsError::Generic(..) => ErrorV::Generic,
        }
    }
}

impl CqrsError {
    /// A short description of the error's kind, for reporting.
    pub fn kind_name(&self) -> (r: String)
        ensures
            r@ == self.spec_kind_name(),
    {
        match self {
            CqrsError::PayloadDeserialization => "payload deserialization failed".to_owned(),
            CqrsError::StoreOperation { .. } => "event store operation failed".to_owned(),
            CqrsError::Concurrency { .. } => "concurrency conflict".to_owned(),
            CqrsError::AggregateNotFound(..) => "aggregate not found".to_owned(),
            CqrsError::CommandValidation { .. } => "command validation failed".to_owned(),
            CqrsError::Snapshot(..) => "snapshot operation failed".to_owned(),
            CqrsError::CommandDispatch(..) => "command dispatch failed".to_owned(),
            CqrsError::Generic(..) => "generic error".to_owned(),
        }
    }

    /// The description returned by [`CqrsError::kind_name`].
    pub open spec fn spec_kind_name(&self) -> Seq<char> {
        match self {
            CqrsError::PayloadDeserialization => "payload deserialization failed"@,
            CqrsError::StoreOperation { .. } => "event store operation failed"@,
            CqrsError::Concurrency { .. } => "concurrency conflict"@,
            CqrsError::AggregateNotFound(..) => "aggregate not found"@,
            CqrsError::CommandValidation { .. } => "command validation failed"@,
            CqrsError::Snapshot(..) => "snapshot operation failed"@,
            CqrsError::CommandDispatch(..) => "command dispatch failed"@,
            CqrsError::Generic(..) => "generic error"@,
        }
    }
}

} // verus!
