//! Snapshots: cached full materializations of aggregate state.
//!
//! A snapshot pairs an aggregate identity with an opaque serialized copy of
//! the full aggregate state and the version of the last event applied to
//! produce that state. Snapshots are an optional read optimization: loading
//! one skips replaying the events up to its version.

use vstd::prelude::*;

use crate::aggregate::Aggregate;
use crate::error::CqrsError;
use crate::ids::AggregateId;

verus! {

/// The mathematical content of a snapshot: the identity, the encoded state,
/// and the version it captures.
pub struct SnapshotV {
    /// The identity of the aggregate.
    pub aggregate_id: AggregateId,
    /// The encoded full state.
    pub payload: Seq<u8>,
    /// The version of the last event applied to produce the state.
    pub version: u64,
}

/// A snapshot of an aggregate's state at a specific version.
#[derive(Debug)]
pub struct AggregateSnapshot<T: Aggregate> {
    /// The identity of the aggregate.
    pub aggregate_id: AggregateId,
    /// The encoded full state. Written only by [`AggregateSnapshot::new`];
    /// read back through [`AggregateSnapshot::get_payload`].
    pub payload: Vec<u8>,
    /// The version of the aggregate state at the time of the snapshot.
    pub version: u64,
    /// Ties the snapshot to the aggregate type its payload encodes.
    pub marker: core::marker::PhantomData<T>,
}

impl<T: Aggregate> View for AggregateSnapshot<T> {
    type V = SnapshotV;

    open spec fn view(&self) -> SnapshotV {
        SnapshotV { aggregate_id: self.aggregate_id, payload: self.payload@, version: self.version }
    }
}

impl<T: Aggregate> Clone for AggregateSnapshot<T> {
    fn clone(&self) -> (r: Self)
        ensures
            r@ == self@,
    {
        AggregateSnapshot {
            aggregate_id: self.aggregate_id,
            payload: self.payload.clone(),
            version: self.version,
            marker: core::marker::PhantomData,
        }
    }
}

impl<T: Aggregate> AggregateSnapshot<T> {
    /// Captures a snapshot of `aggregate`, at the given version (1 when none
    /// is given).
    pub fn new(aggregate: &T, version: Option<u64>) -> (r: Self)
        ensures
            r@ == (SnapshotV {
                aggregate_id: aggregate.sp_id(),
                payload: aggregate.sp_encode_state(),
                version: (match version {
                    Some(v) => v,
                    None => 1u64,
                }),
            }),
    {
        let version: u64 = match version {
            Some(v) => v,
            None => 1,
        };
        AggregateSnapshot {
            aggregate_id: aggregate.aggregate_id(),
            payload: aggregate.encode_state(),
            version,
            marker: core::marker::PhantomData,
        }
    }

    /// Decodes the captured state back into the aggregate type.
    ///
    /// Fails with [`CqrsError::PayloadDeserialization`] exactly when the
    /// payload bytes are not an encoding of a `T` state.
    pub fn get_payload(&self) -> (r: Result<T, CqrsError>)
        ensures
            match r {
                Ok(a) => T::sp_decode_state(self@.payload) == Some(a),
                Err(e) => T::sp_decode_state(self@.payload) is None && e@
                    is PayloadDeserialization,
            },
    {
        match T::decode_state(self.payload.as_slice()) {
            Some(a) => Ok(a),
            None => Err(CqrsError::PayloadDeserialization),
        }
    }
}

/// The contract of a snapshot store: keeps the most recent snapshot of each
/// aggregate identity.
pub trait SnapshotStore<A: Aggregate>: Sized {
    /// Whether this implementation is free of backend failures: saving
    /// always succeeds, and a read fails exactly when the identity has no
    /// snapshot. The in-process store obeys this; a store over fallible I/O
    /// does not.
    spec fn obeys_snapshot_spec() -> bool;

    /// The stored snapshot of `aggregate_id`, if there is one.
    spec fn sp_snapshot(&self, aggregate_id: AggregateId) -> Option<SnapshotV>;

    /// Saves `snapshot`, overwriting any prior snapshot of the same
    /// identity; every other identity is untouched. On failure the store is
    /// unchanged.
    fn save_snapshot(&mut self, snapshot: AggregateSnapshot<A>) -> (r: Result<(), CqrsError>)
        ensures
            r is Ok ==> {
                &&& final(self).sp_snapshot(snapshot@.aggregate_id) == Some(snapshot@)
                &&& forall|other: AggregateId|
                    other != snapshot@.aggregate_id ==> #[trigger] final(self).sp_snapshot(other)
                        == old(self).sp_snapshot(other)
            },
            r matches Err(e) ==> *final(self) == *old(self) && e@ is Snapshot,
            Self::obeys_snapshot_spec() ==> r is Ok,
    ;

    /// Loads the most recent snapshot of `aggregate_id`.
    ///
    /// An identity without a snapshot is reported as
    /// [`CqrsError::AggregateNotFound`]; callers fall back to replay or to
    /// default state, never propagate it as a fatal error.
    fn load_snapshot(&self, aggregate_id: AggregateId) -> (r: Result<
        AggregateSnapshot<A>,
        CqrsError,
    >)
        ensures
            r matches Ok(s) ==> self.sp_snapshot(aggregate_id) == Some(s@),
            r matches Err(e) ==> {
                &&& (e@ is AggregateNotFound || e@ is Snapshot)
                &&& (e@ is AggregateNotFound ==> self.sp_snapshot(aggregate_id) is None)
            },
            Self::obeys_snapshot_spec() ==> {
                &&& (r is Ok <==> self.sp_snapshot(aggregate_id) is Some)
                &&& (r matches Err(e) ==> e@ is AggregateNotFound)
            },
    ;
}

} // verus!
