//! Aggregate managers: how the current aggregate state is materialized and
//! how it is persisted back.
//!
//! A manager decouples the orchestrator from the storage strategy. The
//! replay-only variant rebuilds state from the full event history and
//! persists nothing; the snapshot-based variant restores state from the most
//! recent snapshot and captures a new snapshot after every successful
//! command.

use vstd::prelude::*;

use crate::aggregate::snapshot::AggregateSnapshot;
use crate::aggregate::snapshot::SnapshotStore;
use crate::aggregate::snapshot::SnapshotV;
use crate::aggregate::apply_events;
use crate::aggregate::sp_apply_events;
use crate::aggregate::Aggregate;
use crate::error::CqrsError;
use crate::events::views;
use crate::events::Event;
use crate::events::EventStore;
use crate::events::EventV;
use crate::ids::AggregateId;

verus! {

/// The contract of an aggregate manager.
///
/// `load` materializes the current state of one aggregate, reading the given
/// event store or the manager's own snapshot storage; it never mutates
/// anything. `store` persists the state back — a no-op for the replay-only
/// variant, a snapshot write for the snapshot-based one.
pub trait AggregateManager<A: Aggregate, ES: EventStore>: Sized {
    /// Whether this manager, over the storage it reads and writes, is free
    /// of backend failures: loading succeeds whenever the materialization is
    /// defined, and persisting always succeeds. The replay-only manager
    /// obeys this over an obeying event store; the snapshot-based one over
    /// an obeying snapshot store.
    spec fn obeys_manager_spec() -> bool;

    /// The state `load` materializes when the event store holds `events`
    /// for `aggregate_id`; `None` when a stored payload fails to decode.
    spec fn sp_load(&self, events: Seq<EventV>, aggregate_id: AggregateId) -> Option<A>;

    /// How a manager that persisted `aggregate` at `version` relates to the
    /// manager before the call.
    spec fn sp_stored(&self, post: Self, aggregate: A, version: u64) -> bool;

    /// Materializes the current state of `aggregate_id`; mutates nothing.
    fn load(&self, event_store: &ES, aggregate_id: AggregateId) -> (r: Result<A, CqrsError>)
        ensures
            r matches Ok(a) ==> self.sp_load(
                event_store.sp_events_for(aggregate_id),
                aggregate_id,
            ) == Some(a),
            r matches Err(e) ==> (e@ is PayloadDeserialization || e@ is StoreOperation || e@
                is Snapshot),
            self.sp_load(event_store.sp_events_for(aggregate_id), aggregate_id) is None ==> r
                is Err,
            Self::obeys_manager_spec() && self.sp_load(
                event_store.sp_events_for(aggregate_id),
                aggregate_id,
            ) is Some ==> r is Ok,
    ;

    /// Persists `aggregate`, whose state reflects all events up to
    /// `version`. Safe to call repeatedly; mutates nothing but the manager's
    /// own documented storage.
    fn store(&mut self, aggregate: &A, version: u64) -> (r: Result<(), CqrsError>)
        ensures
            r is Ok ==> old(self).sp_stored(*final(self), *aggregate, version),
            r matches Err(e) ==> *final(self) == *old(self) && e@ is Snapshot,
            Self::obeys_manager_spec() ==> r is Ok,
    ;
}

/// The replay-only aggregate manager: `load` rebuilds the state by applying
/// the full event history to a fresh instance, and `store` is a no-op — the
/// event log itself is the source of truth.
#[derive(Clone, Copy, Debug)]
pub struct SimpleAggregateManager;

impl SimpleAggregateManager {
    /// Creates a replay-only manager. It reads through the orchestrator's
    /// event store and holds no storage of its own.
    pub fn new() -> (r: Self)
        ensures
            r == SimpleAggregateManager,
    {
        SimpleAggregateManager
    }
}

impl<A: Aggregate, ES: EventStore> AggregateManager<A, ES> for SimpleAggregateManager {
    open spec fn obeys_manager_spec() -> bool {
        ES::obeys_store_spec()
    }

    open spec fn sp_load(&self, events: Seq<EventV>, aggregate_id: AggregateId) -> Option<A> {
        sp_apply_events(A::sp_fresh().sp_with_id(aggregate_id), events)
    }

    open spec fn sp_stored(&self, post: Self, aggregate: A, version: u64) -> bool {
        post == *self
    }

    fn load(&self, event_store: &ES, aggregate_id: AggregateId) -> (r: Result<A, CqrsError>) {
        let events: Vec<Event> = match event_store.load_events(aggregate_id) {
            Ok(events) => events,
            Err(e) => {
                match e {
                    CqrsError::AggregateNotFound(..) => Vec::new(),
                    _ => {
                        return Err(e);
                    },
                }
            },
        };
        proof {
            event_store.lemma_absent_is_empty(aggregate_id);
            assert(views(events@) =~= event_store.sp_events_for(aggregate_id));
        }
        let mut aggregate = A::fresh();
        aggregate.set_aggregate_id(aggregate_id);
        match apply_events(&mut aggregate, &events) {
            Ok(()) => Ok(aggregate),
            Err(e) => Err(e),
        }
    }

    fn store(&mut self, aggregate: &A, version: u64) -> (r: Result<(), CqrsError>) {
        Ok(())
    }
}

/// The snapshot-based aggregate manager: `load` restores the state from the
/// most recent snapshot, falling back to a fresh instance when none exists
/// or when the stored payload does not decode, and `store` captures a new
/// snapshot of the post-command state.
///
/// The fallback goes to a fresh default instance, not to full replay: an
/// aggregate with history but no snapshot yet loads as empty. Combine this
/// manager with a snapshot after every command (as the orchestrator does) so
/// that no history is lost. One failure does surface rather than fall back:
/// a snapshot backend whose read itself fails. Falling back there would
/// leave the loaded state unpinned — the caller could not know whether it
/// got the captured state or a fresh one — so a backend read failure aborts
/// the load, as any store failure aborts the operation it is part of. A
/// backend that obeys its specification never fails that way.
#[derive(Clone, Debug)]
pub struct SnapshotAggregateManager<SS> {
    snapshot_store: SS,
}

impl<SS> SnapshotAggregateManager<SS> {
    /// Creates a snapshot-based manager around `snapshot_store`.
    pub fn new(snapshot_store: SS) -> (r: Self)
        ensures
            r.sp_store_value() == snapshot_store,
    {
        SnapshotAggregateManager { snapshot_store }
    }

    /// The manager's snapshot store.
    pub closed spec fn sp_store_value(&self) -> SS {
        self.snapshot_store
    }
}

impl<SS> SnapshotAggregateManager<SS> {
    /// The snapshot the manager's store holds for `aggregate_id`.
    pub open spec fn sp_snapshot_of<A: Aggregate>(&self, aggregate_id: AggregateId) -> Option<
        SnapshotV,
    > where SS: SnapshotStore<A> {
        self.sp_store_value().sp_snapshot(aggregate_id)
    }
}

impl<A: Aggregate, ES: EventStore, SS: SnapshotStore<A>> AggregateManager<A, ES>
    for SnapshotAggregateManager<SS> {
    open spec fn obeys_manager_spec() -> bool {
        SS::obeys_snapshot_spec()
    }

    open spec fn sp_load(&self, events: Seq<EventV>, aggregate_id: AggregateId) -> Option<A> {
        match self.sp_store_value().sp_snapshot(aggregate_id) {
            Some(s) => match A::sp_decode_state(s.payload) {
                Some(state) => Some(state),
                None => Some(A::sp_fresh().sp_with_id(aggregate_id)),
            },
            None => Some(A::sp_fresh().sp_with_id(aggregate_id)),
        }
    }

    open spec fn sp_stored(&self, post: Self, aggregate: A, version: u64) -> bool {
        &&& post.sp_store_value().sp_snapshot(aggregate.sp_id()) == Some(
            SnapshotV {
                aggregate_id: aggregate.sp_id(),
                payload: aggregate.sp_encode_state(),
                version,
            },
        )
        &&& forall|other: AggregateId|
            other != aggregate.sp_id() ==> #[trigger] post.sp_store_value().sp_snapshot(other)
                == self.sp_store_value().sp_snapshot(other)
    }

    fn load(&self, event_store: &ES, aggregate_id: AggregateId) -> (r: Result<A, CqrsError>) {
        match self.snapshot_store.load_snapshot(aggregate_id) {
            Ok(snapshot) => {
                match snapshot.get_payload() {
                    Ok(aggregate) => Ok(aggregate),
                    Err(_) => {
                        // A snapshot that fails to decode, like a missing
                        // one, falls back to a fresh instance; the snapshot
                        // layer never loses a command to a stale capture.
                        let mut aggregate = A::fresh();
                        aggregate.set_aggregate_id(aggregate_id);
                        Ok(aggregate)
                    },
                }
            },
            Err(e) => {
                match e {
                    CqrsError::AggregateNotFound(..) => {
                        let mut aggregate = A::fresh();
                        aggregate.set_aggregate_id(aggregate_id);
                        Ok(aggregate)
                    },
                    _ => Err(e),
                }
            },
        }
    }

    fn store(&mut self, aggregate: &A, version: u64) -> (r: Result<(), CqrsError>) {
        let snapshot = AggregateSnapshot::new(aggregate, Some(version));
        match self.snapshot_store.save_snapshot(snapshot) {
            Ok(()) => Ok(()),
            Err(e) => Err(e),
        }
    }
}

/// Snapshot/replay equivalence: when the stored snapshot of an aggregate
/// captures exactly the state that replaying its event history produces,
/// the snapshot-based manager and the replay-only manager materialize equal
/// states for it. (Without a snapshot, or with a stale one, the two differ:
/// the snapshot-based manager does not consult the event history.)
pub proof fn lemma_snapshot_replay_equivalence<A: Aggregate, ES: EventStore, SS: SnapshotStore<A>>(
    replay_manager: SimpleAggregateManager,
    snapshot_manager: SnapshotAggregateManager<SS>,
    events: Seq<EventV>,
    aggregate_id: AggregateId,
)
    requires
        snapshot_manager.sp_snapshot_of::<A>(aggregate_id) matches Some(s) && A::sp_decode_state(
            s.payload,
        ) is Some && A::sp_decode_state(s.payload) == sp_apply_events(
            A::sp_fresh().sp_with_id(aggregate_id),
            events,
        ),
    ensures
        AggregateManager::<A, ES>::sp_load(&snapshot_manager, events, aggregate_id)
            == AggregateManager::<A, ES>::sp_load(&replay_manager, events, aggregate_id),
{
}

} // verus!
