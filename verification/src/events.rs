//! The event envelope, the event payload contract, and the event store
//! contract.
//!
//! An event is the unit of persistence: an immutable record of a state change
//! that already happened. The envelope decouples storage from the concrete
//! domain event: the payload travels as bytes together with a human-readable
//! type discriminator, and is decoded into the strongly-typed domain event
//! only at the point an aggregate or a consumer needs it.

use vstd::prelude::*;

use crate::error::CqrsError;
use crate::error::ErrorV;
use crate::ids::AggregateId;

verus! {

/// The mathematical content of an event envelope: every field the runtime's
/// logic depends on. The envelope additionally carries a random occurrence
/// identifier and a wall-clock timestamp; both are opaque metadata and no
/// contract speaks of them.
pub struct EventV {
    /// The payload's symbolic name, a human-readable discriminator.
    pub event_type: Seq<char>,
    /// The identity of the owning aggregate.
    pub aggregate_id: AggregateId,
    /// The encoded payload.
    pub payload: Seq<u8>,
    /// The per-aggregate sequence number of this event.
    pub version: u64,
}

/// A change to the state of an aggregate, in its storage representation.
///
/// Envelopes are created by [`Event::new`] from an event payload, are
/// immutable once persisted, and give the concrete domain event back through
/// [`Event::get_payload`].
#[derive(Debug)]
pub struct Event {
    /// A globally unique identifier of this occurrence.
    pub id: String,
    /// The symbolic name of the payload variant.
    pub event_type: String,
    /// The identity of the aggregate that the event belongs to.
    pub aggregate_id: AggregateId,
    /// The encoded payload. Written only by [`Event::new`]; read back as a
    /// domain event through [`Event::get_payload`].
    pub payload: Vec<u8>,
    /// The per-aggregate sequence number: strictly increasing and gapless,
    /// starting at 1.
    pub version: u64,
    /// Wall-clock milliseconds at which the envelope was created.
    pub timestamp: i64,
}

impl View for Event {
    type V = EventV;

    open spec fn view(&self) -> EventV {
        EventV {
            event_type: self.event_type@,
            aggregate_id: self.aggregate_id,
            payload: self.payload@,
            version: self.version,
        }
    }
}

impl Clone for Event {
    fn clone(&self) -> (r: Self)
        ensures
            r@ == self@,
    {
        Event {
            id: self.id.clone(),
            event_type: self.event_type.clone(),
            aggregate_id: self.aggregate_id,
            payload: self.payload.clone(),
            version: self.version,
            timestamp: self.timestamp,
        }
    }
}

/// The views of a sequence of envelopes, in order.
pub open spec fn views(events: Seq<Event>) -> Seq<EventV> {
    events.map_values(|e: Event| e@)
}

/// Holds when the versions of `events` continue gaplessly from `base`:
/// the i-th event carries version `base + i + 1`.
pub open spec fn continues_from(events: Seq<EventV>, base: int) -> bool {
    forall|i: int| 0 <= i < events.len() ==> (#[trigger] events[i]).version == base + i + 1
}

/// Holds when the versions of `events` are exactly `1..=events.len()`,
/// with no gaps and no repeats.
pub open spec fn versions_gapless(events: Seq<EventV>) -> bool {
    continues_from(events, 0)
}

/// Version monotonicity is preserved by appending: a batch whose versions
/// continue a gapless history gaplessly leaves the whole history gapless —
/// the stored versions are exactly `1..=N` before and after.
pub proof fn lemma_gapless_extension(history: Seq<EventV>, batch: Seq<EventV>)
    requires
        versions_gapless(history),
        continues_from(batch, history.len() as int),
    ensures
        versions_gapless(history + batch),
{
    let whole = history + batch;
    assert forall|i: int| 0 <= i < whole.len() implies (#[trigger] whole[i]).version == i + 1 by {
        if i < history.len() {
            assert(whole[i] == history[i]);
        } else {
            assert(whole[i] == batch[i - history.len()]);
        }
    }
}

/// The version of the last event of `events`, or 0 when there is none.
pub open spec fn last_version(events: Seq<EventV>) -> u64 {
    if events.len() == 0 {
        0u64
    } else {
        events[events.len() - 1].version
    }
}

/// In a gapless history the version of the last event is the length of the
/// history.
pub proof fn lemma_gapless_last_version(events: Seq<EventV>)
    requires
        versions_gapless(events),
    ensures
        last_version(events) == events.len(),
{
}

/// Relies on `uuid::Uuid::new_v4` and its `Display` implementation: a fresh
/// random identifier for one event occurrence. Nothing is promised of a
/// random value.
#[verifier::external_body]
fn fresh_event_id() -> String {
    uuid::Uuid::new_v4().to_string()
}

/// Relies on `chrono::Utc::now` and `chrono::DateTime::timestamp_millis`:
/// the current wall-clock time in milliseconds. Nothing is promised of a
/// clock reading.
#[verifier::external_body]
fn now_millis() -> i64 {
    chrono::Utc::now().timestamp_millis()
}

/// The envelope that [`Event::new`] builds for `payload` with version `1`.
pub open spec fn sp_event_of<T: EventPayload>(payload: T) -> EventV {
    EventV {
        event_type: payload.sp_name(),
        aggregate_id: payload.sp_aggregate_id(),
        payload: payload.sp_encode(),
        version: 1u64,
    }
}

impl Event {
    /// Creates a new envelope around `payload`, carrying the given version
    /// (1 when none is given), a fresh occurrence identifier and the current
    /// timestamp.
    pub fn new<T: EventPayload>(payload: T, version: Option<u64>) -> (r: Event)
        ensures
            r@ == (EventV {
                version: (match version {
                    Some(v) => v,
                    None => 1u64,
                }),
                ..sp_event_of(payload)
            }),
    {
        let version: u64 = match version {
            Some(v) => v,
            None => 1,
        };
        Event {
            id: fresh_event_id(),
            event_type: payload.name(),
            aggregate_id: payload.aggregate_id(),
            payload: payload.encode(),
            version,
            timestamp: now_millis(),
        }
    }

    /// Decodes the payload back into the concrete domain event.
    ///
    /// Fails with [`CqrsError::PayloadDeserialization`] exactly when the
    /// payload bytes are not an encoding of a `T` value.
    pub fn get_payload<T: EventPayload>(&self) -> (r: Result<T, CqrsError>)
        ensures
            match r {
                Ok(p) => T::sp_decode(self@.payload) == Some(p),
                Err(e) => T::sp_decode(self@.payload) is None && e@ is PayloadDeserialization,
            },
    {
        match T::decode(self.payload.as_slice()) {
            Some(p) => Ok(p),
            None => Err(CqrsError::PayloadDeserialization),
        }
    }

    /// Replaces the envelope's version; every other part of its content is
    /// kept.
    pub fn set_version(&mut self, version: u64)
        ensures
            final(self)@ == (EventV { version, ..old(self)@ }),
    {
        self.version = version;
    }
}

/// The contract of an event payload: the change a domain event made to the
/// state of an aggregate.
///
/// A payload knows which aggregate it belongs to, carries a symbolic name
/// used as a human-readable discriminator, and round-trips through its byte
/// encoding: decoding an encoded payload yields the payload back.
pub trait EventPayload: Sized + Clone {
    /// The identity of the aggregate this payload belongs to.
    spec fn sp_aggregate_id(&self) -> AggregateId;

    /// The payload's symbolic name.
    spec fn sp_name(&self) -> Seq<char>;

    /// The payload's byte encoding.
    spec fn sp_encode(&self) -> Seq<u8>;

    /// The payload, if any, that `bytes` is the encoding of.
    spec fn sp_decode(bytes: Seq<u8>) -> Option<Self>;

    /// Gets the identity of the aggregate this payload belongs to.
    fn aggregate_id(&self) -> (r: AggregateId)
        ensures
            r == self.sp_aggregate_id(),
    ;

    /// Gets the payload's symbolic name.
    fn name(&self) -> (r: String)
        ensures
            r@ == self.sp_name(),
    ;

    /// Encodes the payload into bytes.
    fn encode(&self) -> (r: Vec<u8>)
        ensures
            r@ == self.sp_encode(),
    ;

    /// Decodes a payload from bytes; `None` when `bytes` is not an encoding
    /// of any payload of this type.
    fn decode(bytes: &[u8]) -> (r: Option<Self>)
        ensures
            r == Self::sp_decode(bytes@),
    ;

    /// The round-trip law: decoding an encoded payload gives the payload
    /// back. Every implementation proves it.
    proof fn lemma_decode_encode(&self)
        ensures
            Self::sp_decode(self.sp_encode()) == Some(*self),
    ;
}

/// The contract of an event store: a durable, append-only log of envelopes,
/// keyed by aggregate identity.
///
/// The store enforces the optimistic-concurrency rule: an appended batch must
/// continue the stored versions gaplessly, and a batch that does not is
/// rejected with a [`CqrsError::Concurrency`] error, so that version
/// monotonicity survives racing writers.
pub trait EventStore: Sized {
    /// Whether this implementation is free of backend failures: it refuses
    /// an append exactly when the versions do not continue, and a read fails
    /// exactly when the identity is unknown. The in-process store obeys
    /// this; a store over fallible I/O does not, and its reads and writes
    /// may fail at any time.
    spec fn obeys_store_spec() -> bool;

    /// Whether any events were ever saved under `aggregate_id`.
    spec fn sp_has(&self, aggregate_id: AggregateId) -> bool;

    /// The stored events of `aggregate_id`, in arrival order; empty when the
    /// identity is unknown.
    spec fn sp_events_for(&self, aggregate_id: AggregateId) -> Seq<EventV>;

    /// An identity without stored events has an empty event sequence.
    proof fn lemma_absent_is_empty(&self, aggregate_id: AggregateId)
        ensures
            !self.sp_has(aggregate_id) ==> self.sp_events_for(aggregate_id).len() == 0,
    ;

    /// Appends `events` under `aggregate_id`, preserving arrival order.
    ///
    /// On success the stored sequence was extended by exactly `events`, whose
    /// versions continue gaplessly from what was stored; every other identity
    /// is untouched. On failure the store is unchanged; a batch whose
    /// versions do not continue the stored ones is refused with a
    /// `Concurrency` error.
    fn save_events(&mut self, aggregate_id: AggregateId, events: &Vec<Event>) -> (r: Result<
        (),
        CqrsError,
    >)
        requires
            forall|i: int|
                0 <= i < events@.len() ==> (#[trigger] events@[i]).aggregate_id == aggregate_id,
        ensures
            r is Ok ==> {
                &&& continues_from(
                    views(events@),
                    old(self).sp_events_for(aggregate_id).len() as int,
                )
                &&& final(self).sp_events_for(aggregate_id) == old(self).sp_events_for(
                    aggregate_id,
                ) + views(events@)
                &&& final(self).sp_has(aggregate_id)
                &&& forall|other: AggregateId|
                    other != aggregate_id ==> #[trigger] final(self).sp_events_for(other) == old(
                        self,
                    ).sp_events_for(other)
                &&& forall|other: AggregateId|
                    other != aggregate_id ==> #[trigger] final(self).sp_has(other) == old(
                        self,
                    ).sp_has(other)
            },
            r matches Err(e) ==> {
                &&& *final(self) == *old(self)
                &&& (e@ is StoreOperation || e@ is Concurrency)
            },
            !continues_from(views(events@), old(self).sp_events_for(aggregate_id).len() as int)
                ==> (r matches Err(e) && e@ is Concurrency),
            Self::obeys_store_spec() && continues_from(
                views(events@),
                old(self).sp_events_for(aggregate_id).len() as int,
            ) ==> r is Ok,
    ;

    /// Loads all events stored under `aggregate_id`, in version order.
    ///
    /// An identity without stored events is reported as
    /// [`CqrsError::AggregateNotFound`]; callers treat that as "start from
    /// empty state", not as a hard failure.
    fn load_events(&self, aggregate_id: AggregateId) -> (r: Result<Vec<Event>, CqrsError>)
        ensures
            r matches Ok(v) ==> self.sp_has(aggregate_id) && views(v@) == self.sp_events_for(
                aggregate_id,
            ),
            r matches Err(e) ==> {
                &&& (e@ is AggregateNotFound || e@ is StoreOperation)
                &&& (e@ is AggregateNotFound ==> !self.sp_has(aggregate_id) && e@ == (
                ErrorV::AggregateNotFound { aggregate_id }))
            },
            Self::obeys_store_spec() ==> {
                &&& (r is Ok <==> self.sp_has(aggregate_id))
                &&& (r matches Err(e) ==> e@ is AggregateNotFound)
            },
    ;
}

} // verus!
