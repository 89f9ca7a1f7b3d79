//! The aggregate contract: how domain state is rebuilt from events.
//!
//! An aggregate encapsulates one entity's state and its transition rules.
//! Its state has a default initial value, an identity that is set before any
//! event is applied, and domain fields mutated only by applying events.
//! Applying an ordered event sequence is a pure function of the starting
//! state and the sequence — the replay-determinism guarantee that event
//! sourcing rests on — and that function, [`sp_apply_events`], is what every
//! contract of the runtime speaks of.

pub mod manager;
pub mod snapshot;

use vstd::prelude::*;

use crate::error::CqrsError;
use crate::events::views;
use crate::events::Event;
use crate::events::EventPayload;
use crate::events::EventV;
use crate::ids::AggregateId;

verus! {

/// An event-sourced aggregate: a value rebuilt by replaying events, able to
/// snapshot itself through a byte encoding of its full state.
pub trait Aggregate: Sized + Clone {
    /// The type of domain event this aggregate applies.
    type Event: EventPayload;

    /// The default initial state, before any event is applied.
    spec fn sp_fresh() -> Self;

    /// The aggregate's identity.
    spec fn sp_id(&self) -> AggregateId;

    /// The state with its identity replaced by `id` and everything else
    /// kept.
    spec fn sp_with_id(&self, id: AggregateId) -> Self;

    /// The state after applying one event: the aggregate's transition
    /// function. Applying never fails — validation happens before events
    /// are produced, not when they are applied.
    spec fn sp_apply(&self, event: Self::Event) -> Self;

    /// The byte encoding of the full state, used by snapshots.
    spec fn sp_encode_state(&self) -> Seq<u8>;

    /// The state, if any, that `bytes` is the encoding of.
    spec fn sp_decode_state(bytes: Seq<u8>) -> Option<Self>;

    /// Constructs the default initial state.
    fn fresh() -> (r: Self)
        ensures
            r == Self::sp_fresh(),
    ;

    /// Gets the aggregate's identity.
    fn aggregate_id(&self) -> (r: AggregateId)
        ensures
            r == self.sp_id(),
    ;

    /// Sets the aggregate's identity, leaving the domain state unchanged.
    /// Called once, before any event is applied to a fresh instance.
    fn set_aggregate_id(&mut self, id: AggregateId)
        ensures
            *final(self) == old(self).sp_with_id(id),
            final(self).sp_id() == id,
    ;

    /// Applies one event to the state.
    fn apply(&mut self, event: &Self::Event)
        ensures
            *final(self) == old(self).sp_apply(*event),
    ;

    /// Encodes the full state for a snapshot.
    fn encode_state(&self) -> (r: Vec<u8>)
        ensures
            r@ == self.sp_encode_state(),
    ;

    /// Decodes a full state from snapshot bytes; `None` when `bytes` is not
    /// an encoding of any state of this type.
    fn decode_state(bytes: &[u8]) -> (r: Option<Self>)
        ensures
            r == Self::sp_decode_state(bytes@),
    ;

    /// The round-trip law for state encoding: decoding an encoded state
    /// gives the state back. Every implementation proves it.
    proof fn lemma_decode_encode_state(&self)
        ensures
            Self::sp_decode_state(self.sp_encode_state()) == Some(*self),
    ;

    /// The identity-preservation law: applying an event mutates domain
    /// fields only, never the identity. Every implementation proves it; the
    /// snapshot layer relies on it to key a post-command snapshot by the
    /// identity the command was executed against.
    proof fn lemma_apply_preserves_id(&self, event: Self::Event)
        ensures
            self.sp_apply(event).sp_id() == self.sp_id(),
    ;
}

/// Applies an ordered sequence of envelopes to `aggregate`, decoding each
/// payload into the aggregate's event type.
///
/// Fails fast with [`CqrsError::PayloadDeserialization`] when a payload
/// cannot be decoded, leaving the state at the replay of the longest
/// decodable prefix; on success the state is exactly the replay of the
/// whole sequence.
pub fn apply_events<A: Aggregate>(aggregate: &mut A, events: &Vec<Event>) -> (r: Result<
    (),
    CqrsError,
>)
    ensures
        match sp_apply_events(*old(aggregate), views(events@)) {
            Some(a) => r is Ok && *final(aggregate) == a,
            None => r matches Err(e) && e@ is PayloadDeserialization && (exists|k: int|
                0 <= k < views(events@).len() && A::Event::sp_decode(
                    views(events@)[k].payload,
                ) is None && #[trigger] sp_apply_events(
                    *old(aggregate),
                    views(events@).take(k),
                ) == Some(*final(aggregate))),
        },
{
    let mut i: usize = 0;
    proof {
        assert(views(events@).skip(0) =~= views(events@));
        assert(views(events@).take(0) =~= Seq::<EventV>::empty());
    }
    while i < events.len()
        invariant
            i <= events@.len(),
            sp_apply_events(*old(aggregate), views(events@)) == sp_apply_events(
                *aggregate,
                views(events@).skip(i as int),
            ),
            sp_apply_events(*old(aggregate), views(events@).take(i as int)) == Some(*aggregate),
        decreases events@.len() - i,
    {
        let ghost remaining = views(events@).skip(i as int);
        proof {
            assert(remaining[0] == views(events@)[i as int]);
            assert(remaining.drop_first() =~= views(events@).skip(i as int + 1));
            assert(views(events@).take(i as int).push(views(events@)[i as int]) =~= views(
                events@,
            ).take(i as int + 1));
            lemma_apply_events_snoc::<A>(
                *old(aggregate),
                views(events@).take(i as int),
                views(events@)[i as int],
            );
        }
        match events[i].get_payload::<A::Event>() {
            Ok(payload) => {
                aggregate.apply(&payload);
            },
            Err(e) => {
                proof {
                    let ghost k = i as int;
                    assert(A::Event::sp_decode(views(events@)[k].payload) is None);
                    assert(sp_apply_events(*old(aggregate), views(events@).take(k)) == Some(
                        *aggregate,
                    ));
                }
                return Err(e);
            },
        }
        i = i + 1;
    }
    proof {
        assert(views(events@).skip(events@.len() as int) =~= Seq::<EventV>::empty());
    }
    Ok(())
}

/// Appending one event to a replay applies it to the replayed state.
proof fn lemma_apply_events_snoc<A: Aggregate>(a: A, events: Seq<EventV>, event: EventV)
    ensures
        sp_apply_events(a, events.push(event)) == (match sp_apply_events(a, events) {
            Some(b) => match A::Event::sp_decode(event.payload) {
                Some(payload) => Some(b.sp_apply(payload)),
                None => None,
            },
            None => None,
        }),
    decreases events.len(),
{
    if events.len() == 0 {
        assert(events.push(event)[0] == event);
        assert(events.push(event).drop_first() =~= Seq::<EventV>::empty());
        match A::Event::sp_decode(event.payload) {
            Some(payload) => {
                assert(sp_apply_events(a.sp_apply(payload), Seq::<EventV>::empty()) == Some(
                    a.sp_apply(payload),
                ));
            },
            None => {},
        }
    } else {
        assert(events.push(event)[0] == events[0]);
        assert(events.push(event).drop_first() =~= events.drop_first().push(event));
        match A::Event::sp_decode(events[0].payload) {
            Some(payload) => {
                lemma_apply_events_snoc::<A>(a.sp_apply(payload), events.drop_first(), event);
            },
            None => {},
        }
    }
}

/// Replay preserves the aggregate's identity: the state reached by applying
/// any event sequence carries the identity of the starting state. Follows
/// from [`Aggregate::lemma_apply_preserves_id`] by induction over the
/// sequence.
pub proof fn lemma_replay_preserves_id<A: Aggregate>(a: A, events: Seq<EventV>)
    ensures
        sp_apply_events(a, events) matches Some(b) ==> b.sp_id() == a.sp_id(),
    decreases events.len(),
{
    if events.len() > 0 {
        match A::Event::sp_decode(events[0].payload) {
            Some(payload) => {
                a.lemma_apply_preserves_id(payload);
                lemma_replay_preserves_id::<A>(a.sp_apply(payload), events.drop_first());
            },
            None => {},
        }
    }
}

/// The replay function: the state reached by applying `events` in order to
/// `a`, or `None` when some payload does not decode to the aggregate's event
/// type.
pub open spec fn sp_apply_events<A: Aggregate>(a: A, events: Seq<EventV>) -> Option<A>
    decreases events.len(),
{
    if events.len() == 0 {
        Some(a)
    } else {
        match A::Event::sp_decode(events[0].payload) {
            Some(payload) => sp_apply_events(a.sp_apply(payload), events.drop_first()),
            None => None,
        }
    }
}

/// Replay determinism: replaying one event sequence from equal starting
/// states — in particular from two independently constructed default
/// instances — yields equal states. Replay is the function
/// [`sp_apply_events`] of the starting state and the sequence alone, and
/// [`Aggregate::apply_events`] is pinned to that function by its contract,
/// so no run of it can diverge from another.
pub proof fn lemma_replay_deterministic<A: Aggregate>(s1: A, s2: A, events: Seq<EventV>)
    requires
        s1 == s2,
    ensures
        sp_apply_events(s1, events) == sp_apply_events(s2, events),
{
}

/// Replay depends only on the payloads of the events: two sequences that
/// carry the same payloads — for example, the same events before and after
/// version numbers are assigned — replay to the same state.
pub proof fn lemma_replay_ignores_versions<A: Aggregate>(a: A, e1: Seq<EventV>, e2: Seq<EventV>)
    requires
        e1.len() == e2.len(),
        forall|i: int| 0 <= i < e1.len() ==> (#[trigger] e1[i]).payload == e2[i].payload,
    ensures
        sp_apply_events(a, e1) == sp_apply_events(a, e2),
    decreases e1.len(),
{
    if e1.len() > 0 {
        assert(e1[0].payload == e2[0].payload);
        match A::Event::sp_decode(e1[0].payload) {
            Some(payload) => {
                assert(forall|i: int|
                    0 <= i < e1.drop_first().len() ==> (#[trigger] e1.drop_first()[i]).payload
                        == e2.drop_first()[i].payload);
                lemma_replay_ignores_versions(a.sp_apply(payload), e1.drop_first(), e2.drop_first());
            },
            None => {},
        }
    }
}

} // verus!
