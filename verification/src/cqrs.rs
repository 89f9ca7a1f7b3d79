//! The orchestrator: the command execution state machine.
//!
//! `Cqrs::execute` runs, once per call, the deterministic sequence at the
//! heart of the runtime: load the aggregate, determine the current version,
//! handle the command, validate and version the produced events, persist
//! them, apply them locally, fan them out to the consumers, collect the
//! follow-up commands the consumers wish to trigger, and snapshot the
//! post-command state. Any failure aborts the sequence and returns the
//! specific error; persistence is the single durability boundary — nothing
//! before it has side effects, everything after it reports on a batch that
//! is already durable.

use vstd::prelude::*;

use crate::aggregate::apply_events;
use crate::aggregate::lemma_replay_ignores_versions;
use crate::aggregate::manager::AggregateManager;
use crate::aggregate::sp_apply_events;
use crate::aggregate::Aggregate;
use crate::command::Command;
use crate::consumer::EventConsumersGroup;
use crate::error::CqrsError;
use crate::error::ErrorV;
use crate::events::last_version;
use crate::events::lemma_gapless_last_version;
use crate::events::versions_gapless;
use crate::events::views;
use crate::events::Event;
use crate::events::EventStore;
use crate::events::EventV;
use crate::ids::AggregateId;
use crate::query::QueriesRunner;

verus! {

/// Whether every event of `events` carries `aggregate_id` — the invariant
/// the validation step enforces before anything is persisted.
pub open spec fn sp_all_match(events: Seq<EventV>, aggregate_id: AggregateId) -> bool {
    forall|i: int| 0 <= i < events.len() ==> (#[trigger] events[i]).aggregate_id == aggregate_id
}

/// The events of `events` with versions assigned in order, continuing from
/// `base`: the i-th event carries version `base + i + 1`.
pub open spec fn sp_versioned(events: Seq<EventV>, base: u64) -> Seq<EventV>
    recommends
        base + events.len() <= u64::MAX,
{
    events.map(|i: int, e: EventV| EventV { version: (base + i + 1) as u64, ..e })
}

/// The consumers' state and collected follow-up commands after observing
/// `events` in order from state `pre`; the commands are `None` when the
/// group refused some event (everything up to it is still observed).
pub open spec fn sp_fanout<M, EC: EventConsumersGroup<M>>(pre: EC::V, events: Seq<EventV>) -> (
    EC::V,
    Option<Seq<M>>,
)
    decreases events.len(),
{
    if events.len() == 0 {
        (pre, Some(Seq::<M>::empty()))
    } else {
        let step = EC::sp_process(pre, events[0]);
        match step.1 {
            Some(commands) => {
                let rest = sp_fanout::<M, EC>(step.0, events.drop_first());
                (
                    rest.0,
                    match rest.1 {
                        Some(more) => Some(commands + more),
                        None => None,
                    },
                )
            },
            None => (step.0, None),
        }
    }
}

/// The main entry point of an event-sourced application: the component that
/// executes commands against aggregates and feeds the committed events to
/// the read side.
///
/// Follow-up commands collected from the consumers are not dispatched here —
/// the runtime performs no channel I/O — but accumulate until the embedding
/// application drains them with [`Cqrs::take_pending_commands`] and submits
/// them to its own command channel.
pub struct Cqrs<ES, EC, AM, Ctx, M> {
    aggregate_manager: AM,
    event_store: ES,
    consumers: EC,
    context: Ctx,
    pending_commands: Vec<M>,
}

impl<ES, EC, AM, Ctx, M> Cqrs<ES, EC, AM, Ctx, M> {
    /// The aggregate manager.
    pub closed spec fn sp_manager(&self) -> AM {
        self.aggregate_manager
    }

    /// The event store.
    pub closed spec fn sp_event_store(&self) -> ES {
        self.event_store
    }

    /// The consumer group.
    pub closed spec fn sp_consumers(&self) -> EC {
        self.consumers
    }

    /// The context handed to every command handler.
    pub closed spec fn sp_context(&self) -> Ctx {
        self.context
    }

    /// The follow-up commands collected from the consumers and not yet
    /// drained.
    pub closed spec fn sp_pending(&self) -> Seq<M> {
        self.pending_commands@
    }

    /// Creates an orchestrator around the given manager, store, consumers
    /// and context, with no follow-up commands pending.
    pub fn new(aggregate_manager: AM, event_store: ES, consumers: EC, context: Ctx) -> (r: Self)
        ensures
            r.sp_manager() == aggregate_manager,
            r.sp_event_store() == event_store,
            r.sp_consumers() == consumers,
            r.sp_context() == context,
            r.sp_pending() == Seq::<M>::empty(),
    {
        let r = Cqrs {
            aggregate_manager,
            event_store,
            consumers,
            context,
            pending_commands: Vec::new(),
        };
        proof {
            assert(r.sp_pending() =~= Seq::<M>::empty());
        }
        r
    }

    /// The event store, for the read side.
    pub fn event_store(&self) -> (r: &ES)
        ensures
            r == self.sp_event_store(),
    {
        &self.event_store
    }

    /// The consumer group, for reading the projections its members own.
    pub fn consumers(&self) -> (r: &EC)
        ensures
            r == self.sp_consumers(),
    {
        &self.consumers
    }

    /// Drains the follow-up commands collected so far, in collection order.
    /// The embedding application submits them to its command channel.
    pub fn take_pending_commands(&mut self) -> (r: Vec<M>)
        ensures
            r@ == old(self).sp_pending(),
            final(self).sp_pending() == Seq::<M>::empty(),
            final(self).sp_manager() == old(self).sp_manager(),
            final(self).sp_event_store() == old(self).sp_event_store(),
            final(self).sp_consumers() == old(self).sp_consumers(),
            final(self).sp_context() == old(self).sp_context(),
    {
        let mut drained: Vec<M> = Vec::new();
        core::mem::swap(&mut drained, &mut self.pending_commands);
        proof {
            assert(final(self).sp_pending() =~= Seq::<M>::empty());
        }
        drained
    }
}

impl<ES: EventStore, EC: EventConsumersGroup<M>, AM, Ctx, M> Cqrs<ES, EC, AM, Ctx, M> {
    /// Executes `command` against the aggregate named `aggregate_id`.
    ///
    /// The contract below follows the pipeline. Writing `history` for the
    /// stored events of the aggregate, `loaded` for the state the manager
    /// materializes from them, and `decision` for the handler's verdict on
    /// that state:
    ///
    /// - a state that cannot be materialized, a rejected command, an event
    ///   tagged with a foreign aggregate identity, and a version that would
    ///   overflow all abort with an error and no side effects at all;
    /// - a success means the decision's events were appended to the store —
    ///   exactly they, in order, versioned gaplessly on top of the history —
    ///   every consumer observed them in commit order, the follow-up
    ///   commands the consumers returned were collected in order, and the
    ///   manager persisted the replayed post-command state at the new last
    ///   version. No other aggregate was touched, and a gapless history
    ///   stays gapless;
    /// - an error leaves the orchestrator either untouched — the call is
    ///   safely retryable — or holding exactly the versioned batch, already
    ///   durable: the manager is never mutated on an error, no other
    ///   aggregate is touched, and the consumers and the pending queue
    ///   advanced by the fan-out up to the failure, or not at all;
    /// - and when the stores obey their specifications (as the in-process
    ///   ones provably do), an accepted, matching, non-overflowing,
    ///   replayable command against a gapless history is promised to
    ///   succeed: the only errors left are the ones the contracts force.
    #[verifier::loop_isolation(false)]
    #[verifier::rlimit(100)]
    pub fn execute<C: Command<Ctx>>(&mut self, aggregate_id: AggregateId, command: &C) -> (r:
        Result<AggregateId, CqrsError>) where AM: AggregateManager<C::Aggregate, ES>
        ensures
            ({
                let history = old(self).sp_event_store().sp_events_for(aggregate_id);
                let loaded = old(self).sp_manager().sp_load(history, aggregate_id);
                &&& (loaded is None ==> r is Err && *final(self) == *old(self))
                &&& (loaded matches Some(a0) ==> {
                    let decision = command.sp_handle(a0, old(self).sp_context());
                    &&& (decision matches Err(rejection) ==> (r matches Err(e) && *final(self)
                        == *old(self) && (e@ == rejection || e@ is StoreOperation || e@
                        is PayloadDeserialization || e@ is Snapshot)))
                    &&& (decision matches Ok(evs) ==> {
                        &&& (!sp_all_match(evs, aggregate_id) ==> (r matches Err(e)
                            && *final(self) == *old(self)
                            && (e@ == (ErrorV::CommandValidation { aggregate_id })
                            || e@ is StoreOperation || e@ is PayloadDeserialization || e@
                            is Snapshot)))
                        &&& (evs.len() == 0 ==> *final(self) == *old(self))
                        &&& (sp_all_match(evs, aggregate_id) && last_version(history) + evs.len()
                            > u64::MAX ==> (r matches Err(e) && *final(self) == *old(self) && (e@
                            is Generic || e@ is StoreOperation || e@ is PayloadDeserialization
                            || e@ is Snapshot)))
                    })
                })
            }),
            r matches Ok(done) ==> done == aggregate_id,
            r is Ok ==> ({
                let es0 = old(self).sp_event_store();
                let history = es0.sp_events_for(aggregate_id);
                let loaded = old(self).sp_manager().sp_load(history, aggregate_id);
                loaded matches Some(a0) && command.sp_handle(a0, old(self).sp_context()) matches Ok(
                    evs,
                ) && (if evs.len() == 0 {
                    *final(self) == *old(self)
                } else {
                    let v0 = last_version(history);
                    let versioned = sp_versioned(evs, v0);
                    let es1 = final(self).sp_event_store();
                    &&& sp_all_match(evs, aggregate_id)
                    &&& v0 + evs.len() <= u64::MAX
                    &&& v0 == history.len()
                    &&& es1.sp_events_for(aggregate_id) == history + versioned
                    &&& es1.sp_has(aggregate_id)
                    &&& (forall|other: AggregateId|
                        other != aggregate_id ==> #[trigger] es1.sp_events_for(other)
                            == es0.sp_events_for(other))
                    &&& (forall|other: AggregateId|
                        other != aggregate_id ==> #[trigger] es1.sp_has(other) == es0.sp_has(
                            other,
                        ))
                    &&& (versions_gapless(history) ==> versions_gapless(
                        es1.sp_events_for(aggregate_id),
                    ))
                    &&& sp_apply_events(a0, evs) matches Some(a1) && {
                        let fanned = sp_fanout::<M, EC>(old(self).sp_consumers()@, versioned);
                        &&& final(self).sp_consumers()@ == fanned.0
                        &&& fanned.1 matches Some(follow_ups) && final(self).sp_pending() == old(
                            self,
                        ).sp_pending() + follow_ups
                        &&& old(self).sp_manager().sp_stored(
                            final(self).sp_manager(),
                            a1,
                            (v0 + evs.len()) as u64,
                        )
                    }
                })
            }),
            r is Err ==> ({
                let es0 = old(self).sp_event_store();
                let history = es0.sp_events_for(aggregate_id);
                let loaded = old(self).sp_manager().sp_load(history, aggregate_id);
                let es1 = final(self).sp_event_store();
                &&& final(self).sp_manager() == old(self).sp_manager()
                &&& final(self).sp_context() == old(self).sp_context()
                &&& ({
                    ||| *final(self) == *old(self)
                    ||| (loaded matches Some(a0) && command.sp_handle(
                        a0,
                        old(self).sp_context(),
                    ) matches Ok(evs) && ({
                        let versioned = sp_versioned(evs, last_version(history));
                        let fanned = sp_fanout::<M, EC>(old(self).sp_consumers()@, versioned);
                        &&& evs.len() > 0
                        &&& sp_all_match(evs, aggregate_id)
                        &&& es1.sp_events_for(aggregate_id) == history + versioned
                        &&& es1.sp_has(aggregate_id)
                        &&& (forall|other: AggregateId|
                            other != aggregate_id ==> #[trigger] es1.sp_events_for(other)
                                == es0.sp_events_for(other))
                        &&& (forall|other: AggregateId|
                            other != aggregate_id ==> #[trigger] es1.sp_has(other) == es0.sp_has(
                                other,
                            ))
                        &&& ({
                            ||| (final(self).sp_consumers() == old(self).sp_consumers()
                                && final(self).sp_pending() == old(self).sp_pending())
                            ||| (final(self).sp_consumers()@ == fanned.0 && ({
                                ||| final(self).sp_pending() == old(self).sp_pending()
                                ||| (fanned.1 matches Some(follow_ups) && final(self).sp_pending()
                                    == old(self).sp_pending() + follow_ups)
                            }))
                        })
                    }))
                })
            }),
            ({
                let es0 = old(self).sp_event_store();
                let history = es0.sp_events_for(aggregate_id);
                let loaded = old(self).sp_manager().sp_load(history, aggregate_id);
                (ES::obeys_store_spec() && AM::obeys_manager_spec() && versions_gapless(history))
                    ==> (loaded matches Some(a0) ==> (command.sp_handle(
                    a0,
                    old(self).sp_context(),
                ) matches Ok(evs) ==> ((sp_all_match(evs, aggregate_id) && history.len()
                    + evs.len() <= u64::MAX && sp_apply_events(a0, evs) is Some && sp_fanout::<
                    M,
                    EC,
                >(old(self).sp_consumers()@, sp_versioned(evs, last_version(history))).1 is Some)
                    ==> r is Ok)))
            }),
    {
        let ghost history = self.event_store.sp_events_for(aggregate_id);
        let ghost cons0 = self.consumers@;
        let ghost pending0 = self.pending_commands@;

        // 1. Load the aggregate through the manager.
        let mut aggregate: C::Aggregate =
            match self.aggregate_manager.load(&self.event_store, aggregate_id) {
            Ok(aggregate) => aggregate,
            Err(e) => {
                return Err(e);
            },
        };
        let ghost loaded_state = aggregate;

        // 2. Determine the current version: that of the last stored event.
        let current_version: u64 = match self.event_store.load_events(aggregate_id) {
            Ok(stored) => {
                if stored.len() > 0 {
                    stored[stored.len() - 1].version
                } else {
                    0
                }
            },
            Err(e) => {
                match e {
                    CqrsError::AggregateNotFound(..) => 0,
                    _ => {
                        return Err(e);
                    },
                }
            },
        };
        proof {
            self.event_store.lemma_absent_is_empty(aggregate_id);
            assert(current_version == last_version(history));
            if versions_gapless(history) {
                lemma_gapless_last_version(history);
            }
        }

        // 3. Handle the command; a rejection aborts with no side effects.
        let new_events: Vec<Event> = match command.handle(&aggregate, &self.context) {
            Ok(events) => events,
            Err(e) => {
                return Err(e);
            },
        };
        let ghost evs = views(new_events@);

        if new_events.is_empty() {
            return Ok(aggregate_id);
        }

        // 4. Validate the new events: each must carry the identity the
        // command is executed against. A mismatch is fatal, before anything
        // is persisted.
        let mut k: usize = 0;
        while k < new_events.len()
            invariant
                k <= evs.len(),
                evs == views(new_events@),
                forall|j: int| 0 <= j < k ==> (#[trigger] evs[j]).aggregate_id == aggregate_id,
            decreases evs.len() - k,
        {
            if new_events[k].aggregate_id != aggregate_id {
                proof {
                    assert(!sp_all_match(evs, aggregate_id)) by {
                        assert(evs[k as int].aggregate_id != aggregate_id);
                    }
                }
                return Err(
                    CqrsError::CommandValidation {
                        aggregate_id,
                        reason: "an event does not carry the identity it is executed against"
                            .to_owned(),
                    },
                );
            }
            k = k + 1;
        }
        assert(sp_all_match(evs, aggregate_id));

        // Version the events, continuing the current version gaplessly.
        let n = new_events.len();
        if current_version > u64::MAX - (n as u64) {
            return Err(CqrsError::Generic("assigning versions would overflow".to_owned()));
        }
        let mut versioned_events = new_events;
        let mut k: usize = 0;
        while k < versioned_events.len()
            invariant
                k <= evs.len(),
                versioned_events@.len() == evs.len(),
                current_version + evs.len() <= u64::MAX,
                forall|j: int|
                    0 <= j < k ==> (#[trigger] versioned_events@[j])@ == (EventV {
                        version: (current_version + j + 1) as u64,
                        ..evs[j]
                    }),
                forall|j: int| k <= j < evs.len() ==> (#[trigger] versioned_events@[j])@ == evs[j],
            decreases evs.len() - k,
        {
            let ghost at_entry = versioned_events@;
            let mut event = versioned_events.remove(k);
            event.set_version(current_version + 1 + (k as u64));
            versioned_events.insert(k, event);
            proof {
                let updated = versioned_events@[k as int];
                assert(versioned_events@ =~= at_entry.update(k as int, updated));
            }
            k = k + 1;
        }
        proof {
            assert(views(versioned_events@) =~= sp_versioned(evs, current_version));
        }

        // 5. Persist: the single durability boundary. The store refuses a
        // batch that does not continue its history gaplessly.
        match self.event_store.save_events(aggregate_id, &versioned_events) {
            Ok(()) => {},
            Err(e) => {
                return Err(e);
            },
        }
        proof {
            assert(current_version == history.len()) by {
                assert(views(versioned_events@)[0].version == history.len() + 1);
                assert(views(versioned_events@)[0].version == current_version + 1);
            }
            if versions_gapless(history) {
                crate::events::lemma_gapless_extension(history, views(versioned_events@));
            }
        }

        // 6. Apply the committed events locally, so the snapshot below
        // captures the post-command state without a re-read.
        proof {
            let versioned = sp_versioned(evs, current_version);
            assert forall|j: int| 0 <= j < versioned.len() implies (#[trigger] versioned[j]).payload
                == evs[j].payload by {}
            lemma_replay_ignores_versions(loaded_state, versioned, evs);
        }
        match apply_events(&mut aggregate, &versioned_events) {
            Ok(()) => {},
            Err(e) => {
                return Err(e);
            },
        }

        // 7. Fan out to the consumers, collecting follow-up commands.
        let ghost es_saved = self.event_store;
        let ghost manager_saved = self.aggregate_manager;
        let mut collected: Vec<M> = Vec::new();
        let mut i: usize = 0;
        proof {
            assert(views(versioned_events@).skip(0) =~= views(versioned_events@));
        }
        while i < versioned_events.len()
            invariant
                i <= versioned_events@.len(),
                self.event_store == es_saved,
                self.aggregate_manager == manager_saved,
                self.pending_commands@ == pending0,
                self.context == old(self).context,
                sp_fanout::<M, EC>(cons0, views(versioned_events@)) == ({
                    let rest = sp_fanout::<M, EC>(
                        self.consumers@,
                        views(versioned_events@).skip(i as int),
                    );
                    (
                        rest.0,
                        match rest.1 {
                            Some(more) => Some(collected@ + more),
                            None => None,
                        },
                    )
                }),
            decreases versioned_events@.len() - i,
        {
            let ghost remaining = views(versioned_events@).skip(i as int);
            let ghost consumers_at = self.consumers@;
            proof {
                assert(remaining[0] == views(versioned_events@)[i as int]);
                assert(remaining.drop_first() =~= views(versioned_events@).skip(i as int + 1));
            }
            match self.consumers.process(&versioned_events[i]) {
                Ok(mut commands) => {
                    collected.append(&mut commands);
                },
                Err(e) => {
                    proof {
                        // The group refused this event: the fan-out stops
                        // here, with the members advanced through it.
                        assert(EC::sp_process(consumers_at, remaining[0]).1 is None);
                        assert(sp_fanout::<M, EC>(consumers_at, remaining) == (
                            self.consumers@,
                            None::<Seq<M>>,
                        ));
                        assert(sp_fanout::<M, EC>(cons0, views(versioned_events@)) == (
                            self.consumers@,
                            None::<Seq<M>>,
                        ));
                    }
                    return Err(e);
                },
            }
            i = i + 1;
        }
        proof {
            assert(views(versioned_events@).skip(versioned_events@.len() as int) =~= Seq::<
                EventV,
            >::empty());
            assert(collected@ + Seq::<M>::empty() =~= collected@);
            assert(sp_fanout::<M, EC>(cons0, views(versioned_events@)) == (
                self.consumers@,
                Some(collected@),
            ));
        }
        self.pending_commands.append(&mut collected);

        // 8. Snapshot the post-command state; a failure here reports on
        // events that are already durably persisted.
        let last = current_version + (n as u64);
        match self.aggregate_manager.store(&aggregate, last) {
            Ok(()) => {},
            Err(e) => {
                return Err(e);
            },
        }

        Ok(aggregate_id)
    }
}

impl<ES, EC, AM, Ctx, M> QueriesRunner for Cqrs<ES, EC, AM, Ctx, M> {

}

} // verus!
