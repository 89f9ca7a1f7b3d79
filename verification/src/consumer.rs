//! Consumer fan-out: delivering committed events to independent projections.
//!
//! A consumer reacts to events it understands, updating storage it owns; a
//! consumer group delivers each event to every member — tolerating members
//! that fail on events they do not understand — and collects the follow-up
//! commands the members wish to trigger.

use vstd::prelude::*;

use crate::error::CqrsError;
use crate::events::views;
use crate::events::Event;
use crate::events::EventPayload;
use crate::events::EventV;

verus! {

/// The contract of one event consumer.
///
/// Processing is a pure decision over the consumer's abstracted state: the
/// event either advances the state and yields follow-up commands (of the
/// message type `M`), or is refused, advancing the state as far as the
/// consumer got. A consumer is expected to ignore, not refuse, event types
/// it does not care about; what it refuses is its own policy, stated by
/// [`EventConsumer::sp_process`].
pub trait EventConsumer<M>: Sized + View {
    /// The consumer's decision on `event` in state `pre`: the state
    /// afterwards, and the follow-up commands — `None` when the consumer
    /// refuses the event.
    spec fn sp_process(pre: Self::V, event: EventV) -> (Self::V, Option<Seq<M>>);

    /// Processes one committed event.
    fn process(&mut self, event: &Event) -> (r: Result<Vec<M>, CqrsError>)
        ensures
            final(self)@ == Self::sp_process(old(self)@, event@).0,
            match r {
                Ok(commands) => Self::sp_process(old(self)@, event@).1 == Some(commands@),
                Err(_) => Self::sp_process(old(self)@, event@).1 is None,
            },
    ;
}

/// The contract of a consumer group: several consumers behind one call, so
/// the orchestrator can notify "all consumers" as a unit.
pub trait EventConsumersGroup<M>: Sized + View {
    /// The group's decision on `event` in state `pre`: the state afterwards,
    /// and the collected follow-up commands — `None` when the group as a
    /// whole refuses the event.
    spec fn sp_process(pre: Self::V, event: EventV) -> (Self::V, Option<Seq<M>>);

    /// Processes one committed event through every member.
    fn process(&mut self, event: &Event) -> (r: Result<Vec<M>, CqrsError>)
        ensures
            final(self)@ == Self::sp_process(old(self)@, event@).0,
            match r {
                Ok(commands) => Self::sp_process(old(self)@, event@).1 == Some(commands@),
                Err(_) => Self::sp_process(old(self)@, event@).1 is None,
            },
    ;
}

/// The states of the members of a group after `event`, each advanced by its
/// own decision.
pub open spec fn sp_member_states<M, C: EventConsumer<M>>(pre: Seq<C::V>, event: EventV) -> Seq<
    C::V,
> {
    pre.map_values(|v: C::V| C::sp_process(v, event).0)
}

/// The follow-up commands collected over the members of a group, in member
/// order; a member that refuses the event contributes none.
pub open spec fn sp_member_outputs<M, C: EventConsumer<M>>(pre: Seq<C::V>, event: EventV) -> Seq<M>
    decreases pre.len(),
{
    if pre.len() == 0 {
        Seq::empty()
    } else {
        (match C::sp_process(pre[0], event).1 {
            Some(commands) => commands,
            None => Seq::empty(),
        }) + sp_member_outputs::<M, C>(pre.drop_first(), event)
    }
}

/// Appending a member appends its contribution.
proof fn lemma_member_outputs_push<M, C: EventConsumer<M>>(pre: Seq<C::V>, v: C::V, event: EventV)
    ensures
        sp_member_outputs::<M, C>(pre.push(v), event) == sp_member_outputs::<M, C>(pre, event) + (
        match C::sp_process(v, event).1 {
            Some(commands) => commands,
            None => Seq::<M>::empty(),
        }),
    decreases pre.len(),
{
    let head = (match C::sp_process(pre.push(v)[0], event).1 {
        Some(commands) => commands,
        None => Seq::<M>::empty(),
    });
    if pre.len() == 0 {
        assert(pre.push(v)[0] == v);
        assert(pre.push(v).drop_first() =~= Seq::<C::V>::empty());
        assert(sp_member_outputs::<M, C>(Seq::empty(), event) == Seq::<M>::empty());
        assert(head + Seq::<M>::empty() =~= head);
        assert(Seq::<M>::empty() + head =~= head);
    } else {
        assert(pre.push(v)[0] == pre[0]);
        assert(pre.push(v).drop_first() =~= pre.drop_first().push(v));
        lemma_member_outputs_push::<M, C>(pre.drop_first(), v, event);
        assert((head + sp_member_outputs::<M, C>(pre.drop_first(), event)) + (
        match C::sp_process(v, event).1 {
            Some(commands) => commands,
            None => Seq::<M>::empty(),
        }) =~= head + (sp_member_outputs::<M, C>(pre.drop_first(), event) + (
        match C::sp_process(v, event).1 {
            Some(commands) => commands,
            None => Seq::<M>::empty(),
        })));
    }
}

/// A group over a uniform member type: every member observes every event, in
/// member order, and a member's failure neither stops the other members nor
/// fails the group — the best-effort projection policy.
pub struct ConsumerGroup<C> {
    /// The member consumers, notified in order.
    pub members: Vec<C>,
}

impl<C: View> View for ConsumerGroup<C> {
    type V = Seq<C::V>;

    open spec fn view(&self) -> Seq<C::V> {
        self.members@.map_values(|c: C| c@)
    }
}

impl<C> ConsumerGroup<C> {
    /// Creates a group around the given members.
    pub fn new(members: Vec<C>) -> (r: Self)
        ensures
            r.members@ == members@,
    {
        ConsumerGroup { members }
    }
}

impl<M, C: EventConsumer<M>> EventConsumersGroup<M> for ConsumerGroup<C> {
    open spec fn sp_process(pre: Seq<C::V>, event: EventV) -> (Seq<C::V>, Option<Seq<M>>) {
        (sp_member_states::<M, C>(pre, event), Some(sp_member_outputs::<M, C>(pre, event)))
    }

    /// Consumer isolation: the loop below calls every member in order,
    /// whatever the other members returned; a member's error only drops its
    /// contribution to the collected commands.
    fn process(&mut self, event: &Event) -> (r: Result<Vec<M>, CqrsError>) {
        let ghost pre = self@;
        let mut collected: Vec<M> = Vec::new();
        let mut i: usize = 0;
        proof {
            assert(self@.take(0) =~= Seq::<C::V>::empty());
            assert(collected@ =~= sp_member_outputs::<M, C>(pre.take(0), event@));
        }
        while i < self.members.len()
            invariant
                i <= self.members@.len(),
                self.members@.len() == pre.len(),
                forall|j: int| 0 <= j < pre.len() ==> pre[j] == (#[trigger] old(self).members@[j])@,
                forall|j: int|
                    0 <= j < i ==> (#[trigger] self.members@[j])@ == C::sp_process(
                        pre[j],
                        event@,
                    ).0,
                forall|j: int|
                    i <= j < pre.len() ==> #[trigger] self.members@[j] == old(self).members@[j],
                collected@ == sp_member_outputs::<M, C>(pre.take(i as int), event@),
            decreases self.members@.len() - i,
        {
            let ghost at_entry = self.members@;
            let mut member = self.members.remove(i);
            let outcome = member.process(event);
            self.members.insert(i, member);
            proof {
                let updated = self.members@[i as int];
                assert(self.members@ =~= at_entry.update(i as int, updated));
                assert(pre.take(i as int).push(pre[i as int]) =~= pre.take(i as int + 1));
                lemma_member_outputs_push::<M, C>(pre.take(i as int), pre[i as int], event@);
            }
            match outcome {
                Ok(mut commands) => {
                    collected.append(&mut commands);
                },
                Err(_) => {},
            }
            i = i + 1;
        }
        proof {
            assert(pre.take(pre.len() as int) =~= pre);
            assert(self@ =~= sp_member_states::<M, C>(pre, event@));
        }
        Ok(collected)
    }
}

/// Consumer isolation: a group delivers an event to every member, in member
/// order, and the failure of one member neither prevents another member from
/// observing the event nor fails the group call — each member's state
/// advances by its own decision alone, whatever the other members returned.
pub proof fn lemma_consumer_isolation<M, C: EventConsumer<M>>(pre: Seq<C::V>, event: EventV)
    ensures
        ({
            let outcome = <ConsumerGroup<C> as EventConsumersGroup<M>>::sp_process(pre, event);
            &&& outcome.1 is Some
            &&& outcome.0.len() == pre.len()
            &&& forall|j: int|
                0 <= j < pre.len() ==> outcome.0[j] == #[trigger] C::sp_process(pre[j], event).0
        }),
{
}

/// A consumer that records every event it observes and triggers nothing.
pub struct RecordingConsumer {
    /// The events observed, in delivery order.
    pub seen: Vec<Event>,
}

impl View for RecordingConsumer {
    type V = Seq<EventV>;

    open spec fn view(&self) -> Seq<EventV> {
        views(self.seen@)
    }
}

impl RecordingConsumer {
    /// Creates a consumer that has seen nothing yet.
    pub fn new() -> (r: Self)
        ensures
            r@ == Seq::<EventV>::empty(),
    {
        let r = RecordingConsumer { seen: Vec::new() };
        proof {
            assert(r@ =~= Seq::<EventV>::empty());
        }
        r
    }
}

impl<M> EventConsumer<M> for RecordingConsumer {
    open spec fn sp_process(pre: Seq<EventV>, event: EventV) -> (Seq<EventV>, Option<Seq<M>>) {
        (pre.push(event), Some(Seq::empty()))
    }

    fn process(&mut self, event: &Event) -> (r: Result<Vec<M>, CqrsError>) {
        self.seen.push(event.clone());
        let commands: Vec<M> = Vec::new();
        proof {
            assert(self@ =~= old(self)@.push(event@));
            assert(commands@ =~= Seq::<M>::empty());
        }
        Ok(commands)
    }
}

/// A consumer that understands exactly one payload type and refuses every
/// event whose payload is not of it. It counts the events it accepted.
pub struct StrictConsumer<P> {
    /// How many events of the expected payload type were observed.
    pub accepted: u64,
    /// Ties the consumer to the payload type it understands.
    pub marker: core::marker::PhantomData<P>,
}

impl<P> View for StrictConsumer<P> {
    type V = u64;

    open spec fn view(&self) -> u64 {
        self.accepted
    }
}

impl<P> StrictConsumer<P> {
    /// Creates a consumer that has accepted nothing yet.
    pub fn new() -> (r: Self)
        ensures
            r@ == 0u64,
    {
        StrictConsumer { accepted: 0, marker: core::marker::PhantomData }
    }
}

impl<M, P: EventPayload> EventConsumer<M> for StrictConsumer<P> {
    open spec fn sp_process(pre: u64, event: EventV) -> (u64, Option<Seq<M>>) {
        if P::sp_decode(event.payload) is Some {
            (if pre < u64::MAX {
                (pre + 1) as u64
            } else {
                pre
            }, Some(Seq::empty()))
        } else {
            (pre, None)
        }
    }

    fn process(&mut self, event: &Event) -> (r: Result<Vec<M>, CqrsError>) {
        match event.get_payload::<P>() {
            Ok(_) => {
                if self.accepted < u64::MAX {
                    self.accepted = self.accepted + 1;
                }
                let commands: Vec<M> = Vec::new();
                proof {
                    assert(commands@ =~= Seq::<M>::empty());
                }
                Ok(commands)
            },
            Err(e) => Err(e),
        }
    }
}

} // verus!
