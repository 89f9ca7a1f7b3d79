//! A minimal counter domain: the smallest complete aggregate.
//!
//! The counter responds to increment and decrement commands, emitting one
//! event per accepted command. It exists to exercise the runtime end to end
//! and to ground the aggregate, payload and command contracts.

use vstd::bytes::lemma_auto_spec_u128_to_from_le_bytes;
use vstd::bytes::lemma_auto_spec_u32_to_from_le_bytes;
use vstd::bytes::spec_u128_from_le_bytes;
use vstd::bytes::spec_u128_to_le_bytes;
use vstd::bytes::spec_u32_from_le_bytes;
use vstd::bytes::spec_u32_to_le_bytes;
use vstd::prelude::*;

use crate::aggregate::Aggregate;
use crate::codec::push_u128;
use crate::codec::push_u32;
use crate::codec::read_u128;
use crate::codec::read_u32;
use crate::codec::read_u8;
use crate::command::Command;
use crate::error::CqrsError;
use crate::error::ErrorV;
use crate::events::sp_event_of;
use crate::events::views;
use crate::events::Event;
use crate::events::EventPayload;
use crate::events::EventV;
use crate::ids::AggregateId;

verus! {

/// The payload tag of [`CounterEvent::Incremented`].
pub const TAG_INCREMENTED: u8 = 1;

/// The payload tag of [`CounterEvent::Decremented`].
pub const TAG_DECREMENTED: u8 = 2;

/// The byte length of an encoded [`CounterEvent`]: tag, identity, amount.
pub const COUNTER_EVENT_LEN: usize = 21;

/// The byte length of an encoded [`CounterState`]: identity, count.
pub const COUNTER_STATE_LEN: usize = 20;

/// The state of one counter.
#[derive(Clone, Copy, Debug, PartialEq, Eq, Structural)]
pub struct CounterState {
    /// The aggregate identity of this counter.
    pub id: AggregateId,
    /// The current count.
    pub count: u32,
}

/// A change that already happened to a counter. Applying saturates at the
/// bounds of the count, so that applying never fails; commands reject
/// requests that would overflow before any event is produced.
#[derive(Clone, Copy, Debug, PartialEq, Eq, Structural)]
pub enum CounterEvent {
    /// The counter went up by `amount`.
    Incremented { aggregate_id: AggregateId, amount: u32 },
    /// The counter went down by `amount`.
    Decremented { aggregate_id: AggregateId, amount: u32 },
}

impl EventPayload for CounterEvent {
    open spec fn sp_aggregate_id(&self) -> AggregateId {
        match *self {
            CounterEvent::Incremented { aggregate_id, .. } => aggregate_id,
            CounterEvent::Decremented { aggregate_id, .. } => aggregate_id,
        }
    }

    open spec fn sp_name(&self) -> Seq<char> {
        match *self {
            CounterEvent::Incremented { .. } => "Incremented"@,
            CounterEvent::Decremented { .. } => "Decremented"@,
        }
    }

    open spec fn sp_encode(&self) -> Seq<u8> {
        match *self {
            CounterEvent::Incremented { aggregate_id, amount } => seq![TAG_INCREMENTED]
                + spec_u128_to_le_bytes(aggregate_id.0) + spec_u32_to_le_bytes(amount),
            CounterEvent::Decremented { aggregate_id, amount } => seq![TAG_DECREMENTED]
                + spec_u128_to_le_bytes(aggregate_id.0) + spec_u32_to_le_bytes(amount),
        }
    }

    open spec fn sp_decode(bytes: Seq<u8>) -> Option<CounterEvent> {
        if bytes.len() == COUNTER_EVENT_LEN && bytes[0] == TAG_INCREMENTED {
            Some(
                CounterEvent::Incremented {
                    aggregate_id: AggregateId(spec_u128_from_le_bytes(bytes.subrange(1, 17))),
                    amount: spec_u32_from_le_bytes(bytes.subrange(17, 21)),
                },
            )
        } else if bytes.len() == COUNTER_EVENT_LEN && bytes[0] == TAG_DECREMENTED {
            Some(
                CounterEvent::Decremented {
                    aggregate_id: AggregateId(spec_u128_from_le_bytes(bytes.subrange(1, 17))),
                    amount: spec_u32_from_le_bytes(bytes.subrange(17, 21)),
                },
            )
        } else {
            None
        }
    }

    fn aggregate_id(&self) -> AggregateId {
        match self {
            CounterEvent::Incremented { aggregate_id, .. } => *aggregate_id,
            CounterEvent::Decremented { aggregate_id, .. } => *aggregate_id,
        }
    }

    fn name(&self) -> String {
        match self {
            CounterEvent::Incremented { .. } => "Incremented".to_owned(),
            CounterEvent::Decremented { .. } => "Decremented".to_owned(),
        }
    }

    fn encode(&self) -> (r: Vec<u8>) {
        let mut out: Vec<u8> = Vec::new();
        match self {
            CounterEvent::Incremented { aggregate_id, amount } => {
                out.push(TAG_INCREMENTED);
                push_u128(&mut out, aggregate_id.0);
                push_u32(&mut out, *amount);
                proof {
                    assert(out@ =~= seq![TAG_INCREMENTED] + spec_u128_to_le_bytes(aggregate_id.0)
                        + spec_u32_to_le_bytes(*amount));
                }
            },
            CounterEvent::Decremented { aggregate_id, amount } => {
                out.push(TAG_DECREMENTED);
                push_u128(&mut out, aggregate_id.0);
                push_u32(&mut out, *amount);
                proof {
                    assert(out@ =~= seq![TAG_DECREMENTED] + spec_u128_to_le_bytes(aggregate_id.0)
                        + spec_u32_to_le_bytes(*amount));
                }
            },
        }
        out
    }

    fn decode(bytes: &[u8]) -> (r: Option<Self>) {
        if bytes.len() != COUNTER_EVENT_LEN {
            return None;
        }
        let tag = read_u8(bytes, 0);
        if tag == TAG_INCREMENTED {
            Some(
                CounterEvent::Incremented {
                    aggregate_id: AggregateId(read_u128(bytes, 1)),
                    amount: read_u32(bytes, 17),
                },
            )
        } else if tag == TAG_DECREMENTED {
            Some(
                CounterEvent::Decremented {
                    aggregate_id: AggregateId(read_u128(bytes, 1)),
                    amount: read_u32(bytes, 17),
                },
            )
        } else {
            None
        }
    }

    proof fn lemma_decode_encode(&self) {
        lemma_auto_spec_u128_to_from_le_bytes();
        lemma_auto_spec_u32_to_from_le_bytes();
        let e = self.sp_encode();
        match *self {
            CounterEvent::Incremented { aggregate_id, amount } => {
                assert(e[0] == TAG_INCREMENTED);
                assert(e.subrange(1, 17) =~= spec_u128_to_le_bytes(aggregate_id.0));
                assert(e.subrange(17, 21) =~= spec_u32_to_le_bytes(amount));
            },
            CounterEvent::Decremented { aggregate_id, amount } => {
                assert(e[0] == TAG_DECREMENTED);
                assert(e.subrange(1, 17) =~= spec_u128_to_le_bytes(aggregate_id.0));
                assert(e.subrange(17, 21) =~= spec_u32_to_le_bytes(amount));
            },
        }
    }
}

impl Aggregate for CounterState {
    type Event = CounterEvent;

    open spec fn sp_fresh() -> CounterState {
        CounterState { id: AggregateId(0), count: 0u32 }
    }

    open spec fn sp_id(&self) -> AggregateId {
        self.id
    }

    open spec fn sp_with_id(&self, id: AggregateId) -> CounterState {
        CounterState { id, count: self.count }
    }

    open spec fn sp_apply(&self, event: CounterEvent) -> CounterState {
        match event {
            CounterEvent::Incremented { amount, .. } => CounterState {
                id: self.id,
                count: if self.count + amount <= u32::MAX {
                    (self.count + amount) as u32
                } else {
                    u32::MAX
                },
            },
            CounterEvent::Decremented { amount, .. } => CounterState {
                id: self.id,
                count: if amount <= self.count {
                    (self.count - amount) as u32
                } else {
                    0u32
                },
            },
        }
    }

    open spec fn sp_encode_state(&self) -> Seq<u8> {
        spec_u128_to_le_bytes(self.id.0) + spec_u32_to_le_bytes(self.count)
    }

    open spec fn sp_decode_state(bytes: Seq<u8>) -> Option<CounterState> {
        if bytes.len() == COUNTER_STATE_LEN {
            Some(
                CounterState {
                    id: AggregateId(spec_u128_from_le_bytes(bytes.subrange(0, 16))),
                    count: spec_u32_from_le_bytes(bytes.subrange(16, 20)),
                },
            )
        } else {
            None
        }
    }

    fn fresh() -> CounterState {
        CounterState { id: AggregateId(0), count: 0 }
    }

    fn aggregate_id(&self) -> AggregateId {
        self.id
    }

    fn set_aggregate_id(&mut self, id: AggregateId) {
        self.id = id;
    }

    fn apply(&mut self, event: &CounterEvent) {
        match event {
            CounterEvent::Incremented { amount, .. } => {
                if self.count <= u32::MAX - *amount {
                    self.count = self.count + *amount;
                } else {
                    self.count = u32::MAX;
                }
            },
            CounterEvent::Decremented { amount, .. } => {
                if *amount <= self.count {
                    self.count = self.count - *amount;
                } else {
                    self.count = 0;
                }
            },
        }
    }

    fn encode_state(&self) -> (r: Vec<u8>) {
        let mut out: Vec<u8> = Vec::new();
        push_u128(&mut out, self.id.0);
        push_u32(&mut out, self.count);
        proof {
            assert(out@ =~= spec_u128_to_le_bytes(self.id.0) + spec_u32_to_le_bytes(self.count));
        }
        out
    }

    fn decode_state(bytes: &[u8]) -> (r: Option<CounterState>) {
        if bytes.len() != COUNTER_STATE_LEN {
            return None;
        }
        Some(CounterState { id: AggregateId(read_u128(bytes, 0)), count: read_u32(bytes, 16) })
    }

    proof fn lemma_decode_encode_state(&self) {
        lemma_auto_spec_u128_to_from_le_bytes();
        lemma_auto_spec_u32_to_from_le_bytes();
        let e = self.sp_encode_state();
        assert(e.subrange(0, 16) =~= spec_u128_to_le_bytes(self.id.0));
        assert(e.subrange(16, 20) =~= spec_u32_to_le_bytes(self.count));
    }

    proof fn lemma_apply_preserves_id(&self, event: CounterEvent) {
    }
}

/// A request to move one counter up or down.
#[derive(Clone, Copy, Debug, PartialEq, Eq, Structural)]
pub enum CounterCommand {
    /// Add the amount to the count; rejected when the count would overflow.
    Increment(u32),
    /// Subtract the amount from the count; rejected when the amount exceeds
    /// the current count.
    Decrement(u32),
}

impl Command<()> for CounterCommand {
    type Aggregate = CounterState;

    open spec fn sp_handle(&self, aggregate: CounterState, context: ()) -> Result<
        Seq<EventV>,
        ErrorV,
    > {
        match *self {
            CounterCommand::Increment(amount) => {
                if aggregate.count + amount <= u32::MAX {
                    Ok(
                        seq![
                            sp_event_of(
                                CounterEvent::Incremented { aggregate_id: aggregate.id, amount },
                            ),
                        ],
                    )
                } else {
                    Err(ErrorV::CommandValidation { aggregate_id: aggregate.id })
                }
            },
            CounterCommand::Decrement(amount) => {
                if amount <= aggregate.count {
                    Ok(
                        seq![
                            sp_event_of(
                                CounterEvent::Decremented { aggregate_id: aggregate.id, amount },
                            ),
                        ],
                    )
                } else {
                    Err(ErrorV::CommandValidation { aggregate_id: aggregate.id })
                }
            },
        }
    }

    fn handle(&self, aggregate: &CounterState, context: &()) -> (r: Result<Vec<Event>, CqrsError>) {
        match self {
            CounterCommand::Increment(amount) => {
                if *amount <= u32::MAX - aggregate.count {
                    let payload = CounterEvent::Incremented {
                        aggregate_id: aggregate.id,
                        amount: *amount,
                    };
                    let mut events: Vec<Event> = Vec::new();
                    events.push(Event::new(payload, None));
                    proof {
                        assert(views(events@) =~= seq![sp_event_of(payload)]);
                    }
                    Ok(events)
                } else {
                    Err(
                        CqrsError::CommandValidation {
                            aggregate_id: aggregate.id,
                            reason: "increment would overflow the counter".to_owned(),
                        },
                    )
                }
            },
            CounterCommand::Decrement(amount) => {
                if *amount <= aggregate.count {
                    let payload = CounterEvent::Decremented {
                        aggregate_id: aggregate.id,
                        amount: *amount,
                    };
                    let mut events: Vec<Event> = Vec::new();
                    events.push(Event::new(payload, None));
                    proof {
                        assert(views(events@) =~= seq![sp_event_of(payload)]);
                    }
                    Ok(events)
                } else {
                    Err(
                        CqrsError::CommandValidation {
                            aggregate_id: aggregate.id,
                            reason: "decrement amount exceeds the current count".to_owned(),
                        },
                    )
                }
            },
        }
    }
}

/// A request to increment a counter named by the command itself.
///
/// The command tags its event with `counter`, not with the identity it is
/// executed against; the orchestrator's validation step rejects the command
/// whenever the two differ, before anything is persisted.
#[derive(Clone, Copy, Debug, PartialEq, Eq, Structural)]
pub struct IncrementCounter {
    /// The counter the increment is meant for.
    pub counter: AggregateId,
    /// The amount to add; applying saturates at the top of the range.
    pub amount: u32,
}

impl Command<()> for IncrementCounter {
    type Aggregate = CounterState;

    open spec fn sp_handle(&self, aggregate: CounterState, context: ()) -> Result<
        Seq<EventV>,
        ErrorV,
    > {
        Ok(
            seq![
                sp_event_of(
                    CounterEvent::Incremented { aggregate_id: self.counter, amount: self.amount },
                ),
            ],
        )
    }

    fn handle(&self, aggregate: &CounterState, context: &()) -> (r: Result<Vec<Event>, CqrsError>) {
        let payload = CounterEvent::Incremented {
            aggregate_id: self.counter,
            amount: self.amount,
        };
        let mut events: Vec<Event> = Vec::new();
        events.push(Event::new(payload, None));
        proof {
            assert(views(events@) =~= seq![sp_event_of(payload)]);
        }
        Ok(events)
    }
}

} // verus!
