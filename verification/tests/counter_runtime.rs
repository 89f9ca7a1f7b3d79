//! End-to-end runs of the counter aggregate through the orchestrator, and
//! the runtime guarantees observable on them.

use mini_cqrs_es::aggregate::apply_events;
use mini_cqrs_es::consumer::RecordingConsumer;
use mini_cqrs_es::counter::CounterCommand;
use mini_cqrs_es::counter::CounterEvent;
use mini_cqrs_es::counter::CounterState;
use mini_cqrs_es::counter::IncrementCounter;
use mini_cqrs_es::memory::InMemoryEventStore;
use mini_cqrs_es::Aggregate;
use mini_cqrs_es::AggregateId;
use mini_cqrs_es::AggregateManager;
use mini_cqrs_es::ConsumerGroup;
use mini_cqrs_es::Cqrs;
use mini_cqrs_es::CqrsError;
use mini_cqrs_es::Event;
use mini_cqrs_es::EventPayload;
use mini_cqrs_es::EventStore;
use mini_cqrs_es::SimpleAggregateManager;

type CounterCqrs = Cqrs<InMemoryEventStore, ConsumerGroup<RecordingConsumer>, SimpleAggregateManager, (), u32>;

fn counter_cqrs() -> CounterCqrs {
    Cqrs::new(
        SimpleAggregateManager::new(),
        InMemoryEventStore::new(),
        ConsumerGroup::new(vec![RecordingConsumer::new()]),
        (),
    )
}

fn counter_state(cqrs: &CounterCqrs, id: AggregateId) -> CounterState {
    let manager = SimpleAggregateManager::new();
    <SimpleAggregateManager as AggregateManager<CounterState, InMemoryEventStore>>::load(
        &manager,
        cqrs.event_store(),
        id,
    )
    .unwrap()
}

#[test]
fn counter_scenario() {
    let id = AggregateId(12345);
    let mut cqrs = counter_cqrs();

    cqrs.execute(id, &CounterCommand::Increment(10)).unwrap();
    assert_eq!(counter_state(&cqrs, id).count, 10);
    let events = cqrs.event_store().load_events(id).unwrap();
    assert_eq!(events.len(), 1);
    assert_eq!(events[0].version, 1);
    assert_eq!(events[0].event_type, "Incremented");
    assert_eq!(events[0].aggregate_id, id);

    cqrs.execute(id, &CounterCommand::Decrement(3)).unwrap();
    assert_eq!(counter_state(&cqrs, id).count, 7);
    let events = cqrs.event_store().load_events(id).unwrap();
    assert_eq!(events.len(), 2);
    assert_eq!(events[1].version, 2);
    assert_eq!(events[1].event_type, "Decremented");

    let err = cqrs.execute(id, &CounterCommand::Decrement(10)).unwrap_err();
    assert!(matches!(err, CqrsError::CommandValidation { aggregate_id, .. } if aggregate_id == id));
    assert_eq!(counter_state(&cqrs, id).count, 7);
    assert_eq!(cqrs.event_store().load_events(id).unwrap().len(), 2);
}

#[test]
fn versions_are_gapless_and_start_at_one() {
    let id = AggregateId(7);
    let mut cqrs = counter_cqrs();
    for _ in 0..5 {
        cqrs.execute(id, &CounterCommand::Increment(1)).unwrap();
    }
    let events = cqrs.event_store().load_events(id).unwrap();
    assert_eq!(events.len(), 5);
    for (i, event) in events.iter().enumerate() {
        assert_eq!(event.version, i as u64 + 1);
    }
}

#[test]
fn rejection_has_no_side_effects() {
    let id = AggregateId(3);
    let mut cqrs = counter_cqrs();
    cqrs.execute(id, &CounterCommand::Increment(4)).unwrap();
    let before = cqrs.event_store().load_events(id).unwrap();

    let err = cqrs.execute(id, &CounterCommand::Decrement(5)).unwrap_err();
    assert!(matches!(err, CqrsError::CommandValidation { .. }));

    let after = cqrs.event_store().load_events(id).unwrap();
    assert_eq!(before.len(), after.len());
    for (b, a) in before.iter().zip(after.iter()) {
        assert_eq!(b.id, a.id);
        assert_eq!(b.event_type, a.event_type);
        assert_eq!(b.aggregate_id, a.aggregate_id);
        assert_eq!(b.payload, a.payload);
        assert_eq!(b.version, a.version);
    }
}

#[test]
fn mismatched_aggregate_identity_is_rejected_and_persists_nothing() {
    let target = AggregateId(1);
    let elsewhere = AggregateId(99);
    let mut cqrs = counter_cqrs();

    let err = cqrs
        .execute(target, &IncrementCounter { counter: elsewhere, amount: 5 })
        .unwrap_err();
    assert!(
        matches!(err, CqrsError::CommandValidation { aggregate_id, .. } if aggregate_id == target)
    );
    assert!(matches!(
        cqrs.event_store().load_events(target).unwrap_err(),
        CqrsError::AggregateNotFound(..)
    ));
    assert!(matches!(
        cqrs.event_store().load_events(elsewhere).unwrap_err(),
        CqrsError::AggregateNotFound(..)
    ));
}

#[test]
fn matching_targeted_increment_is_accepted() {
    let id = AggregateId(42);
    let mut cqrs = counter_cqrs();
    cqrs.execute(id, &IncrementCounter { counter: id, amount: 6 }).unwrap();
    assert_eq!(counter_state(&cqrs, id).count, 6);
}

#[test]
fn replay_is_deterministic() {
    let id = AggregateId(11);
    let events = vec![
        Event::new(CounterEvent::Incremented { aggregate_id: id, amount: 9 }, Some(1)),
        Event::new(CounterEvent::Decremented { aggregate_id: id, amount: 4 }, Some(2)),
        Event::new(CounterEvent::Incremented { aggregate_id: id, amount: 2 }, Some(3)),
    ];
    let mut first = CounterState::fresh();
    first.set_aggregate_id(id);
    let mut second = CounterState::fresh();
    second.set_aggregate_id(id);
    apply_events(&mut first, &events).unwrap();
    apply_events(&mut second, &events).unwrap();
    assert_eq!(first, second);
    assert_eq!(first.count, 7);
}

#[test]
fn counter_event_round_trips_through_its_encoding() {
    let id = AggregateId(77);
    for payload in [
        CounterEvent::Incremented { aggregate_id: id, amount: 3 },
        CounterEvent::Decremented { aggregate_id: id, amount: u32::MAX },
    ] {
        let encoded = payload.encode();
        assert_eq!(CounterEvent::decode(encoded.as_slice()), Some(payload));
    }
    assert_eq!(CounterEvent::decode(&[]), None);
    assert_eq!(CounterEvent::decode(&[9; 21]), None);
}

#[test]
fn counter_state_round_trips_through_its_encoding() {
    let state = CounterState { id: AggregateId(5), count: 1234 };
    let encoded = state.encode_state();
    assert_eq!(CounterState::decode_state(encoded.as_slice()), Some(state));
    assert_eq!(CounterState::decode_state(&[0; 3]), None);
}

#[test]
fn envelope_carries_the_payload_and_the_version() {
    let id = AggregateId(8);
    let payload = CounterEvent::Incremented { aggregate_id: id, amount: 2 };
    let event = Event::new(payload, None);
    assert_eq!(event.version, 1);
    assert_eq!(event.event_type, "Incremented");
    assert_eq!(event.aggregate_id, id);
    assert_eq!(event.get_payload::<CounterEvent>().unwrap(), payload);

    let versioned = Event::new(payload, Some(41));
    assert_eq!(versioned.version, 41);
}

#[test]
fn foreign_payload_fails_to_deserialize() {
    let id = AggregateId(8);
    let event = Event::new(CounterEvent::Incremented { aggregate_id: id, amount: 2 }, None);
    let err = event
        .get_payload::<mini_cqrs_es::game::GameEvent>()
        .unwrap_err();
    assert!(matches!(err, CqrsError::PayloadDeserialization));
    assert_eq!(err.kind_name(), "payload deserialization failed");
}

#[test]
fn store_refuses_a_batch_that_does_not_continue_the_versions() {
    let id = AggregateId(4);
    let mut store = InMemoryEventStore::new();
    let good = vec![Event::new(
        CounterEvent::Incremented { aggregate_id: id, amount: 1 },
        Some(1),
    )];
    store.save_events(id, &good).unwrap();

    let stale = vec![Event::new(
        CounterEvent::Incremented { aggregate_id: id, amount: 1 },
        Some(1),
    )];
    let err = store.save_events(id, &stale).unwrap_err();
    assert!(matches!(
        err,
        CqrsError::Concurrency { aggregate_id, expected: 2, actual: 1 } if aggregate_id == id
    ));
    assert_eq!(store.load_events(id).unwrap().len(), 1);
}

#[test]
fn unknown_aggregate_is_reported_as_not_found() {
    let store = InMemoryEventStore::new();
    let err = store.load_events(AggregateId(1)).unwrap_err();
    assert!(matches!(err, CqrsError::AggregateNotFound(AggregateId(1))));
    assert_eq!(err.kind_name(), "aggregate not found");
}

#[test]
fn recording_consumer_observes_committed_events_in_order() {
    let id = AggregateId(21);
    let mut cqrs = counter_cqrs();
    cqrs.execute(id, &CounterCommand::Increment(2)).unwrap();
    cqrs.execute(id, &CounterCommand::Decrement(1)).unwrap();
    let seen = &cqrs.consumers().members[0].seen;
    assert_eq!(seen.len(), 2);
    assert_eq!(seen[0].event_type, "Incremented");
    assert_eq!(seen[0].version, 1);
    assert_eq!(seen[1].event_type, "Decremented");
    assert_eq!(seen[1].version, 2);
}

#[test]
fn increments_that_would_overflow_are_rejected() {
    let id = AggregateId(66);
    let mut cqrs = counter_cqrs();
    cqrs.execute(id, &CounterCommand::Increment(u32::MAX)).unwrap();
    let err = cqrs.execute(id, &CounterCommand::Increment(1)).unwrap_err();
    assert!(matches!(err, CqrsError::CommandValidation { .. }));
    assert_eq!(counter_state(&cqrs, id).count, u32::MAX);
}

#[test]
fn applying_saturates_at_the_bounds() {
    let id = AggregateId(67);
    let mut state = CounterState { id, count: u32::MAX - 1 };
    state.apply(&CounterEvent::Incremented { aggregate_id: id, amount: 10 });
    assert_eq!(state.count, u32::MAX);
    state.apply(&CounterEvent::Decremented { aggregate_id: id, amount: u32::MAX });
    assert_eq!(state.count, 0);
    state.apply(&CounterEvent::Decremented { aggregate_id: id, amount: 1 });
    assert_eq!(state.count, 0);
}

#[test]
fn aggregates_do_not_interfere() {
    let left = AggregateId(1);
    let right = AggregateId(2);
    let mut cqrs = counter_cqrs();
    cqrs.execute(left, &CounterCommand::Increment(5)).unwrap();
    cqrs.execute(right, &CounterCommand::Increment(9)).unwrap();
    cqrs.execute(left, &CounterCommand::Decrement(1)).unwrap();
    assert_eq!(counter_state(&cqrs, left).count, 4);
    assert_eq!(counter_state(&cqrs, right).count, 9);
    assert_eq!(cqrs.event_store().load_events(left).unwrap().len(), 2);
    assert_eq!(cqrs.event_store().load_events(right).unwrap().len(), 1);
    let versions: Vec<u64> = cqrs
        .event_store()
        .load_events(right)
        .unwrap()
        .iter()
        .map(|e| e.version)
        .collect();
    assert_eq!(versions, vec![1]);
}

#[test]
fn every_error_kind_describes_itself() {
    let id = AggregateId(1);
    let kinds = [
        (CqrsError::PayloadDeserialization, "payload deserialization failed"),
        (
            CqrsError::StoreOperation { aggregate_id: id, reason: "disk gone".to_string() },
            "event store operation failed",
        ),
        (
            CqrsError::Concurrency { aggregate_id: id, expected: 2, actual: 1 },
            "concurrency conflict",
        ),
        (CqrsError::AggregateNotFound(id), "aggregate not found"),
        (
            CqrsError::CommandValidation { aggregate_id: id, reason: "no".to_string() },
            "command validation failed",
        ),
        (CqrsError::Snapshot("full".to_string()), "snapshot operation failed"),
        (CqrsError::CommandDispatch("closed".to_string()), "command dispatch failed"),
        (CqrsError::Generic("other".to_string()), "generic error"),
    ];
    for (error, description) in kinds {
        assert_eq!(error.kind_name(), description);
    }
}

#[test]
fn fresh_identities_are_distinct() {
    let first = mini_cqrs_es::fresh_aggregate_id();
    let second = mini_cqrs_es::fresh_aggregate_id();
    assert_ne!(first, second);
}
