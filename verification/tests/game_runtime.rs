//! End-to-end runs of the game aggregate: snapshots, projections, consumer
//! fan-out and queries.

use mini_cqrs_es::aggregate::apply_events;
use mini_cqrs_es::consumer::StrictConsumer;
use mini_cqrs_es::counter::CounterEvent;
use mini_cqrs_es::game::CmdAttackPlayer;
use mini_cqrs_es::game::CmdStartGame;
use mini_cqrs_es::game::GameConsumer;
use mini_cqrs_es::game::GameEvent;
use mini_cqrs_es::game::GameMainConsumer;
use mini_cqrs_es::game::GameMessage;
use mini_cqrs_es::game::GameModel;
use mini_cqrs_es::game::GameState;
use mini_cqrs_es::game::GameStatus;
use mini_cqrs_es::game::GameView;
use mini_cqrs_es::game::GetGameQuery;
use mini_cqrs_es::game::InMemoryRepository;
use mini_cqrs_es::game::Player;
use mini_cqrs_es::memory::InMemoryEventStore;
use mini_cqrs_es::memory::InMemorySnapshotStore;
use mini_cqrs_es::Aggregate;
use mini_cqrs_es::AggregateId;
use mini_cqrs_es::AggregateManager;
use mini_cqrs_es::AggregateSnapshot;
use mini_cqrs_es::ConsumerGroup;
use mini_cqrs_es::Cqrs;
use mini_cqrs_es::CqrsError;
use mini_cqrs_es::EventConsumersGroup;
use mini_cqrs_es::EventPayload;
use mini_cqrs_es::EventStore;
use mini_cqrs_es::ModelReader;
use mini_cqrs_es::QueriesRunner;
use mini_cqrs_es::Query;
use mini_cqrs_es::SimpleAggregateManager;
use mini_cqrs_es::SnapshotAggregateManager;
use mini_cqrs_es::SnapshotStore;

type GameCqrs = Cqrs<
    InMemoryEventStore,
    ConsumerGroup<GameConsumer>,
    SnapshotAggregateManager<InMemorySnapshotStore<GameState>>,
    (),
    GameMessage,
>;

fn game_cqrs() -> GameCqrs {
    Cqrs::new(
        SnapshotAggregateManager::new(InMemorySnapshotStore::new()),
        InMemoryEventStore::new(),
        ConsumerGroup::new(vec![
            GameConsumer::Main(GameMainConsumer::new(InMemoryRepository::new())),
            GameConsumer::CounterOnly(StrictConsumer::new()),
        ]),
        (),
    )
}

fn player_1() -> Player {
    Player { id: 1, points: 0 }
}

fn player_2() -> Player {
    Player { id: 2, points: 0 }
}

fn projected(cqrs: &GameCqrs, id: AggregateId) -> Option<GameModel> {
    match &cqrs.consumers().members[0] {
        GameConsumer::Main(main) => main.repo().get_game(id),
        GameConsumer::CounterOnly(..) => panic!("the main consumer comes first"),
    }
}

#[test]
fn game_scenario() {
    let id = AggregateId(1000);
    let mut cqrs = game_cqrs();

    let start = CmdStartGame { player_1: player_1(), player_2: player_2(), goal: 3 };
    cqrs.execute(id, &start).unwrap();
    let events = cqrs.event_store().load_events(id).unwrap();
    assert_eq!(events.len(), 1);
    assert_eq!(events[0].event_type, "GameStarted");
    assert_eq!(events[0].version, 1);

    let attack = CmdAttackPlayer { attacker: player_1() };
    cqrs.execute(id, &attack).unwrap();
    cqrs.execute(id, &attack).unwrap();
    let model = projected(&cqrs, id).unwrap();
    assert_eq!(model.player_1.points, 2);
    assert_eq!(model.player_2.points, 0);
    assert_eq!(model.status, GameStatus::Playing);

    // The third attack reaches the goal: one command, two events.
    cqrs.execute(id, &attack).unwrap();
    let events = cqrs.event_store().load_events(id).unwrap();
    assert_eq!(events.len(), 5);
    assert_eq!(events[3].event_type, "PlayerAttacked");
    assert_eq!(events[3].version, 4);
    assert_eq!(events[4].event_type, "GameEndedWithWinner");
    assert_eq!(events[4].version, 5);
    let winner = Player { id: 1, points: 3 };
    let model = projected(&cqrs, id).unwrap();
    assert_eq!(model.player_1.points, 3);
    assert_eq!(model.status, GameStatus::Winner(winner));

    // Once the game is over, every further command is rejected.
    let err = cqrs.execute(id, &attack).unwrap_err();
    assert!(matches!(err, CqrsError::CommandValidation { aggregate_id, .. } if aggregate_id == id));
    let err = cqrs.execute(id, &start).unwrap_err();
    assert!(matches!(err, CqrsError::CommandValidation { .. }));
    assert_eq!(cqrs.event_store().load_events(id).unwrap().len(), 5);
}

#[test]
fn winner_announcement_is_collected_for_dispatch() {
    let id = AggregateId(2000);
    let mut cqrs = game_cqrs();
    cqrs.execute(id, &CmdStartGame { player_1: player_1(), player_2: player_2(), goal: 1 })
        .unwrap();
    assert_eq!(cqrs.take_pending_commands(), Vec::<GameMessage>::new());

    cqrs.execute(id, &CmdAttackPlayer { attacker: player_2() }).unwrap();
    let pending = cqrs.take_pending_commands();
    assert_eq!(
        pending,
        vec![GameMessage::AnnounceWinner {
            aggregate_id: id,
            winner: Player { id: 2, points: 1 },
        }]
    );
    assert_eq!(cqrs.take_pending_commands(), Vec::<GameMessage>::new());
}

#[test]
fn a_consumer_that_refuses_an_event_stops_nothing() {
    let id = AggregateId(3000);
    let mut cqrs = game_cqrs();

    // Every event of this run is a game event: the counter-only member
    // refuses each one, yet execution succeeds and the main member keeps
    // projecting.
    cqrs.execute(id, &CmdStartGame { player_1: player_1(), player_2: player_2(), goal: 2 })
        .unwrap();
    cqrs.execute(id, &CmdAttackPlayer { attacker: player_1() }).unwrap();

    assert_eq!(projected(&cqrs, id).unwrap().player_1.points, 1);
    match &cqrs.consumers().members[1] {
        GameConsumer::CounterOnly(strict) => assert_eq!(strict.accepted, 0),
        GameConsumer::Main(..) => panic!("the counter-only consumer comes second"),
    }
}

#[test]
fn group_process_tolerates_a_failing_member() {
    let id = AggregateId(4000);
    let mut group: ConsumerGroup<GameConsumer> = ConsumerGroup::new(vec![
        GameConsumer::CounterOnly(StrictConsumer::new()),
        GameConsumer::Main(GameMainConsumer::new(InMemoryRepository::new())),
    ]);
    let event = mini_cqrs_es::Event::new(
        GameEvent::GameStarted {
            aggregate_id: id,
            player_1: player_1(),
            player_2: player_2(),
            goal: 9,
        },
        Some(1),
    );
    // The failing member comes first; the member after it still observes the
    // event, and the group call itself succeeds.
    let commands = group.process(&event).unwrap();
    assert_eq!(commands, Vec::<GameMessage>::new());
    match &group.members[1] {
        GameConsumer::Main(main) => {
            assert_eq!(main.repo().get_game(id).unwrap().goal, 9);
        },
        GameConsumer::CounterOnly(..) => panic!("the main consumer comes second"),
    }

    // The same member alone refuses the event outright.
    let mut strict: StrictConsumer<CounterEvent> = StrictConsumer::new();
    let err =
        mini_cqrs_es::EventConsumer::<GameMessage>::process(&mut strict, &event).unwrap_err();
    assert!(matches!(err, CqrsError::PayloadDeserialization));
}

#[test]
fn snapshot_and_replay_load_the_same_state() {
    let id = AggregateId(5000);
    let mut store = InMemoryEventStore::new();
    let history = vec![
        mini_cqrs_es::Event::new(
            GameEvent::GameStarted {
                aggregate_id: id,
                player_1: player_1(),
                player_2: player_2(),
                goal: 3,
            },
            Some(1),
        ),
        mini_cqrs_es::Event::new(
            GameEvent::PlayerAttacked { aggregate_id: id, attacker: Player { id: 1, points: 1 } },
            Some(2),
        ),
    ];
    store.save_events(id, &history).unwrap();

    let replay_manager = SimpleAggregateManager::new();
    let from_replay: GameState =
        <SimpleAggregateManager as AggregateManager<GameState, InMemoryEventStore>>::load(
            &replay_manager,
            &store,
            id,
        )
        .unwrap();

    let mut snapshot_store: InMemorySnapshotStore<GameState> = InMemorySnapshotStore::new();
    snapshot_store
        .save_snapshot(AggregateSnapshot::new(&from_replay, Some(2)))
        .unwrap();
    let snapshot_manager = SnapshotAggregateManager::new(snapshot_store);
    let from_snapshot: GameState = <SnapshotAggregateManager<
        InMemorySnapshotStore<GameState>,
    > as AggregateManager<GameState, InMemoryEventStore>>::load(
        &snapshot_manager, &store, id
    )
    .unwrap();

    assert_eq!(from_snapshot, from_replay);
    assert_eq!(from_replay.player_1.points, 1);
    assert_eq!(from_replay.goal, 3);
}

#[test]
fn snapshots_track_the_true_version() {
    let id = AggregateId(6000);
    let mut cqrs = game_cqrs();
    cqrs.execute(id, &CmdStartGame { player_1: player_1(), player_2: player_2(), goal: 5 })
        .unwrap();
    cqrs.execute(id, &CmdAttackPlayer { attacker: player_1() }).unwrap();

    // Re-run the history into a fresh snapshot-backed manager and compare
    // against the snapshot the orchestrator's manager stored.
    let events = cqrs.event_store().load_events(id).unwrap();
    let mut replayed = GameState::fresh();
    replayed.set_aggregate_id(id);
    apply_events(&mut replayed, &events).unwrap();

    // The snapshot carries the version of the last event applied.
    let snapshot = AggregateSnapshot::new(&replayed, Some(events.len() as u64));
    assert_eq!(snapshot.version, 2);
    assert_eq!(snapshot.aggregate_id, id);
    let restored: GameState = snapshot.get_payload().unwrap();
    assert_eq!(restored, replayed);
}

#[test]
fn game_event_round_trips_through_its_encoding() {
    let id = AggregateId(31);
    for payload in [
        GameEvent::GameStarted {
            aggregate_id: id,
            player_1: Player { id: 10, points: 4 },
            player_2: Player { id: 20, points: 9 },
            goal: 12,
        },
        GameEvent::PlayerAttacked { aggregate_id: id, attacker: Player { id: 10, points: 5 } },
        GameEvent::GameEndedWithWinner { aggregate_id: id, winner: Player { id: 20, points: 12 } },
    ] {
        let encoded = payload.encode();
        assert_eq!(GameEvent::decode(encoded.as_slice()), Some(payload));
    }
    assert_eq!(GameEvent::decode(&[7; 10]), None);
}

#[test]
fn game_state_round_trips_through_its_encoding() {
    let playing = GameState {
        id: AggregateId(17),
        player_1: Player { id: 1, points: 2 },
        player_2: Player { id: 2, points: 1 },
        status: GameStatus::Playing,
        goal: 3,
    };
    let won = GameState { status: GameStatus::Winner(Player { id: 2, points: 3 }), ..playing };
    for state in [playing, won] {
        let encoded = state.encode_state();
        assert_eq!(GameState::decode_state(encoded.as_slice()), Some(state));
    }
    assert_eq!(GameState::decode_state(&[1; 4]), None);
}

#[test]
fn the_read_model_is_updated_and_queried() {
    let id = AggregateId(7000);
    let mut view = GameView::new(InMemoryRepository::new());
    let model = GameModel {
        id,
        goal: 4,
        player_1: player_1(),
        player_2: player_2(),
        status: GameStatus::Playing,
    };
    view.update(model).unwrap();

    let query = GetGameQuery::new(id, view.repo());
    assert_eq!(query.apply(), Some(model));
    let missing = GetGameQuery::new(AggregateId(1), view.repo());
    assert_eq!(missing.apply(), None);

    // Updating again overwrites the projection of the same game.
    let finished = GameModel { status: GameStatus::Winner(player_2()), ..model };
    view.update(finished).unwrap();
    assert_eq!(GetGameQuery::new(id, view.repo()).apply(), Some(finished));
}

#[test]
fn queries_run_through_the_orchestrator() {
    let id = AggregateId(8000);
    let mut cqrs = game_cqrs();
    cqrs.execute(id, &CmdStartGame { player_1: player_1(), player_2: player_2(), goal: 2 })
        .unwrap();
    let query = match &cqrs.consumers().members[0] {
        GameConsumer::Main(main) => GetGameQuery::new(id, main.repo()),
        GameConsumer::CounterOnly(..) => panic!("the main consumer comes first"),
    };
    let answer = cqrs.query(&query);
    assert_eq!(answer.unwrap().goal, 2);
}

#[test]
fn a_snapshot_store_keeps_only_the_latest_snapshot() {
    let id = AggregateId(9000);
    let mut store: InMemorySnapshotStore<GameState> = InMemorySnapshotStore::new();
    let mut state = GameState::fresh();
    state.set_aggregate_id(id);
    store.save_snapshot(AggregateSnapshot::new(&state, Some(1))).unwrap();

    state.apply(&GameEvent::PlayerAttacked { aggregate_id: id, attacker: player_1() });
    store.save_snapshot(AggregateSnapshot::new(&state, Some(2))).unwrap();

    let loaded = store.load_snapshot(id).unwrap();
    assert_eq!(loaded.version, 2);
    let restored: GameState = loaded.get_payload().unwrap();
    assert_eq!(restored.player_1.points, 1);

    assert!(matches!(
        store.load_snapshot(AggregateId(1)).unwrap_err(),
        CqrsError::AggregateNotFound(..)
    ));
}

#[test]
fn without_a_snapshot_the_snapshot_manager_loads_a_fresh_state() {
    // The snapshot-based manager does not consult the event history: an
    // aggregate with events but no snapshot yet loads as a fresh instance
    // with its identity set.
    let id = AggregateId(9100);
    let mut store = InMemoryEventStore::new();
    let history = vec![mini_cqrs_es::Event::new(
        GameEvent::GameStarted {
            aggregate_id: id,
            player_1: player_1(),
            player_2: player_2(),
            goal: 3,
        },
        Some(1),
    )];
    store.save_events(id, &history).unwrap();

    let manager = SnapshotAggregateManager::new(InMemorySnapshotStore::<GameState>::new());
    let loaded: GameState = <SnapshotAggregateManager<
        InMemorySnapshotStore<GameState>,
    > as AggregateManager<GameState, InMemoryEventStore>>::load(&manager, &store, id)
    .unwrap();
    let mut fresh = GameState::fresh();
    fresh.set_aggregate_id(id);
    assert_eq!(loaded, fresh);
}

#[test]
fn an_undecodable_snapshot_falls_back_to_a_fresh_state() {
    let id = AggregateId(9200);
    let mut store: InMemorySnapshotStore<GameState> = InMemorySnapshotStore::new();
    let stale = AggregateSnapshot {
        aggregate_id: id,
        payload: vec![0xde, 0xad, 0xbe, 0xef],
        version: 3,
        marker: std::marker::PhantomData,
    };
    store.save_snapshot(stale).unwrap();

    let manager = SnapshotAggregateManager::new(store);
    let loaded: GameState = <SnapshotAggregateManager<
        InMemorySnapshotStore<GameState>,
    > as AggregateManager<GameState, InMemoryEventStore>>::load(
        &manager,
        &InMemoryEventStore::new(),
        id,
    )
    .unwrap();
    let mut fresh = GameState::fresh();
    fresh.set_aggregate_id(id);
    assert_eq!(loaded, fresh);
}
