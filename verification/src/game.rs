//! A turn-based game domain: a richer aggregate with cascading events.
//!
//! Two players attack each other; each attack scores one point, and the
//! attack that reaches the goal also ends the game — one command, two events.
//! Once a winner is decided every further command is rejected. The module
//! also carries the game's read side: a projection updated by a consumer,
//! with a query over it.

use vstd::bytes::lemma_auto_spec_u128_to_from_le_bytes;
use vstd::bytes::lemma_auto_spec_u32_to_from_le_bytes;
use vstd::bytes::lemma_auto_spec_u64_to_from_le_bytes;
use vstd::bytes::spec_u128_from_le_bytes;
use vstd::bytes::spec_u128_to_le_bytes;
use vstd::bytes::spec_u32_from_le_bytes;
use vstd::bytes::spec_u32_to_le_bytes;
use vstd::bytes::spec_u64_from_le_bytes;
use vstd::bytes::spec_u64_to_le_bytes;
use vstd::prelude::*;

use crate::aggregate::Aggregate;
use crate::codec::push_u128;
use crate::codec::push_u32;
use crate::codec::push_u64;
use crate::codec::read_u128;
use crate::codec::read_u32;
use crate::codec::read_u64;
use crate::codec::read_u8;
use crate::command::Command;
use crate::consumer::EventConsumer;
use crate::consumer::StrictConsumer;
use crate::counter::CounterEvent;
use crate::error::CqrsError;
use crate::error::ErrorV;
use crate::events::sp_event_of;
use crate::events::views;
use crate::events::Event;
use crate::events::EventPayload;
use crate::events::EventV;
use crate::ids::AggregateId;
use crate::query::ModelReader;
use crate::query::Query;
use crate::repository::Repository;

verus! {

/// The payload tag of [`GameEvent::GameStarted`].
pub const TAG_GAME_STARTED: u8 = 1;

/// The payload tag of [`GameEvent::PlayerAttacked`].
pub const TAG_PLAYER_ATTACKED: u8 = 2;

/// The payload tag of [`GameEvent::GameEndedWithWinner`].
pub const TAG_GAME_ENDED: u8 = 3;

/// The byte length of an encoded [`Player`]: id, points.
pub const PLAYER_LEN: usize = 12;

/// The byte length of an encoded [`GameEvent::GameStarted`].
pub const GAME_STARTED_LEN: usize = 45;

/// The byte length of the other encoded [`GameEvent`] variants.
pub const GAME_TURN_LEN: usize = 29;

/// The byte length of an encoded [`GameState`].
pub const GAME_STATE_LEN: usize = 57;

/// One of the two players, with the points scored so far.
#[derive(Clone, Copy, Debug, PartialEq, Eq, Structural)]
pub struct Player {
    /// The player's identity within the game.
    pub id: u64,
    /// The points scored so far.
    pub points: u32,
}

/// Whether the game is still being played or was won.
#[derive(Clone, Copy, Debug, PartialEq, Eq, Structural)]
pub enum GameStatus {
    /// The game accepts attacks.
    Playing,
    /// The game ended; no further command is accepted.
    Winner(Player),
}

/// The byte encoding of a player.
pub open spec fn sp_player_bytes(player: Player) -> Seq<u8> {
    spec_u64_to_le_bytes(player.id) + spec_u32_to_le_bytes(player.points)
}

/// The player encoded by 12 bytes.
pub open spec fn sp_player_from(bytes: Seq<u8>) -> Player
    recommends
        bytes.len() == PLAYER_LEN,
{
    Player {
        id: spec_u64_from_le_bytes(bytes.subrange(0, 8)),
        points: spec_u32_from_le_bytes(bytes.subrange(8, 12)),
    }
}

/// A player's encoding decodes back to the player.
proof fn lemma_player_roundtrip(player: Player)
    ensures
        sp_player_bytes(player).len() == PLAYER_LEN,
        sp_player_from(sp_player_bytes(player)) == player,
{
    lemma_auto_spec_u64_to_from_le_bytes();
    lemma_auto_spec_u32_to_from_le_bytes();
    let s = sp_player_bytes(player);
    assert(s.subrange(0, 8) =~= spec_u64_to_le_bytes(player.id));
    assert(s.subrange(8, 12) =~= spec_u32_to_le_bytes(player.points));
}

/// Appends the 12 bytes of `player`.
fn push_player(out: &mut Vec<u8>, player: &Player)
    ensures
        final(out)@ == old(out)@ + sp_player_bytes(*player),
{
    let ghost start = out@;
    push_u64(out, player.id);
    push_u32(out, player.points);
    proof {
        assert(out@ =~= start + sp_player_bytes(*player));
    }
}

/// Reads the player whose 12 bytes sit at `offset`.
fn read_player(bytes: &[u8], offset: usize) -> (r: Player)
    requires
        offset + PLAYER_LEN <= bytes@.len(),
    ensures
        r == sp_player_from(bytes@.subrange(offset as int, offset as int + PLAYER_LEN)),
{
    // Bind the length so that the end offset provably fits in usize.
    let _len = bytes.len();
    let id = read_u64(bytes, offset);
    let points = read_u32(bytes, offset + 8);
    proof {
        let o = offset as int;
        let s = bytes@.subrange(o, o + PLAYER_LEN);
        assert(s.subrange(0, 8) =~= bytes@.subrange(o, o + 8));
        assert(s.subrange(8, 12) =~= bytes@.subrange(o + 8, o + 12));
    }
    Player { id, points }
}

/// A change that already happened to a game.
#[derive(Clone, Copy, Debug, PartialEq, Eq, Structural)]
pub enum GameEvent {
    /// The game was set up with two players and a goal.
    GameStarted { aggregate_id: AggregateId, player_1: Player, player_2: Player, goal: u32 },
    /// The attacker scored one point; `attacker` carries the new score.
    PlayerAttacked { aggregate_id: AggregateId, attacker: Player },
    /// The goal was reached; the game is over.
    GameEndedWithWinner { aggregate_id: AggregateId, winner: Player },
}

impl EventPayload for GameEvent {
    open spec fn sp_aggregate_id(&self) -> AggregateId {
        match *self {
            GameEvent::GameStarted { aggregate_id, .. } => aggregate_id,
            GameEvent::PlayerAttacked { aggregate_id, .. } => aggregate_id,
            GameEvent::GameEndedWithWinner { aggregate_id, .. } => aggregate_id,
        }
    }

    open spec fn sp_name(&self) -> Seq<char> {
        match *self {
            GameEvent::GameStarted { .. } => "GameStarted"@,
            GameEvent::PlayerAttacked { .. } => "PlayerAttacked"@,
            GameEvent::GameEndedWithWinner { .. } => "GameEndedWithWinner"@,
        }
    }

    open spec fn sp_encode(&self) -> Seq<u8> {
        match *self {
            GameEvent::GameStarted { aggregate_id, player_1, player_2, goal } => seq![
                TAG_GAME_STARTED,
            ] + spec_u128_to_le_bytes(aggregate_id.0) + sp_player_bytes(player_1)
                + sp_player_bytes(player_2) + spec_u32_to_le_bytes(goal),
            GameEvent::PlayerAttacked { aggregate_id, attacker } => seq![TAG_PLAYER_ATTACKED]
                + spec_u128_to_le_bytes(aggregate_id.0) + sp_player_bytes(attacker),
            GameEvent::GameEndedWithWinner { aggregate_id, winner } => seq![TAG_GAME_ENDED]
                + spec_u128_to_le_bytes(aggregate_id.0) + sp_player_bytes(winner),
        }
    }

    open spec fn sp_decode(bytes: Seq<u8>) -> Option<GameEvent> {
        if bytes.len() == GAME_STARTED_LEN && bytes[0] == TAG_GAME_STARTED {
            Some(
                GameEvent::GameStarted {
                    aggregate_id: AggregateId(spec_u128_from_le_bytes(bytes.subrange(1, 17))),
                    player_1: sp_player_from(bytes.subrange(17, 29)),
                    player_2: sp_player_from(bytes.subrange(29, 41)),
                    goal: spec_u32_from_le_bytes(bytes.subrange(41, 45)),
                },
            )
        } else if bytes.len() == GAME_TURN_LEN && bytes[0] == TAG_PLAYER_ATTACKED {
            Some(
                GameEvent::PlayerAttacked {
                    aggregate_id: AggregateId(spec_u128_from_le_bytes(bytes.subrange(1, 17))),
                    attacker: sp_player_from(bytes.subrange(17, 29)),
                },
            )
        } else if bytes.len() == GAME_TURN_LEN && bytes[0] == TAG_GAME_ENDED {
            Some(
                GameEvent::GameEndedWithWinner {
                    aggregate_id: AggregateId(spec_u128_from_le_bytes(bytes.subrange(1, 17))),
                    winner: sp_player_from(bytes.subrange(17, 29)),
                },
            )
        } else {
            None
        }
    }

    fn aggregate_id(&self) -> AggregateId {
        match self {
            GameEvent::GameStarted { aggregate_id, .. } => *aggregate_id,
            GameEvent::PlayerAttacked { aggregate_id, .. } => *aggregate_id,
            GameEvent::GameEndedWithWinner { aggregate_id, .. } => *aggregate_id,
        }
    }

    fn name(&self) -> String {
        match self {
            GameEvent::GameStarted { .. } => "GameStarted".to_owned(),
            GameEvent::PlayerAttacked { .. } => "PlayerAttacked".to_owned(),
            GameEvent::GameEndedWithWinner { .. } => "GameEndedWithWinner".to_owned(),
        }
    }

    fn encode(&self) -> (r: Vec<u8>) {
        let mut out: Vec<u8> = Vec::new();
        match self {
            GameEvent::GameStarted { aggregate_id, player_1, player_2, goal } => {
                out.push(TAG_GAME_STARTED);
                push_u128(&mut out, aggregate_id.0);
                push_player(&mut out, player_1);
                push_player(&mut out, player_2);
                push_u32(&mut out, *goal);
                proof {
                    assert(out@ =~= seq![TAG_GAME_STARTED] + spec_u128_to_le_bytes(aggregate_id.0)
                        + sp_player_bytes(*player_1) + sp_player_bytes(*player_2)
                        + spec_u32_to_le_bytes(*goal));
                }
            },
            GameEvent::PlayerAttacked { aggregate_id, attacker } => {
                out.push(TAG_PLAYER_ATTACKED);
                push_u128(&mut out, aggregate_id.0);
                push_player(&mut out, attacker);
                proof {
                    assert(out@ =~= seq![TAG_PLAYER_ATTACKED] + spec_u128_to_le_bytes(
                        aggregate_id.0,
                    ) + sp_player_bytes(*attacker));
                }
            },
            GameEvent::GameEndedWithWinner { aggregate_id, winner } => {
                out.push(TAG_GAME_ENDED);
                push_u128(&mut out, aggregate_id.0);
                push_player(&mut out, winner);
                proof {
                    assert(out@ =~= seq![TAG_GAME_ENDED] + spec_u128_to_le_bytes(aggregate_id.0)
                        + sp_player_bytes(*winner));
                }
            },
        }
        out
    }

    fn decode(bytes: &[u8]) -> (r: Option<Self>) {
        let n = bytes.len();
        if n != GAME_STARTED_LEN && n != GAME_TURN_LEN {
            return None;
        }
        let tag = read_u8(bytes, 0);
        if n == GAME_STARTED_LEN && tag == TAG_GAME_STARTED {
            Some(
                GameEvent::GameStarted {
                    aggregate_id: AggregateId(read_u128(bytes, 1)),
                    player_1: read_player(bytes, 17),
                    player_2: read_player(bytes, 29),
                    goal: read_u32(bytes, 41),
                },
            )
        } else if n == GAME_TURN_LEN && tag == TAG_PLAYER_ATTACKED {
            Some(
                GameEvent::PlayerAttacked {
                    aggregate_id: AggregateId(read_u128(bytes, 1)),
                    attacker: read_player(bytes, 17),
                },
            )
        } else if n == GAME_TURN_LEN && tag == TAG_GAME_ENDED {
            Some(
                GameEvent::GameEndedWithWinner {
                    aggregate_id: AggregateId(read_u128(bytes, 1)),
                    winner: read_player(bytes, 17),
                },
            )
        } else {
            None
        }
    }

    proof fn lemma_decode_encode(&self) {
        lemma_auto_spec_u128_to_from_le_bytes();
        lemma_auto_spec_u32_to_from_le_bytes();
        let e = self.sp_encode();
        match *self {
            GameEvent::GameStarted { aggregate_id, player_1, player_2, goal } => {
                lemma_player_roundtrip(player_1);
                lemma_player_roundtrip(player_2);
                assert(e[0] == TAG_GAME_STARTED);
                assert(e.subrange(1, 17) =~= spec_u128_to_le_bytes(aggregate_id.0));
                assert(e.subrange(17, 29) =~= sp_player_bytes(player_1));
                assert(e.subrange(29, 41) =~= sp_player_bytes(player_2));
                assert(e.subrange(41, 45) =~= spec_u32_to_le_bytes(goal));
            },
            GameEvent::PlayerAttacked { aggregate_id, attacker } => {
                lemma_player_roundtrip(attacker);
                assert(e[0] == TAG_PLAYER_ATTACKED);
                assert(e.subrange(1, 17) =~= spec_u128_to_le_bytes(aggregate_id.0));
                assert(e.subrange(17, 29) =~= sp_player_bytes(attacker));
            },
            GameEvent::GameEndedWithWinner { aggregate_id, winner } => {
                lemma_player_roundtrip(winner);
                assert(e[0] == TAG_GAME_ENDED);
                assert(e.subrange(1, 17) =~= spec_u128_to_le_bytes(aggregate_id.0));
                assert(e.subrange(17, 29) =~= sp_player_bytes(winner));
            },
        }
    }
}

/// The state of one game.
#[derive(Clone, Copy, Debug, PartialEq, Eq, Structural)]
pub struct GameState {
    /// The aggregate identity of this game.
    pub id: AggregateId,
    /// The first player.
    pub player_1: Player,
    /// The second player.
    pub player_2: Player,
    /// Whether the game is still being played.
    pub status: GameStatus,
    /// The points a player needs to win.
    pub goal: u32,
}

impl Aggregate for GameState {
    type Event = GameEvent;

    open spec fn sp_fresh() -> GameState {
        GameState {
            id: AggregateId(0),
            player_1: Player { id: 1u64, points: 0u32 },
            player_2: Player { id: 2u64, points: 0u32 },
            status: GameStatus::Playing,
            goal: 0u32,
        }
    }

    open spec fn sp_id(&self) -> AggregateId {
        self.id
    }

    open spec fn sp_with_id(&self, id: AggregateId) -> GameState {
        GameState { id, ..*self }
    }

    open spec fn sp_apply(&self, event: GameEvent) -> GameState {
        match event {
            GameEvent::GameStarted { player_1, player_2, goal, .. } => GameState {
                id: self.id,
                player_1,
                player_2,
                status: GameStatus::Playing,
                goal,
            },
            GameEvent::PlayerAttacked { attacker, .. } => {
                if self.player_1.id == attacker.id {
                    GameState {
                        player_1: Player {
                            id: self.player_1.id,
                            points: if self.player_1.points < u32::MAX {
                                (self.player_1.points + 1) as u32
                            } else {
                                u32::MAX
                            },
                        },
                        ..*self
                    }
                } else {
                    GameState {
                        player_2: Player {
                            id: self.player_2.id,
                            points: if self.player_2.points < u32::MAX {
                                (self.player_2.points + 1) as u32
                            } else {
                                u32::MAX
                            },
                        },
                        ..*self
                    }
                }
            },
            GameEvent::GameEndedWithWinner { winner, .. } => GameState {
                status: GameStatus::Winner(winner),
                ..*self
            },
        }
    }

    open spec fn sp_encode_state(&self) -> Seq<u8> {
        spec_u128_to_le_bytes(self.id.0) + sp_player_bytes(self.player_1) + sp_player_bytes(
            self.player_2,
        ) + (match self.status {
            GameStatus::Playing => seq![0u8] + sp_player_bytes(Player { id: 0u64, points: 0u32 }),
            GameStatus::Winner(winner) => seq![1u8] + sp_player_bytes(winner),
        }) + spec_u32_to_le_bytes(self.goal)
    }

    open spec fn sp_decode_state(bytes: Seq<u8>) -> Option<GameState> {
        if bytes.len() == GAME_STATE_LEN && (bytes[40] == 0u8 || bytes[40] == 1u8) {
            Some(
                GameState {
                    id: AggregateId(spec_u128_from_le_bytes(bytes.subrange(0, 16))),
                    player_1: sp_player_from(bytes.subrange(16, 28)),
                    player_2: sp_player_from(bytes.subrange(28, 40)),
                    status: if bytes[40] == 0u8 {
                        GameStatus::Playing
                    } else {
                        GameStatus::Winner(sp_player_from(bytes.subrange(41, 53)))
                    },
                    goal: spec_u32_from_le_bytes(bytes.subrange(53, 57)),
                },
            )
        } else {
            None
        }
    }

    fn fresh() -> GameState {
        GameState {
            id: AggregateId(0),
            player_1: Player { id: 1, points: 0 },
            player_2: Player { id: 2, points: 0 },
            status: GameStatus::Playing,
            goal: 0,
        }
    }

    fn aggregate_id(&self) -> AggregateId {
        self.id
    }

    fn set_aggregate_id(&mut self, id: AggregateId) {
        self.id = id;
    }

    fn apply(&mut self, event: &GameEvent) {
        match event {
            GameEvent::GameStarted { player_1, player_2, goal, .. } => {
                self.status = GameStatus::Playing;
                self.goal = *goal;
                self.player_1 = *player_1;
                self.player_2 = *player_2;
            },
            GameEvent::PlayerAttacked { attacker, .. } => {
                if self.player_1.id == attacker.id {
                    if self.player_1.points < u32::MAX {
                        self.player_1.points = self.player_1.points + 1;
                    }
                } else {
                    if self.player_2.points < u32::MAX {
                        self.player_2.points = self.player_2.points + 1;
                    }
                }
            },
            GameEvent::GameEndedWithWinner { winner, .. } => {
                self.status = GameStatus::Winner(*winner);
            },
        }
    }

    fn encode_state(&self) -> (r: Vec<u8>) {
        let mut out: Vec<u8> = Vec::new();
        push_u128(&mut out, self.id.0);
        push_player(&mut out, &self.player_1);
        push_player(&mut out, &self.player_2);
        match &self.status {
            GameStatus::Playing => {
                out.push(0u8);
                push_player(&mut out, &Player { id: 0, points: 0 });
            },
            GameStatus::Winner(winner) => {
                out.push(1u8);
                push_player(&mut out, winner);
            },
        }
        push_u32(&mut out, self.goal);
        proof {
            assert(out@ =~= self.sp_encode_state());
        }
        out
    }

    fn decode_state(bytes: &[u8]) -> (r: Option<GameState>) {
        if bytes.len() != GAME_STATE_LEN {
            return None;
        }
        let status_tag = read_u8(bytes, 40);
        if status_tag != 0 && status_tag != 1 {
            return None;
        }
        let status = if status_tag == 0 {
            GameStatus::Playing
        } else {
            GameStatus::Winner(read_player(bytes, 41))
        };
        Some(
            GameState {
                id: AggregateId(read_u128(bytes, 0)),
                player_1: read_player(bytes, 16),
                player_2: read_player(bytes, 28),
                status,
                goal: read_u32(bytes, 53),
            },
        )
    }

    proof fn lemma_decode_encode_state(&self) {
        lemma_auto_spec_u128_to_from_le_bytes();
        lemma_auto_spec_u32_to_from_le_bytes();
        lemma_player_roundtrip(self.player_1);
        lemma_player_roundtrip(self.player_2);
        lemma_player_roundtrip(Player { id: 0u64, points: 0u32 });
        let e = self.sp_encode_state();
        let status_bytes = (match self.status {
            GameStatus::Playing => seq![0u8] + sp_player_bytes(Player { id: 0u64, points: 0u32 }),
            GameStatus::Winner(winner) => seq![1u8] + sp_player_bytes(winner),
        });
        match self.status {
            GameStatus::Playing => {},
            GameStatus::Winner(winner) => {
                lemma_player_roundtrip(winner);
                assert(e.subrange(41, 53) =~= sp_player_bytes(winner));
            },
        }
        assert(e.subrange(0, 16) =~= spec_u128_to_le_bytes(self.id.0));
        assert(e.subrange(16, 28) =~= sp_player_bytes(self.player_1));
        assert(e.subrange(28, 40) =~= sp_player_bytes(self.player_2));
        assert(e[40] == status_bytes[0]);
        assert(e.subrange(53, 57) =~= spec_u32_to_le_bytes(self.goal));
    }

    proof fn lemma_apply_preserves_id(&self, event: GameEvent) {
    }
}

/// A request to set up a game with two players and a goal. Rejected once the
/// game has a winner.
#[derive(Clone, Copy, Debug, PartialEq, Eq, Structural)]
pub struct CmdStartGame {
    /// The first player.
    pub player_1: Player,
    /// The second player.
    pub player_2: Player,
    /// The points a player needs to win.
    pub goal: u32,
}

impl Command<()> for CmdStartGame {
    type Aggregate = GameState;

    open spec fn sp_handle(&self, aggregate: GameState, context: ()) -> Result<
        Seq<EventV>,
        ErrorV,
    > {
        match aggregate.status {
            GameStatus::Playing => Ok(
                seq![
                    sp_event_of(
                        GameEvent::GameStarted {
                            aggregate_id: aggregate.id,
                            player_1: self.player_1,
                            player_2: self.player_2,
                            goal: self.goal,
                        },
                    ),
                ],
            ),
            GameStatus::Winner(..) => Err(ErrorV::CommandValidation { aggregate_id: aggregate.id }),
        }
    }

    fn handle(&self, aggregate: &GameState, context: &()) -> (r: Result<Vec<Event>, CqrsError>) {
        match &aggregate.status {
            GameStatus::Playing => {
                let payload = GameEvent::GameStarted {
                    aggregate_id: aggregate.id,
                    player_1: self.player_1,
                    player_2: self.player_2,
                    goal: self.goal,
                };
                let mut events: Vec<Event> = Vec::new();
                events.push(Event::new(payload, None));
                proof {
                    assert(views(events@) =~= seq![sp_event_of(payload)]);
                }
                Ok(events)
            },
            GameStatus::Winner(..) => Err(
                CqrsError::CommandValidation {
                    aggregate_id: aggregate.id,
                    reason: "the game is already finished".to_owned(),
                },
            ),
        }
    }
}

/// A request for one player to attack the other, scoring one point.
/// Rejected once the game has a winner, and when the score would overflow.
#[derive(Clone, Copy, Debug, PartialEq, Eq, Structural)]
pub struct CmdAttackPlayer {
    /// The attacking player.
    pub attacker: Player,
}

impl CmdAttackPlayer {
    /// The attacker's side of `aggregate`, with one more point.
    pub open spec fn sp_scored(&self, aggregate: GameState) -> Player {
        if aggregate.player_1.id == self.attacker.id {
            Player { id: aggregate.player_1.id, points: (aggregate.player_1.points + 1) as u32 }
        } else {
            Player { id: aggregate.player_2.id, points: (aggregate.player_2.points + 1) as u32 }
        }
    }

    /// The points of the attacker's side of `aggregate`, before the attack.
    pub open spec fn sp_current_points(&self, aggregate: GameState) -> u32 {
        if aggregate.player_1.id == self.attacker.id {
            aggregate.player_1.points
        } else {
            aggregate.player_2.points
        }
    }
}

impl Command<()> for CmdAttackPlayer {
    type Aggregate = GameState;

    open spec fn sp_handle(&self, aggregate: GameState, context: ()) -> Result<
        Seq<EventV>,
        ErrorV,
    > {
        if !(aggregate.status is Playing) || self.sp_current_points(aggregate) == u32::MAX {
            Err(ErrorV::CommandValidation { aggregate_id: aggregate.id })
        } else {
            let scored = self.sp_scored(aggregate);
            let attack = sp_event_of(
                GameEvent::PlayerAttacked { aggregate_id: aggregate.id, attacker: scored },
            );
            if scored.points >= aggregate.goal {
                Ok(
                    seq![
                        attack,
                        sp_event_of(
                            GameEvent::GameEndedWithWinner {
                                aggregate_id: aggregate.id,
                                winner: scored,
                            },
                        ),
                    ],
                )
            } else {
                Ok(seq![attack])
            }
        }
    }

    fn handle(&self, aggregate: &GameState, context: &()) -> (r: Result<Vec<Event>, CqrsError>) {
        match &aggregate.status {
            GameStatus::Winner(..) => {
                return Err(
                    CqrsError::CommandValidation {
                        aggregate_id: aggregate.id,
                        reason: "the game is already finished".to_owned(),
                    },
                );
            },
            GameStatus::Playing => {},
        }
        let current = if aggregate.player_1.id == self.attacker.id {
            aggregate.player_1
        } else {
            aggregate.player_2
        };
        if current.points == u32::MAX {
            return Err(
                CqrsError::CommandValidation {
                    aggregate_id: aggregate.id,
                    reason: "the score cannot go any higher".to_owned(),
                },
            );
        }
        let scored = Player { id: current.id, points: current.points + 1 };
        let attack = GameEvent::PlayerAttacked { aggregate_id: aggregate.id, attacker: scored };
        let mut events: Vec<Event> = Vec::new();
        events.push(Event::new(attack, None));
        if scored.points >= aggregate.goal {
            let ended = GameEvent::GameEndedWithWinner {
                aggregate_id: aggregate.id,
                winner: scored,
            };
            events.push(Event::new(ended, None));
            proof {
                assert(views(events@) =~= seq![sp_event_of(attack), sp_event_of(ended)]);
            }
        } else {
            proof {
                assert(views(events@) =~= seq![sp_event_of(attack)]);
            }
        }
        Ok(events)
    }
}

// --- The game's read side: projection, reader, consumer, query. ---

/// A follow-up command message a game consumer asks the application to
/// dispatch.
#[derive(Clone, Copy, Debug, PartialEq, Eq, Structural)]
pub enum GameMessage {
    /// The game ended; announce the winner to the outside.
    AnnounceWinner { aggregate_id: AggregateId, winner: Player },
}

/// The game read model: what the query side serves.
#[derive(Clone, Copy, Debug, PartialEq, Eq, Structural)]
pub struct GameModel {
    /// The identity of the projected game.
    pub id: AggregateId,
    /// The points a player needs to win.
    pub goal: u32,
    /// The first player.
    pub player_1: Player,
    /// The second player.
    pub player_2: Player,
    /// Whether the game is still being played.
    pub status: GameStatus,
}

/// The model of `id` in a projection table, first match.
pub open spec fn sp_model_find(models: Seq<(AggregateId, GameModel)>, id: AggregateId) -> Option<
    GameModel,
>
    decreases models.len(),
{
    if models.len() == 0 {
        None
    } else if models[0].0 == id {
        Some(models[0].1)
    } else {
        sp_model_find(models.drop_first(), id)
    }
}

/// A projection table with `model` stored under its identity: the first
/// existing entry replaced, or a new entry appended.
pub open spec fn sp_model_put(
    models: Seq<(AggregateId, GameModel)>,
    model: GameModel,
) -> Seq<(AggregateId, GameModel)>
    decreases models.len(),
{
    if models.len() == 0 {
        seq![(model.id, model)]
    } else if models[0].0 == model.id {
        seq![(model.id, model)] + models.drop_first()
    } else {
        seq![models[0]] + sp_model_put(models.drop_first(), model)
    }
}

/// A match at index `i`, with no earlier match, is what `sp_model_find`
/// returns.
proof fn lemma_model_find_at(models: Seq<(AggregateId, GameModel)>, i: int, id: AggregateId)
    requires
        0 <= i < models.len(),
        forall|j: int| 0 <= j < i ==> (#[trigger] models[j]).0 != id,
        models[i].0 == id,
    ensures
        sp_model_find(models, id) == Some(models[i].1),
    decreases i,
{
    if i > 0 {
        lemma_model_find_at(models.drop_first(), i - 1, id);
    }
}

/// Without any match, `sp_model_find` returns nothing.
proof fn lemma_model_find_none(models: Seq<(AggregateId, GameModel)>, id: AggregateId)
    requires
        forall|j: int| 0 <= j < models.len() ==> (#[trigger] models[j]).0 != id,
    ensures
        sp_model_find(models, id) is None,
    decreases models.len(),
{
    if models.len() > 0 {
        lemma_model_find_none(models.drop_first(), id);
    }
}

/// Storing a model whose identity sits at index `i`, with no earlier match,
/// replaces that entry.
proof fn lemma_model_put_at(models: Seq<(AggregateId, GameModel)>, i: int, model: GameModel)
    requires
        0 <= i < models.len(),
        forall|j: int| 0 <= j < i ==> (#[trigger] models[j]).0 != model.id,
        models[i].0 == model.id,
    ensures
        sp_model_put(models, model) == models.update(i, (model.id, model)),
    decreases i,
{
    if i == 0 {
        assert(seq![(model.id, model)] + models.drop_first() =~= models.update(
            0,
            (model.id, model),
        ));
    } else {
        lemma_model_put_at(models.drop_first(), i - 1, model);
        assert(models.update(i, (model.id, model)).drop_first() =~= models.drop_first().update(
            i - 1,
            (model.id, model),
        ));
        assert(seq![models[0]] + sp_model_put(models.drop_first(), model) =~= models.update(
            i,
            (model.id, model),
        ));
    }
}

/// Storing a model with an unknown identity appends it.
proof fn lemma_model_put_absent(models: Seq<(AggregateId, GameModel)>, model: GameModel)
    requires
        forall|j: int| 0 <= j < models.len() ==> (#[trigger] models[j]).0 != model.id,
    ensures
        sp_model_put(models, model) == models.push((model.id, model)),
    decreases models.len(),
{
    if models.len() == 0 {
        assert(seq![(model.id, model)] =~= models.push((model.id, model)));
    } else {
        lemma_model_put_absent(models.drop_first(), model);
        assert(seq![models[0]] + sp_model_put(models.drop_first(), model) =~= models.push(
            (model.id, model),
        ));
    }
}

/// A projection store kept in process memory: one game model per aggregate
/// identity.
pub struct InMemoryRepository {
    models: Vec<(AggregateId, GameModel)>,
}

impl View for InMemoryRepository {
    type V = Seq<(AggregateId, GameModel)>;

    closed spec fn view(&self) -> Seq<(AggregateId, GameModel)> {
        self.models@
    }
}

impl Clone for InMemoryRepository {
    fn clone(&self) -> (r: Self)
        ensures
            r@ == self@,
    {
        let mut models: Vec<(AggregateId, GameModel)> = Vec::new();
        let mut i: usize = 0;
        while i < self.models.len()
            invariant
                i <= self.models@.len(),
                models@ == self.models@.take(i as int),
            decreases self.models@.len() - i,
        {
            models.push(self.models[i]);
            proof {
                assert(self.models@.take(i as int).push(self.models@[i as int])
                    =~= self.models@.take(i as int + 1));
            }
            i = i + 1;
        }
        proof {
            assert(self.models@.take(self.models@.len() as int) =~= self.models@);
        }
        InMemoryRepository { models }
    }
}

impl Repository for InMemoryRepository {

}

impl InMemoryRepository {
    /// Creates an empty projection store.
    pub fn new() -> (r: Self)
        ensures
            r@ == Seq::<(AggregateId, GameModel)>::empty(),
    {
        InMemoryRepository { models: Vec::new() }
    }

    /// The index of the entry of `id`, if there is one.
    fn find_index(&self, id: AggregateId) -> (r: Option<usize>)
        ensures
            match r {
                Some(i) => {
                    &&& i < self@.len()
                    &&& self@[i as int].0 == id
                    &&& forall|j: int| 0 <= j < i ==> (#[trigger] self@[j]).0 != id
                    &&& sp_model_find(self@, id) == Some(self@[i as int].1)
                },
                None => {
                    &&& sp_model_find(self@, id) is None
                    &&& forall|j: int| 0 <= j < self@.len() ==> (#[trigger] self@[j]).0 != id
                },
            },
    {
        let mut i: usize = 0;
        while i < self.models.len()
            invariant
                i <= self.models@.len(),
                forall|j: int| 0 <= j < i ==> (#[trigger] self.models@[j]).0 != id,
            decreases self.models@.len() - i,
        {
            if self.models[i].0 == id {
                proof {
                    lemma_model_find_at(self.models@, i as int, id);
                }
                return Some(i);
            }
            i = i + 1;
        }
        proof {
            lemma_model_find_none(self.models@, id);
        }
        None
    }

    /// The projected model of the game `id`, if there is one.
    pub fn get_game(&self, id: AggregateId) -> (r: Option<GameModel>)
        ensures
            r == sp_model_find(self@, id),
    {
        match self.find_index(id) {
            Some(i) => Some(self.models[i].1),
            None => None,
        }
    }

    /// Stores `model` under its identity, replacing any earlier projection
    /// of the same game.
    pub fn update_game(&mut self, model: GameModel)
        ensures
            final(self)@ == sp_model_put(old(self)@, model),
    {
        match self.find_index(model.id) {
            Some(i) => {
                let ghost at_entry = self.models@;
                let _ = self.models.remove(i);
                self.models.insert(i, (model.id, model));
                proof {
                    assert(self.models@ =~= at_entry.update(i as int, (model.id, model)));
                    lemma_model_put_at(at_entry, i as int, model);
                }
            },
            None => {
                proof {
                    lemma_model_put_absent(self.models@, model);
                }
                self.models.push((model.id, model));
            },
        }
    }
}

/// The game model reader: writes projected game data through its repository.
pub struct GameView {
    repo: InMemoryRepository,
}

impl View for GameView {
    type V = Seq<(AggregateId, GameModel)>;

    closed spec fn view(&self) -> Seq<(AggregateId, GameModel)> {
        self.repo@
    }
}

impl GameView {
    /// Creates a reader over `repo`.
    pub fn new(repo: InMemoryRepository) -> (r: Self)
        ensures
            r@ == repo@,
    {
        GameView { repo }
    }

    /// Stores `data` under its identity; storing in process memory cannot
    /// fail.
    pub fn put(&mut self, data: GameModel)
        ensures
            final(self)@ == sp_model_put(old(self)@, data),
    {
        self.repo.update_game(data);
    }

    /// The reader's repository, for the query side.
    pub fn repo(&self) -> (r: &InMemoryRepository)
        ensures
            r@ == self@,
    {
        &self.repo
    }
}

impl ModelReader for GameView {
    type Repo = InMemoryRepository;

    type Model = GameModel;

    open spec fn sp_update(
        pre: Seq<(AggregateId, GameModel)>,
        data: GameModel,
    ) -> Seq<(AggregateId, GameModel)> {
        sp_model_put(pre, data)
    }

    fn update(&mut self, data: GameModel) -> (r: Result<(), CqrsError>) {
        self.put(data);
        Ok(())
    }
}

/// The query that answers with the projected model of one game.
pub struct GetGameQuery {
    /// The game asked about.
    pub aggregate_id: AggregateId,
    repo: InMemoryRepository,
}

impl GetGameQuery {
    /// Creates a query about `aggregate_id` over a copy of `repo`.
    pub fn new(aggregate_id: AggregateId, repo: &InMemoryRepository) -> (r: Self)
        ensures
            r.sp_apply() == sp_model_find(repo@, aggregate_id),
    {
        GetGameQuery { aggregate_id, repo: repo.clone() }
    }
}

impl Query for GetGameQuery {
    type Output = Option<GameModel>;

    closed spec fn sp_apply(&self) -> Option<GameModel> {
        sp_model_find(self.repo@, self.aggregate_id)
    }

    fn apply(&self) -> (r: Option<GameModel>) {
        self.repo.get_game(self.aggregate_id)
    }
}

/// The projection table `pre` after one game event: what the main game
/// consumer does with each event it observes.
pub open spec fn sp_project(
    pre: Seq<(AggregateId, GameModel)>,
    event: GameEvent,
) -> Seq<(AggregateId, GameModel)> {
    match event {
        GameEvent::GameStarted { aggregate_id, player_1, player_2, goal } => sp_model_put(
            pre,
            GameModel { id: aggregate_id, goal, player_1, player_2, status: GameStatus::Playing },
        ),
        GameEvent::PlayerAttacked { aggregate_id, attacker } => {
            match sp_model_find(pre, aggregate_id) {
                Some(model) => sp_model_put(pre, sp_model_attacked(model, attacker)),
                None => pre,
            }
        },
        GameEvent::GameEndedWithWinner { aggregate_id, winner } => {
            match sp_model_find(pre, aggregate_id) {
                Some(model) => sp_model_put(
                    pre,
                    GameModel { status: GameStatus::Winner(winner), ..model },
                ),
                None => pre,
            }
        },
    }
}

/// The model with one point added on the attacker's side.
pub open spec fn sp_model_attacked(model: GameModel, attacker: Player) -> GameModel {
    if model.player_1.id == attacker.id {
        GameModel {
            player_1: Player {
                id: model.player_1.id,
                points: if model.player_1.points < u32::MAX {
                    (model.player_1.points + 1) as u32
                } else {
                    u32::MAX
                },
            },
            ..model
        }
    } else {
        GameModel {
            player_2: Player {
                id: model.player_2.id,
                points: if model.player_2.points < u32::MAX {
                    (model.player_2.points + 1) as u32
                } else {
                    u32::MAX
                },
            },
            ..model
        }
    }
}

/// The main game consumer: projects every game event into the read model,
/// ignores events it does not understand, and asks for a winner
/// announcement to be dispatched when a game ends.
pub struct GameMainConsumer {
    game_model: GameView,
}

impl View for GameMainConsumer {
    type V = Seq<(AggregateId, GameModel)>;

    closed spec fn view(&self) -> Seq<(AggregateId, GameModel)> {
        self.game_model@
    }
}

impl GameMainConsumer {
    /// Creates a consumer projecting into `repo`.
    pub fn new(repo: InMemoryRepository) -> (r: Self)
        ensures
            r@ == repo@,
    {
        GameMainConsumer { game_model: GameView::new(repo) }
    }

    /// The consumer's repository, for the query side.
    pub fn repo(&self) -> (r: &InMemoryRepository)
        ensures
            r@ == self@,
    {
        self.game_model.repo()
    }
}

impl EventConsumer<GameMessage> for GameMainConsumer {
    open spec fn sp_process(pre: Seq<(AggregateId, GameModel)>, event: EventV) -> (
        Seq<(AggregateId, GameModel)>,
        Option<Seq<GameMessage>>,
    ) {
        match GameEvent::sp_decode(event.payload) {
            None => (pre, Some(Seq::empty())),
            Some(game_event) => (
                sp_project(pre, game_event),
                Some(
                    match game_event {
                        GameEvent::GameEndedWithWinner { aggregate_id, winner } => {
                            if sp_model_find(pre, aggregate_id) is Some {
                                seq![GameMessage::AnnounceWinner { aggregate_id, winner }]
                            } else {
                                Seq::empty()
                            }
                        },
                        _ => Seq::empty(),
                    },
                ),
            ),
        }
    }

    fn process(&mut self, event: &Event) -> (r: Result<Vec<GameMessage>, CqrsError>) {
        let commands: Vec<GameMessage> = Vec::new();
        proof {
            assert(commands@ =~= Seq::<GameMessage>::empty());
        }
        let game_event: GameEvent = match event.get_payload::<GameEvent>() {
            Ok(game_event) => game_event,
            Err(_) => {
                // Not a game event: tolerate it without touching the model.
                return Ok(commands);
            },
        };
        match game_event {
            GameEvent::GameStarted { aggregate_id, player_1, player_2, goal } => {
                let model = GameModel {
                    id: aggregate_id,
                    goal,
                    player_1,
                    player_2,
                    status: GameStatus::Playing,
                };
                self.game_model.put(model);
                Ok(commands)
            },
            GameEvent::PlayerAttacked { aggregate_id, attacker } => {
                match self.game_model.repo().get_game(aggregate_id) {
                    Some(model) => {
                        let updated = if model.player_1.id == attacker.id {
                            GameModel {
                                player_1: Player {
                                    id: model.player_1.id,
                                    points: if model.player_1.points < u32::MAX {
                                        model.player_1.points + 1
                                    } else {
                                        u32::MAX
                                    },
                                },
                                ..model
                            }
                        } else {
                            GameModel {
                                player_2: Player {
                                    id: model.player_2.id,
                                    points: if model.player_2.points < u32::MAX {
                                        model.player_2.points + 1
                                    } else {
                                        u32::MAX
                                    },
                                },
                                ..model
                            }
                        };
                        self.game_model.put(updated);
                        Ok(commands)
                    },
                    None => Ok(commands),
                }
            },
            GameEvent::GameEndedWithWinner { aggregate_id, winner } => {
                match self.game_model.repo().get_game(aggregate_id) {
                    Some(model) => {
                        let updated = GameModel { status: GameStatus::Winner(winner), ..model };
                        self.game_model.put(updated);
                        let mut announced = commands;
                        announced.push(GameMessage::AnnounceWinner { aggregate_id, winner });
                        proof {
                            assert(announced@ =~= seq![
                                GameMessage::AnnounceWinner { aggregate_id, winner },
                            ]);
                        }
                        Ok(announced)
                    },
                    None => Ok(commands),
                }
            },
        }
    }
}


/// The abstracted state of a [`GameConsumer`], by variant.
pub enum GameConsumerV {
    /// The projection table of the main consumer.
    Main(Seq<(AggregateId, GameModel)>),
    /// The acceptance count of the counter-only consumer.
    CounterOnly(u64),
}

/// A sum type over the known consumer variants of the game application, so
/// that one group can hold consumers of different shapes.
pub enum GameConsumer {
    /// The main consumer, projecting game events into the read model.
    Main(GameMainConsumer),
    /// A consumer that understands only counter events; handed game events,
    /// it refuses every one of them.
    CounterOnly(StrictConsumer<CounterEvent>),
}

impl View for GameConsumer {
    type V = GameConsumerV;

    open spec fn view(&self) -> GameConsumerV {
        match self {
            GameConsumer::Main(main) => GameConsumerV::Main(main@),
            GameConsumer::CounterOnly(strict) => GameConsumerV::CounterOnly(strict@),
        }
    }
}

impl EventConsumer<GameMessage> for GameConsumer {
    open spec fn sp_process(pre: GameConsumerV, event: EventV) -> (
        GameConsumerV,
        Option<Seq<GameMessage>>,
    ) {
        match pre {
            GameConsumerV::Main(state) => {
                let step = GameMainConsumer::sp_process(state, event);
                (GameConsumerV::Main(step.0), step.1)
            },
            GameConsumerV::CounterOnly(state) => {
                let step = <StrictConsumer<CounterEvent> as EventConsumer<
                    GameMessage,
                >>::sp_process(state, event);
                (GameConsumerV::CounterOnly(step.0), step.1)
            },
        }
    }

    fn process(&mut self, event: &Event) -> (r: Result<Vec<GameMessage>, CqrsError>) {
        match self {
            GameConsumer::Main(main) => main.process(event),
            GameConsumer::CounterOnly(strict) => strict.process(event),
        }
    }
}

} // verus!
