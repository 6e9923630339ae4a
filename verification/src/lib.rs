//! The core of a multi-room, turn-based gift-exchange game: the rules of one
//! game, the lobby that precedes it, the room that applies the actions of its
//! players, and the directory of games.
//!
//! The rules are stated once, as a function on mathematical models
//! ([`model`]); the executable code is proved to compute that function, and
//! the laws of the game are proved of it ([`laws`], [`lobby_laws`]).

pub mod game;
pub mod invariants;
pub mod laws;
pub mod lobby;
pub mod lobby_laws;
pub mod model;
pub mod record;
pub mod registry;
pub mod room;
pub mod rules;
pub mod shuffle;
pub mod text;
pub mod types;

pub use crate::lobby::{ApiError, GiftRequest, StartResponse};
pub use crate::record::{
    to_core, to_view, update_record_from_core, GameRecord, GameView, GiftRecord, PlayerRecord,
    ServerMessage,
};
pub use crate::registry::{CreateGameResponse, Registry};
pub use crate::room::GameActionError;
pub use crate::rules::{
    advance_turn, all_gifts_opened, all_players_holding_one, apply_action, choose_gift,
    immediate_steal_back, steal_gift,
};
pub use crate::types::{
    Game, GameError, GameEvent, GamePhase, Gift, GiftId, GiftState, Player, PlayerAction, PlayerId,
};
