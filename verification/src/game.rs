//! Making a game that is ready to be played.

use crate::shuffle::{same_ids, shuffle_thread_local};
use crate::types::{
    gift_models, player_models, texts, Game, GameModel, GamePhase, Gift, GiftModel, Player,
    PlayerId, PlayerModel, Text,
};
use vstd::prelude::*;

verus! {

/// The ids of the players, in the order of the players.
pub open spec fn ids_of(players: Seq<PlayerModel>) -> Seq<Text> {
    players.map_values(|p: PlayerModel| p.id)
}

/// The first of an order of turns, if it has one.
pub open spec fn first_of(order: Seq<Text>) -> Option<Text> {
    if order.len() > 0 {
        Some(order[0])
    } else {
        None
    }
}

/// A game in progress at its first turn, with nothing in its history.
pub open spec fn opening(
    id: Text,
    players: Seq<PlayerModel>,
    gifts: Seq<GiftModel>,
    order: Seq<Text>,
) -> GameModel {
    GameModel {
        id,
        phase: GamePhase::InProgress,
        players,
        gifts,
        turn_order: order,
        current_turn: 0,
        active_player: first_of(order),
        history: Seq::empty(),
    }
}

/// The ids of the players, in the order of the players.
pub fn player_ids(players: &Vec<Player>) -> (r: Vec<PlayerId>)
    ensures
        texts(r@) == ids_of(player_models(players@)),
{
    let mut ids: Vec<PlayerId> = Vec::new();
    let mut i: usize = 0;
    while i < players.len()
        invariant
            i <= players.len(),
            ids.len() == i,
            forall|j: int| 0 <= j < i ==> (#[trigger] ids@[j])@ == players@[j].id@,
        decreases players.len() - i,
    {
        ids.push(players[i].id.clone());
        i += 1;
    }
    ids
}

impl Game {
    /// A game in progress in which the players take their turns in the given order.
    pub fn with_turn_order(
        id: String,
        players: Vec<Player>,
        gifts: Vec<Gift>,
        turn_order: Vec<PlayerId>,
    ) -> (g: Game)
        ensures
            g@ == opening(id@, player_models(players@), gift_models(gifts@), texts(turn_order@)),
    {
        let active = if turn_order.len() > 0 {
            Some(turn_order[0].clone())
        } else {
            None
        };
        Game {
            id,
            phase: GamePhase::InProgress,
            players,
            gifts,
            turn_order,
            current_turn: 0,
            active_player: active,
            history: Vec::new(),
        }
    }

    /// A game in progress in which the players take their turns in a random order.
    ///
    /// The order holds the players' ids, each as often as the players do; which
    /// of these orders it is depends on chance.
    pub fn new(id: String, players: Vec<Player>, gifts: Vec<Gift>) -> (g: Game)
        ensures
            same_ids(g@.turn_order, ids_of(player_models(players@))),
            g@ == opening(id@, player_models(players@), gift_models(gifts@), g@.turn_order),
    {
        let shuffled = shuffle_thread_local(player_ids(&players));
        Game::with_turn_order(id, players, gifts, shuffled)
    }
}

} // verus!
