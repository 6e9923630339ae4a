//! The rules of the game as a function on the model: from a state and an action
//! to the next state and the events of the step, or to the reason of the refusal.

use crate::types::{
    ActionModel, EventModel, GameError, GameModel, GamePhase, GiftModel, GiftState, PlayerModel,
    Text,
};
use vstd::prelude::*;

verus! {

/// A gift may change hands by theft this many times.
pub const STEAL_LIMIT: u8 = 3;

/// `i` is the position of the first gift named `id`.
pub open spec fn is_first_gift(gifts: Seq<GiftModel>, id: Text, i: int) -> bool {
    &&& 0 <= i < gifts.len()
    &&& gifts[i].id == id
    &&& forall|j: int| 0 <= j < i ==> (#[trigger] gifts[j]).id != id
}

/// The position of the first gift named `id`, if there is one.
pub open spec fn first_gift(gifts: Seq<GiftModel>, id: Text) -> Option<int> {
    if exists|i: int| is_first_gift(gifts, id, i) {
        Some(choose|i: int| is_first_gift(gifts, id, i))
    } else {
        None
    }
}

/// How many of the gifts `id` holds.
pub open spec fn holder_count(gifts: Seq<GiftModel>, id: Text) -> nat
    decreases gifts.len(),
{
    if gifts.len() == 0 {
        0
    } else {
        holder_count(gifts.drop_last(), id) + if gifts.last().held_by == Some(id) {
            1nat
        } else {
            0nat
        }
    }
}

/// Every gift is open.
pub open spec fn all_opened(gifts: Seq<GiftModel>) -> bool {
    forall|i: int| 0 <= i < gifts.len() ==> (#[trigger] gifts[i]).state == GiftState::Opened
}

/// Every player holds exactly one gift.
pub open spec fn each_holds_one(players: Seq<PlayerModel>, gifts: Seq<GiftModel>) -> bool {
    forall|i: int|
        0 <= i < players.len() ==> holder_count(gifts, (#[trigger] players[i]).id) == 1
}

/// Every gift is open and every player holds exactly one.
pub open spec fn completed(players: Seq<PlayerModel>, gifts: Seq<GiftModel>) -> bool {
    all_opened(gifts) && each_holds_one(players, gifts)
}

/// The last entry of the history is a theft by which `holder` took a gift from `actor`.
pub open spec fn is_steal_back(history: Seq<EventModel>, actor: Text, holder: Text) -> bool {
    history.len() > 0 && (history.last() matches EventModel::GiftStolen { from, to, .. } && from
        == actor && to == holder)
}

/// The gift once `actor` has unwrapped it.
pub open spec fn opened_gift(gift: GiftModel, actor: Text) -> GiftModel {
    GiftModel {
        state: GiftState::Opened,
        opened_by: Some(actor),
        held_by: Some(actor),
        ..gift
    }
}

/// The gift once `actor` has taken it from its holder.
pub open spec fn stolen_gift(gift: GiftModel, actor: Text) -> GiftModel {
    GiftModel { stolen_count: (gift.stolen_count + 1) as u8, held_by: Some(actor), ..gift }
}

/// Whether the order of turns has a player after the current one.
pub open spec fn has_next_turn(g: GameModel) -> bool {
    g.current_turn + 1 < g.turn_order.len()
}

/// The game after the turn has passed on: the counter of turns has grown by
/// one, and the player at the new turn is active. Past the last player of the
/// order the counter has grown all the same, and nobody is active.
pub open spec fn advanced(g: GameModel) -> GameModel {
    GameModel {
        current_turn: g.current_turn + 1,
        active_player: if has_next_turn(g) {
            Some(g.turn_order[g.current_turn as int + 1])
        } else {
            None
        },
        ..g
    }
}

/// The game as a machine keeps it: the counter of turns stops at the largest
/// number that the machine can count. Every game whose counter the machine
/// can hold is kept as it is.
pub open spec fn stored(g: GameModel) -> GameModel {
    GameModel {
        current_turn: if g.current_turn <= usize::MAX {
            g.current_turn
        } else {
            usize::MAX as nat
        },
        ..g
    }
}

/// The events by which `advanced` is announced.
pub open spec fn advance_events(g: GameModel) -> Seq<EventModel> {
    if has_next_turn(g) {
        seq![EventModel::TurnChanged { player_id: g.turn_order[g.current_turn as int + 1] }]
    } else {
        Seq::empty()
    }
}

/// Why the gift named `gift_id` may not be opened, if anything stands against it.
pub open spec fn choose_refusal(g: GameModel, gift_id: Text) -> Option<GameError> {
    match first_gift(g.gifts, gift_id) {
        None => Some(GameError::GiftNotFound),
        Some(i) => if g.gifts[i].state != GiftState::Unopened {
            Some(GameError::GiftAlreadyOpened)
        } else {
            None
        },
    }
}

/// The game after `actor` has opened the gift named `gift_id` and the turn has moved on.
pub open spec fn after_choose(g: GameModel, actor: Text, gift_id: Text) -> GameModel {
    let i = first_gift(g.gifts, gift_id)->0;
    advanced(GameModel { gifts: g.gifts.update(i, opened_gift(g.gifts[i], actor)), ..g })
}

/// The events of an opening: the opening itself, then the change of turn if
/// there is one.
pub open spec fn choose_events(g: GameModel, actor: Text, gift_id: Text) -> Seq<EventModel> {
    seq![EventModel::GiftOpened { player_id: actor, gift_id: gift_id }] + advance_events(g)
}

/// Why `actor` may not steal the gift named `gift_id`, if anything stands against it.
pub open spec fn steal_refusal(g: GameModel, actor: Text, gift_id: Text) -> Option<GameError> {
    match first_gift(g.gifts, gift_id) {
        None => Some(GameError::GiftNotFound),
        Some(i) => {
            let gift = g.gifts[i];
            if gift.state != GiftState::Opened {
                Some(GameError::GiftUnopened)
            } else if gift.held_by is None {
                Some(GameError::InvalidAction)
            } else if gift.held_by == Some(actor) {
                Some(GameError::CannotStealOwnGift)
            } else if gift.stolen_count >= STEAL_LIMIT {
                Some(GameError::StealLimitReached)
            } else if is_steal_back(g.history, actor, gift.held_by->0) {
                Some(GameError::StealBackNotAllowed)
            } else {
                None
            }
        },
    }
}

/// The game after `actor` has stolen the gift named `gift_id`: the turn stays where
/// it is and the player who lost the gift acts next.
pub open spec fn after_steal(g: GameModel, actor: Text, gift_id: Text) -> GameModel {
    let i = first_gift(g.gifts, gift_id)->0;
    GameModel {
        gifts: g.gifts.update(i, stolen_gift(g.gifts[i], actor)),
        active_player: g.gifts[i].held_by,
        ..g
    }
}

/// The events of a theft: the theft itself, then the turn of the player who
/// lost the gift.
pub open spec fn steal_events(g: GameModel, actor: Text, gift_id: Text) -> Seq<EventModel> {
    let victim = g.gifts[first_gift(g.gifts, gift_id)->0].held_by->0;
    seq![
        EventModel::GiftStolen { from: victim, to: actor, gift_id: gift_id },
        EventModel::TurnChanged { player_id: victim },
    ]
}

/// Why the action is refused, if it is.
pub open spec fn refusal(g: GameModel, a: ActionModel) -> Option<GameError> {
    if g.phase != GamePhase::InProgress {
        Some(GameError::WrongPhase)
    } else if g.active_player != Some(a.actor()) {
        Some(GameError::NotPlayersTurn)
    } else {
        match a {
            ActionModel::ChooseGift { player_id, gift_id } => choose_refusal(g, gift_id),
            ActionModel::StealGift { player_id, gift_id } => steal_refusal(g, player_id, gift_id),
        }
    }
}

/// The game after the move itself, before completion is looked at.
pub open spec fn after_move(g: GameModel, a: ActionModel) -> GameModel {
    match a {
        ActionModel::ChooseGift { player_id, gift_id } => after_choose(g, player_id, gift_id),
        ActionModel::StealGift { player_id, gift_id } => after_steal(g, player_id, gift_id),
    }
}

/// The events of the move itself, before completion is looked at.
pub open spec fn move_events(g: GameModel, a: ActionModel) -> Seq<EventModel> {
    match a {
        ActionModel::ChooseGift { player_id, gift_id } => choose_events(g, player_id, gift_id),
        ActionModel::StealGift { player_id, gift_id } => steal_events(g, player_id, gift_id),
    }
}

/// The events of an accepted action, in the order in which they are emitted: the
/// move, the change of turn if there is one, and the end of the game last.
pub open spec fn step_events(g: GameModel, a: ActionModel) -> Seq<EventModel> {
    let m = after_move(g, a);
    if completed(m.players, m.gifts) {
        move_events(g, a).push(EventModel::GameFinished)
    } else {
        move_events(g, a)
    }
}

/// The game after an accepted action.
pub open spec fn step(g: GameModel, a: ActionModel) -> GameModel {
    let m = after_move(g, a);
    GameModel {
        phase: if completed(m.players, m.gifts) {
            GamePhase::Finished
        } else {
            m.phase
        },
        history: g.history + step_events(g, a),
        ..m
    }
}

/// The rules as one function: the next state and the events, or the refusal.
pub open spec fn apply_spec(g: GameModel, a: ActionModel) -> Result<
    (GameModel, Seq<EventModel>),
    GameError,
> {
    match refusal(g, a) {
        Some(e) => Err(e),
        None => Ok((step(g, a), step_events(g, a))),
    }
}

} // verus!
