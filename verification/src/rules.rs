//! The rules engine: validates one action against a game and applies it.

use crate::model::{
    advance_events, advanced, after_choose, after_steal, all_opened, apply_spec, choose_events,
    choose_refusal, each_holds_one, first_gift, holder_count, is_first_gift, is_steal_back,
    opened_gift, steal_events, steal_refusal, stolen_gift, stored, STEAL_LIMIT,
};
use crate::types::{
    event_models, gift_models, player_models, EventModel, Game, GameError, GameEvent, GamePhase,
    Gift, GiftId, GiftModel, GiftState, Player, PlayerAction, PlayerId, Text,
};
use vstd::hash_map::StringHashMap;
use vstd::prelude::*;

verus! {

/// A copy of an event.
pub fn copy_event(e: &GameEvent) -> (r: GameEvent)
    ensures
        r == *e,
{
    match e {
        GameEvent::GiftOpened { player_id, gift_id } => GameEvent::GiftOpened {
            player_id: player_id.clone(),
            gift_id: gift_id.clone(),
        },
        GameEvent::GiftStolen { from, to, gift_id } => GameEvent::GiftStolen {
            from: from.clone(),
            to: to.clone(),
            gift_id: gift_id.clone(),
        },
        GameEvent::TurnChanged { player_id } => GameEvent::TurnChanged {
            player_id: player_id.clone(),
        },
        GameEvent::GameFinished => GameEvent::GameFinished,
    }
}

/// Appends a copy of each event to the history, in the order of the events.
pub fn append_events(history: &mut Vec<GameEvent>, events: &Vec<GameEvent>)
    ensures
        final(history)@ == old(history)@ + events@,
{
    let mut k: usize = 0;
    while k < events.len()
        invariant
            k <= events.len(),
            history@ == old(history)@ + events@.take(k as int),
        decreases events.len() - k,
    {
        history.push(copy_event(&events[k]));
        k += 1;
    }
}

/// The position of the first gift named `id`.
pub fn find_gift(gifts: &Vec<Gift>, id: &GiftId) -> (r: Option<usize>)
    ensures
        match r {
            Some(i) => first_gift(gift_models(gifts@), id@) == Some(i as int),
            None => first_gift(gift_models(gifts@), id@) is None,
        },
{
    let mut i: usize = 0;
    while i < gifts.len()
        invariant
            i <= gifts.len(),
            forall|j: int| 0 <= j < i ==> (#[trigger] gift_models(gifts@)[j]).id != id@,
        decreases gifts.len() - i,
    {
        if gifts[i].id == *id {
            assert(is_first_gift(gift_models(gifts@), id@, i as int));
            return Some(i);
        }
        i += 1;
    }
    None
}

/// Whether the last entry of the history is a theft by which `target` took a gift
/// from `actor`.
pub fn immediate_steal_back(game: &Game, actor: &PlayerId, target: &PlayerId) -> (r: bool)
    ensures
        r == is_steal_back(game@.history, actor@, target@),
{
    let n = game.history.len();
    if n == 0 {
        return false;
    }
    match &game.history[n - 1] {
        GameEvent::GiftStolen { from, to, .. } => *from == *actor && *to == *target,
        _ => false,
    }
}

/// Whether every gift is open.
pub fn all_gifts_opened(gifts: &[Gift]) -> (r: bool)
    ensures
        r == all_opened(gift_models(gifts@)),
{
    let mut i: usize = 0;
    while i < gifts.len()
        invariant
            i <= gifts.len(),
            forall|j: int|
                0 <= j < i ==> (#[trigger] gift_models(gifts@)[j]).state == GiftState::Opened,
        decreases gifts.len() - i,
    {
        match gifts[i].state {
            GiftState::Opened => {},
            GiftState::Unopened => {
                assert(gift_models(gifts@)[i as int].state != GiftState::Opened);
                return false;
            },
        }
        i += 1;
    }
    true
}

/// Passes the turn on: the counter of turns grows by one, and the player at
/// the new turn becomes active and is announced. Past the last player the
/// counter grows all the same, nobody is active and nothing is announced.
///
/// A counter that stands at `usize::MAX` cannot grow and stays where it is.
pub fn advance_turn(game: &mut Game, events: &mut Vec<GameEvent>)
    ensures
        final(game)@ == stored(advanced(old(game)@)),
        old(game).current_turn < usize::MAX ==> final(game).current_turn == old(game).current_turn
            + 1,
        old(game).current_turn == usize::MAX ==> final(game).current_turn == usize::MAX,
        event_models(final(events)@) == event_models(old(events)@) + advance_events(old(game)@),
{
    let players = game.turn_order.len();
    if game.current_turn < usize::MAX {
        let next_index = game.current_turn + 1;
        game.current_turn = next_index;
        if next_index < players {
            let next_player = game.turn_order[next_index].clone();
            game.active_player = Some(next_player.clone());
            events.push(GameEvent::TurnChanged { player_id: next_player });
            assert(event_models(events@) =~= event_models(old(events)@) + advance_events(
                old(game)@,
            ));
        } else {
            game.active_player = None;
            assert(event_models(events@) =~= event_models(old(events)@) + advance_events(
                old(game)@,
            ));
        }
    } else {
        game.active_player = None;
        assert(event_models(events@) =~= event_models(old(events)@) + advance_events(old(game)@));
    }
}

/// Opens the gift named `gift_id` for `player_id` and passes the turn on. A gift
/// that is missing or already open is refused, and nothing changes. The
/// counter of turns stops at `usize::MAX`, as `stored` says.
pub fn choose_gift(
    game: &mut Game,
    player_id: &PlayerId,
    gift_id: &GiftId,
    events: &mut Vec<GameEvent>,
) -> (r: Result<(), GameError>)
    ensures
        match choose_refusal(old(game)@, gift_id@) {
            Some(e) => r == Err::<(), GameError>(e) && *final(game) == *old(game) && *final(events)
                == *old(events),
            None => r is Ok && final(game)@ == stored(
                after_choose(old(game)@, player_id@, gift_id@),
            )
                && event_models(final(events)@) == event_models(old(events)@) + choose_events(
                old(game)@,
                player_id@,
                gift_id@,
            ),
        },
{
    let i = match find_gift(&game.gifts, gift_id) {
        Some(i) => i,
        None => {
            return Err(GameError::GiftNotFound);
        },
    };
    match game.gifts[i].state {
        GiftState::Unopened => {},
        GiftState::Opened => {
            return Err(GameError::GiftAlreadyOpened);
        },
    }
    game.gifts[i].state = GiftState::Opened;
    game.gifts[i].opened_by = Some(player_id.clone());
    game.gifts[i].held_by = Some(player_id.clone());
    events.push(GameEvent::GiftOpened { player_id: player_id.clone(), gift_id: gift_id.clone() });
    proof {
        let before = old(game)@;
        assert(gift_models(game.gifts@) =~= before.gifts.update(
            i as int,
            opened_gift(before.gifts[i as int], player_id@),
        ));
        assert(event_models(events@) =~= event_models(old(events)@) + seq![
            EventModel::GiftOpened { player_id: player_id@, gift_id: gift_id@ },
        ]);
    }
    advance_turn(game, events);
    Ok(())
}

/// Takes the gift named `gift_id` from its holder for `player_id`. The turn does
/// not advance: the player who lost the gift acts next. A refused theft changes
/// nothing.
pub fn steal_gift(
    game: &mut Game,
    player_id: &PlayerId,
    gift_id: &GiftId,
    events: &mut Vec<GameEvent>,
) -> (r: Result<(), GameError>)
    ensures
        match steal_refusal(old(game)@, player_id@, gift_id@) {
            Some(e) => r == Err::<(), GameError>(e) && *final(game) == *old(game) && *final(events)
                == *old(events),
            None => r is Ok && final(game)@ == after_steal(old(game)@, player_id@, gift_id@)
                && event_models(final(events)@) == event_models(old(events)@) + steal_events(
                old(game)@,
                player_id@,
                gift_id@,
            ),
        },
{
    let i = match find_gift(&game.gifts, gift_id) {
        Some(i) => i,
        None => {
            return Err(GameError::GiftNotFound);
        },
    };
    match game.gifts[i].state {
        GiftState::Opened => {},
        GiftState::Unopened => {
            return Err(GameError::GiftUnopened);
        },
    }
    let current_holder = match &game.gifts[i].held_by {
        Some(h) => h.clone(),
        None => {
            return Err(GameError::InvalidAction);
        },
    };
    if current_holder == *player_id {
        return Err(GameError::CannotStealOwnGift);
    }
    if game.gifts[i].stolen_count >= STEAL_LIMIT {
        return Err(GameError::StealLimitReached);
    }
    if immediate_steal_back(game, player_id, &current_holder) {
        return Err(GameError::StealBackNotAllowed);
    }
    game.gifts[i].stolen_count = game.gifts[i].stolen_count + 1;
    game.gifts[i].held_by = Some(player_id.clone());
    events.push(
        GameEvent::GiftStolen {
            from: current_holder.clone(),
            to: player_id.clone(),
            gift_id: gift_id.clone(),
        },
    );
    game.active_player = Some(current_holder.clone());
    events.push(GameEvent::TurnChanged { player_id: current_holder });
    proof {
        let before = old(game)@;
        assert(gift_models(game.gifts@) =~= before.gifts.update(
            i as int,
            stolen_gift(before.gifts[i as int], player_id@),
        ));
        assert(event_models(events@) =~= event_models(old(events)@) + steal_events(
            before,
            player_id@,
            gift_id@,
        ));
    }
    Ok(())
}

/// No player holds more gifts than there are.
pub proof fn lemma_holder_count_bound(gifts: Seq<GiftModel>, id: Text)
    ensures
        holder_count(gifts, id) <= gifts.len(),
    decreases gifts.len(),
{
    if gifts.len() > 0 {
        lemma_holder_count_bound(gifts.drop_last(), id);
    }
}

/// Whether every player holds exactly one gift.
pub fn all_players_holding_one(players: &[Player], gifts: &[Gift]) -> (r: bool)
    ensures
        r == each_holds_one(player_models(players@), gift_models(gifts@)),
{
    let ghost gm = gift_models(gifts@);
    let ghost pm = player_models(players@);
    let mut holder_counts: StringHashMap<usize> = StringHashMap::new();
    let mut i: usize = 0;
    while i < gifts.len()
        invariant
            i <= gifts.len(),
            gm == gift_models(gifts@),
            forall|k: Text|
                #![trigger holder_counts@.contains_key(k)]
                #![trigger holder_count(gm.take(i as int), k)]
                holder_count(gm.take(i as int), k) == if holder_counts@.contains_key(k) {
                    holder_counts@[k] as nat
                } else {
                    0nat
                },
        decreases gifts.len() - i,
    {
        let ghost seen = holder_counts@;
        assert(gm.take(i + 1).drop_last() =~= gm.take(i as int));
        if let Some(holder) = &gifts[i].held_by {
            let count = match holder_counts.get(holder.as_str()) {
                Some(c) => *c,
                None => 0,
            };
            proof {
                lemma_holder_count_bound(gm.take(i as int), holder@);
            }
            holder_counts.insert(holder.clone(), count + 1);
        }
        assert forall|k: Text|
            #![trigger holder_counts@.contains_key(k)]
            #![trigger holder_count(gm.take(i + 1), k)]
            holder_count(gm.take(i + 1), k) == if holder_counts@.contains_key(k) {
                holder_counts@[k] as nat
            } else {
                0nat
            } by {
            assert(holder_count(gm.take(i as int), k) == if seen.contains_key(k) {
                seen[k] as nat
            } else {
                0nat
            });
        }
        i += 1;
    }
    assert(gm.take(gifts.len() as int) =~= gm);
    let mut j: usize = 0;
    while j < players.len()
        invariant
            j <= players.len(),
            pm == player_models(players@),
            gm == gift_models(gifts@),
            forall|k: Text|
                #![trigger holder_counts@.contains_key(k)]
                #![trigger holder_count(gm, k)]
                holder_count(gm, k) == if holder_counts@.contains_key(k) {
                    holder_counts@[k] as nat
                } else {
                    0nat
                },
            forall|p: int| 0 <= p < j ==> holder_count(gm, (#[trigger] pm[p]).id) == 1,
        decreases players.len() - j,
    {
        let holds_one = match holder_counts.get(players[j].id.as_str()) {
            Some(c) => *c == 1,
            None => false,
        };
        if !holds_one {
            assert(holder_count(gm, pm[j as int].id) != 1);
            return false;
        }
        j += 1;
    }
    true
}

/// Validates `action` against the game and applies it.
///
/// An accepted action changes the game as `step` says, appends its events to
/// the history and returns them in the order of emission. A refused action
/// leaves the game as it was. The counter of turns stops at `usize::MAX`, as
/// `stored` says; no game whose order of turns a machine can hold gets there
/// by the rules.
pub fn apply_action(game: &mut Game, action: PlayerAction) -> (r: Result<
    Vec<GameEvent>,
    GameError,
>)
    ensures
        match apply_spec(old(game)@, action@) {
            Ok((next, events)) => r matches Ok(v) && event_models(v@) == events && final(game)@
                == stored(next),
            Err(e) => r == Err::<Vec<GameEvent>, GameError>(e) && *final(game) == *old(game),
        },
{
    match game.phase {
        GamePhase::InProgress => {},
        _ => {
            return Err(GameError::WrongPhase);
        },
    }
    let actor = match &action {
        PlayerAction::ChooseGift { player_id, .. } => player_id,
        PlayerAction::StealGift { player_id, .. } => player_id,
    };
    let on_turn = match &game.active_player {
        Some(active) => *active == *actor,
        None => false,
    };
    if !on_turn {
        return Err(GameError::NotPlayersTurn);
    }
    let mut events: Vec<GameEvent> = Vec::new();
    let moved = match &action {
        PlayerAction::ChooseGift { player_id, gift_id } => choose_gift(
            game,
            player_id,
            gift_id,
            &mut events,
        ),
        PlayerAction::StealGift { player_id, gift_id } => steal_gift(
            game,
            player_id,
            gift_id,
            &mut events,
        ),
    };
    if let Err(e) = moved {
        return Err(e);
    }
    if all_gifts_opened(game.gifts.as_slice()) && all_players_holding_one(
        game.players.as_slice(),
        game.gifts.as_slice(),
    ) {
        game.phase = GamePhase::Finished;
        events.push(GameEvent::GameFinished);
    }
    append_events(&mut game.history, &events);
    Ok(events)
}

} // verus!
