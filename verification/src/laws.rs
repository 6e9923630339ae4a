//! Laws of the rules engine, proved of the model on which its contracts rest.

use crate::game::ids_of;
use crate::invariants::{
    fresh, gift_ok, gifts_ok, holders_distinct, holds_gift, in_prefix, invariants,
    lemma_holder_count, lemma_opened_count_bound, lemma_opened_count_update, opened_count,
    well_formed,
};
use crate::model::{
    apply_spec, each_holds_one, first_gift, has_next_turn, holder_count, opened_gift, refusal, step,
    step_events, stolen_gift, stored, STEAL_LIMIT,
};
use crate::shuffle::{lemma_same_ids, same_ids};
use crate::types::{
    ActionModel, EventModel, GameError, GameModel, GamePhase, GiftModel, GiftState, Text,
};
use vstd::prelude::*;

verus! {

/// Where no gift is open, the number of open gifts is zero.
pub proof fn lemma_none_opened(gifts: Seq<GiftModel>)
    requires
        forall|i: int| 0 <= i < gifts.len() ==> (#[trigger] gifts[i]).state == GiftState::Unopened,
    ensures
        opened_count(gifts) == 0,
    decreases gifts.len(),
{
    if gifts.len() > 0 {
        let front = gifts.drop_last();
        assert forall|i: int| 0 <= i < front.len() implies (#[trigger] front[i]).state
            == GiftState::Unopened by {}
        lemma_none_opened(front);
    }
}

/// A game at its start is well formed and satisfies the invariants.
pub proof fn lemma_fresh_is_well_formed(g: GameModel)
    requires
        fresh(g),
    ensures
        well_formed(g),
        invariants(g),
{
    lemma_none_opened(g.gifts);
    assert forall|i: int| 0 <= i < g.gifts.len() implies gift_ok(#[trigger] g.gifts[i]) by {}
}

/// What opening a wrapped gift does to who holds what.
proof fn lemma_after_opening(gifts: Seq<GiftModel>, i: int, actor: Text)
    requires
        0 <= i < gifts.len(),
        gifts_ok(gifts),
        holders_distinct(gifts),
        gifts[i].state == GiftState::Unopened,
        !holds_gift(gifts, actor),
    ensures
        ({
            let after = gifts.update(i, opened_gift(gifts[i], actor));
            &&& gifts_ok(after)
            &&& holders_distinct(after)
            &&& opened_count(after) == opened_count(gifts) + 1
            &&& holds_gift(after, actor)
            &&& forall|x: Text| holds_gift(gifts, x) ==> holds_gift(after, x)
            &&& forall|x: Text| holds_gift(after, x) ==> x == actor || holds_gift(gifts, x)
        }),
{
    let after = gifts.update(i, opened_gift(gifts[i], actor));
    assert forall|j: int| 0 <= j < after.len() implies gift_ok(#[trigger] after[j]) by {}
    assert forall|p: int, q: int|
        0 <= p < q < after.len() && (#[trigger] after[p]).held_by is Some implies after[p].held_by
        != (#[trigger] after[q]).held_by by {}
    lemma_opened_count_update(gifts, i, opened_gift(gifts[i], actor));
    assert(after[i].held_by == Some(actor));
    assert forall|x: Text| holds_gift(gifts, x) implies holds_gift(after, x) by {
        let j = choose|j: int| 0 <= j < gifts.len() && (#[trigger] gifts[j]).held_by == Some(x);
        assert(after[j].held_by == Some(x));
    }
    assert forall|x: Text| holds_gift(after, x) implies x == actor || holds_gift(gifts, x) by {}
}

/// What a theft does to who holds what.
proof fn lemma_after_theft(gifts: Seq<GiftModel>, i: int, actor: Text)
    requires
        0 <= i < gifts.len(),
        gifts_ok(gifts),
        holders_distinct(gifts),
        gifts[i].state == GiftState::Opened,
        gifts[i].stolen_count < STEAL_LIMIT,
        gifts[i].held_by != Some(actor),
        !holds_gift(gifts, actor),
    ensures
        ({
            let after = gifts.update(i, stolen_gift(gifts[i], actor));
            let victim = gifts[i].held_by->0;
            &&& gifts_ok(after)
            &&& holders_distinct(after)
            &&& opened_count(after) == opened_count(gifts)
            &&& holds_gift(after, actor)
            &&& !holds_gift(after, victim)
            &&& forall|x: Text| holds_gift(gifts, x) && x != victim ==> holds_gift(after, x)
            &&& forall|x: Text| holds_gift(after, x) ==> x == actor || holds_gift(gifts, x)
        }),
{
    let after = gifts.update(i, stolen_gift(gifts[i], actor));
    assert forall|j: int| 0 <= j < after.len() implies gift_ok(#[trigger] after[j]) by {}
    assert forall|p: int, q: int|
        0 <= p < q < after.len() && (#[trigger] after[p]).held_by is Some implies after[p].held_by
        != (#[trigger] after[q]).held_by by {}
    lemma_opened_count_update(gifts, i, stolen_gift(gifts[i], actor));
    assert(after[i].held_by == Some(actor));
    assert forall|x: Text| holds_gift(gifts, x) && x != gifts[i].held_by->0 implies holds_gift(
        after,
        x,
    ) by {
        let j = choose|j: int| 0 <= j < gifts.len() && (#[trigger] gifts[j]).held_by == Some(x);
        assert(after[j].held_by == Some(x));
    }
    assert forall|x: Text| holds_gift(after, x) implies x == actor || holds_gift(gifts, x) by {}
}

/// Where every player of the order holds a gift and no two gifts are in the
/// same hands, every player holds exactly one.
proof fn lemma_everyone_holds_one(g: GameModel, gifts: Seq<GiftModel>)
    requires
        ids_of(g.players).no_duplicates(),
        same_ids(g.turn_order, ids_of(g.players)),
        holders_distinct(gifts),
        forall|k: int|
            0 <= k < g.turn_order.len() ==> holds_gift(gifts, #[trigger] g.turn_order[k]),
    ensures
        each_holds_one(g.players, gifts),
{
    lemma_same_ids(g.turn_order, ids_of(g.players));
    assert forall|p: int| 0 <= p < g.players.len() implies holder_count(
        gifts,
        (#[trigger] g.players[p]).id,
    ) == 1 by {
        let id = g.players[p].id;
        assert(ids_of(g.players)[p] == id);
        assert(g.turn_order.contains(id));
        lemma_holder_count(gifts, id);
    }
}

/// An accepted opening of a gift leaves a well-formed game well formed.
proof fn lemma_choose_keeps_well_formed(g: GameModel, actor: Text, gift_id: Text)
    requires
        well_formed(g),
        refusal(g, ActionModel::ChooseGift { player_id: actor, gift_id }) is None,
    ensures
        well_formed(step(g, ActionModel::ChooseGift { player_id: actor, gift_id })),
        invariants(step(g, ActionModel::ChooseGift { player_id: actor, gift_id })),
{
    let i = first_gift(g.gifts, gift_id)->0;
    let after = g.gifts.update(i, opened_gift(g.gifts[i], actor));
    let order = g.turn_order;
    let turn = g.current_turn as int;
    lemma_after_opening(g.gifts, i, actor);
    lemma_same_ids(order, ids_of(g.players));
    lemma_opened_count_bound(after);
    if has_next_turn(g) {
        // Whoever holds a gift stays within the turns that have begun.
        assert forall|j: int|
            0 <= j < after.len() && (#[trigger] after[j]).held_by is Some implies in_prefix(
            order,
            turn + 1,
            after[j].held_by->0,
        ) by {
            assert(in_prefix(order, turn, after[j].held_by->0));
        }
        // Everybody of these turns holds a gift, but for the player who is next.
        assert forall|k: int|
            0 <= k <= turn + 1 implies #[trigger] order[k] == order[turn + 1] || holds_gift(
            after,
            order[k],
        ) by {}
    } else {
        assert forall|k: int| 0 <= k < order.len() implies holds_gift(
            after,
            #[trigger] order[k],
        ) by {}
        lemma_everyone_holds_one(g, after);
    }
}

/// An accepted theft leaves a well-formed game well formed.
proof fn lemma_steal_keeps_well_formed(g: GameModel, actor: Text, gift_id: Text)
    requires
        well_formed(g),
        refusal(g, ActionModel::StealGift { player_id: actor, gift_id }) is None,
    ensures
        well_formed(step(g, ActionModel::StealGift { player_id: actor, gift_id })),
        invariants(step(g, ActionModel::StealGift { player_id: actor, gift_id })),
{
    let i = first_gift(g.gifts, gift_id)->0;
    let after = g.gifts.update(i, stolen_gift(g.gifts[i], actor));
    let victim = g.gifts[i].held_by->0;
    let order = g.turn_order;
    let turn = g.current_turn as int;
    lemma_after_theft(g.gifts, i, actor);
    lemma_same_ids(order, ids_of(g.players));
    lemma_opened_count_bound(after);
    assert(in_prefix(order, turn, victim));
    assert(order.contains(victim));
    assert forall|j: int|
        0 <= j < after.len() && (#[trigger] after[j]).held_by is Some implies in_prefix(
        order,
        turn,
        after[j].held_by->0,
    ) by {}
    assert forall|k: int| 0 <= k <= turn implies #[trigger] order[k] == victim || holds_gift(
        after,
        order[k],
    ) by {}
}

/// Every accepted action leaves a well-formed game well formed, and the game
/// that it leaves satisfies the invariants of the data model.
pub proof fn lemma_step_keeps_well_formed(g: GameModel, a: ActionModel)
    requires
        well_formed(g),
        refusal(g, a) is None,
    ensures
        well_formed(step(g, a)),
        invariants(step(g, a)),
{
    match a {
        ActionModel::ChooseGift { player_id, gift_id } => lemma_choose_keeps_well_formed(
            g,
            player_id,
            gift_id,
        ),
        ActionModel::StealGift { player_id, gift_id } => lemma_steal_keeps_well_formed(
            g,
            player_id,
            gift_id,
        ),
    }
}

/// The game after the actions have been applied one after the other, if the
/// rules accept each of them.
pub open spec fn run(g: GameModel, actions: Seq<ActionModel>) -> Option<GameModel>
    decreases actions.len(),
{
    if actions.len() == 0 {
        Some(g)
    } else {
        match run(g, actions.drop_last()) {
            Some(m) => if refusal(m, actions.last()) is None {
                Some(step(m, actions.last()))
            } else {
                None
            },
            None => None,
        }
    }
}

/// Where a sequence of actions is accepted, each of its beginnings is accepted.
pub proof fn lemma_run_prefix(g: GameModel, actions: Seq<ActionModel>, k: int)
    requires
        run(g, actions) is Some,
        0 <= k <= actions.len(),
    ensures
        run(g, actions.take(k)) is Some,
    decreases actions.len(),
{
    if k == actions.len() {
        assert(actions.take(k) =~= actions);
    } else {
        assert(actions.drop_last().take(k) =~= actions.take(k));
        lemma_run_prefix(g, actions.drop_last(), k);
    }
}

/// A well-formed game stays well formed through every accepted sequence of
/// actions, satisfies the invariants afterwards, and has only grown its history.
pub proof fn lemma_run_keeps_well_formed(g: GameModel, actions: Seq<ActionModel>)
    requires
        well_formed(g),
        invariants(g),
        run(g, actions) is Some,
    ensures
        well_formed(run(g, actions)->0),
        invariants(run(g, actions)->0),
        g.history.is_prefix_of(run(g, actions)->0.history),
    decreases actions.len(),
{
    if actions.len() > 0 {
        lemma_run_keeps_well_formed(g, actions.drop_last());
        lemma_step_keeps_well_formed(run(g, actions.drop_last())->0, actions.last());
    }
}

/// Through any sequence of accepted actions from the start of a game, every
/// state on the way satisfies the invariants of the data model, and the
/// history only grows.
pub proof fn lemma_invariants_hold_throughout(g: GameModel, actions: Seq<ActionModel>, k: int)
    requires
        fresh(g),
        run(g, actions) is Some,
        0 <= k <= actions.len(),
    ensures
        run(g, actions.take(k)) is Some,
        invariants(run(g, actions.take(k))->0),
        well_formed(run(g, actions.take(k))->0),
        g.history.is_prefix_of(run(g, actions.take(k))->0.history),
{
    lemma_fresh_is_well_formed(g);
    lemma_run_prefix(g, actions, k);
    lemma_run_keeps_well_formed(g, actions.take(k));
}

/// An accepted action appends its events to the history and leaves the count
/// of thefts of every gift as it was, but for a stolen gift, whose count
/// grows by one.
pub proof fn lemma_step_effects(g: GameModel, a: ActionModel)
    requires
        refusal(g, a) is None,
    ensures
        step(g, a).history == g.history + step_events(g, a),
        step(g, a).gifts.len() == g.gifts.len(),
        forall|i: int|
            0 <= i < g.gifts.len() ==> (#[trigger] step(g, a).gifts[i]).stolen_count
                == g.gifts[i].stolen_count + (if a is StealGift && first_gift(g.gifts, a.gift())
                == Some(i) {
                1int
            } else {
                0int
            }),
{
    assert(first_gift(g.gifts, a.gift()) is Some);
}

/// The events of an accepted action come in a fixed order: first the opening
/// or the theft, then the change of turn if there is one, and the end of the
/// game last, exactly if the action finishes the game.
pub proof fn lemma_event_order(g: GameModel, a: ActionModel)
    requires
        refusal(g, a) is None,
    ensures
        ({
            let events = step_events(g, a);
            &&& 1 <= events.len() <= 3
            &&& a is ChooseGift ==> events[0] == (EventModel::GiftOpened {
                player_id: a.actor(),
                gift_id: a.gift(),
            })
            &&& a is StealGift ==> events[0] == (EventModel::GiftStolen {
                from: g.gifts[first_gift(g.gifts, a.gift())->0].held_by->0,
                to: a.actor(),
                gift_id: a.gift(),
            })
            &&& forall|k: int|
                0 < k < events.len() ==> (#[trigger] events[k]) is TurnChanged
                    || events[k] is GameFinished
            &&& forall|k: int|
                0 <= k < events.len() && (#[trigger] events[k]) is TurnChanged ==> k == 1
            &&& forall|k: int|
                0 <= k < events.len() && (#[trigger] events[k]) is GameFinished ==> k
                    == events.len() - 1
            &&& events.last() is GameFinished <==> step(g, a).phase == GamePhase::Finished
        }),
{
}

/// An accepted action never leaves a theft as the last entry of the history:
/// every theft is followed by the change of turn that it forces. So the
/// action that follows an accepted one is never refused as a steal-back.
pub proof fn lemma_theft_is_never_last(g: GameModel, a: ActionModel, b: ActionModel)
    requires
        refusal(g, a) is None,
    ensures
        step(g, a).history.len() > 0,
        !(step(g, a).history.last() is GiftStolen),
        refusal(step(g, a), b) != Some(GameError::StealBackNotAllowed),
{
    assert(step(g, a).history.last() == step_events(g, a).last());
}

/// While the counter of turns is below the largest number that a machine can
/// count, the machine keeps the game after an accepted action exactly as the
/// rules leave it.
pub proof fn lemma_stored_is_exact(g: GameModel, a: ActionModel)
    requires
        refusal(g, a) is None,
        g.current_turn < usize::MAX,
    ensures
        stored(step(g, a)) == step(g, a),
{
    assert(stored(step(g, a)) =~= step(g, a));
}

/// Once a game is finished, the rules accept no further action.
pub proof fn lemma_finished_is_terminal(g: GameModel, a: ActionModel)
    requires
        g.phase == GamePhase::Finished,
    ensures
        apply_spec(g, a) == Err::<(GameModel, Seq<EventModel>), GameError>(GameError::WrongPhase),
{
}

/// A game that an accepted action has finished accepts no further action.
pub proof fn lemma_completion_is_stable(g: GameModel, a: ActionModel, b: ActionModel)
    requires
        refusal(g, a) is None,
        step(g, a).phase == GamePhase::Finished,
    ensures
        apply_spec(step(g, a), b) is Err,
{
}

} // verus!
