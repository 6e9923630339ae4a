//! What holds of every game that is played by the rules: the invariants of the
//! data model, and the stronger description of a game in play from which they
//! are proved.

use crate::game::ids_of;
use crate::model::{all_opened, completed, holder_count, STEAL_LIMIT};
use crate::shuffle::same_ids;
use crate::types::{GameModel, GamePhase, GiftModel, GiftState, Text};
use vstd::prelude::*;

verus! {

/// A wrapped gift is in nobody's hands and was opened by nobody; an open gift
/// has both an opener and a holder. No gift was stolen more often than the
/// limit allows.
pub open spec fn gift_ok(g: GiftModel) -> bool {
    &&& g.stolen_count <= STEAL_LIMIT
    &&& g.state == GiftState::Unopened ==> g.opened_by is None && g.held_by is None
    &&& g.state == GiftState::Opened ==> g.opened_by is Some && g.held_by is Some
}

/// Every gift is in order.
pub open spec fn gifts_ok(gifts: Seq<GiftModel>) -> bool {
    forall|i: int| 0 <= i < gifts.len() ==> gift_ok(#[trigger] gifts[i])
}

/// No two gifts are in the same hands.
pub open spec fn holders_distinct(gifts: Seq<GiftModel>) -> bool {
    forall|i: int, j: int|
        0 <= i < j < gifts.len() && (#[trigger] gifts[i]).held_by is Some ==> gifts[i].held_by
            != (#[trigger] gifts[j]).held_by
}

/// While the game is in progress, somebody of the order of turns is active.
pub open spec fn active_in_order(g: GameModel) -> bool {
    g.phase == GamePhase::InProgress ==> g.active_player is Some && g.turn_order.contains(
        g.active_player->0,
    )
}

/// The game is finished exactly if every gift is open and every player holds
/// exactly one.
pub open spec fn finished_iff_completed(g: GameModel) -> bool {
    g.phase == GamePhase::Finished <==> completed(g.players, g.gifts)
}

/// The invariants of the state of a game.
pub open spec fn invariants(g: GameModel) -> bool {
    &&& active_in_order(g)
    &&& gifts_ok(g.gifts)
    &&& holders_distinct(g.gifts)
    &&& finished_iff_completed(g)
}

/// `id` holds one of the gifts.
pub open spec fn holds_gift(gifts: Seq<GiftModel>, id: Text) -> bool {
    exists|i: int| 0 <= i < gifts.len() && (#[trigger] gifts[i]).held_by == Some(id)
}

/// `id` is one of the first `last + 1` of the order.
pub open spec fn in_prefix(order: Seq<Text>, last: int, id: Text) -> bool {
    exists|k: int| 0 <= k <= last && k < order.len() && #[trigger] order[k] == id
}

/// How many of the gifts are open.
pub open spec fn opened_count(gifts: Seq<GiftModel>) -> nat
    decreases gifts.len(),
{
    if gifts.len() == 0 {
        0
    } else {
        opened_count(gifts.drop_last()) + if gifts.last().state == GiftState::Opened {
            1nat
        } else {
            0nat
        }
    }
}

/// A game in progress as the rules leave it: as many gifts are open as turns
/// have passed; the players up to the current turn each hold a gift, but for
/// the active one, who holds none; and nobody else holds anything.
pub open spec fn in_play(g: GameModel) -> bool {
    &&& g.current_turn < g.turn_order.len()
    &&& opened_count(g.gifts) == g.current_turn
    &&& g.active_player is Some
    &&& !holds_gift(g.gifts, g.active_player->0)
    &&& in_prefix(g.turn_order, g.current_turn as int, g.active_player->0)
    &&& forall|i: int|
        0 <= i < g.gifts.len() && (#[trigger] g.gifts[i]).held_by is Some ==> in_prefix(
            g.turn_order,
            g.current_turn as int,
            g.gifts[i].held_by->0,
        )
    &&& forall|k: int|
        0 <= k <= g.current_turn ==> #[trigger] g.turn_order[k] == g.active_player->0
            || holds_gift(g.gifts, g.turn_order[k])
}

/// A game that has started and is played by the rules: the order of turns
/// holds each player once, there is a gift for each player, and the game is
/// either in play or completed.
pub open spec fn well_formed(g: GameModel) -> bool {
    &&& g.players.len() >= 1
    &&& ids_of(g.players).no_duplicates()
    &&& same_ids(g.turn_order, ids_of(g.players))
    &&& g.gifts.len() == g.players.len()
    &&& gifts_ok(g.gifts)
    &&& holders_distinct(g.gifts)
    &&& match g.phase {
        GamePhase::InProgress => in_play(g),
        GamePhase::Finished => completed(g.players, g.gifts),
        _ => false,
    }
}

/// A game at its start: in progress at the first turn, every gift wrapped and
/// never stolen, the first of the order active.
pub open spec fn fresh(g: GameModel) -> bool {
    &&& g.phase == GamePhase::InProgress
    &&& g.players.len() >= 1
    &&& ids_of(g.players).no_duplicates()
    &&& same_ids(g.turn_order, ids_of(g.players))
    &&& g.gifts.len() == g.players.len()
    &&& forall|i: int|
        0 <= i < g.gifts.len() ==> {
            &&& (#[trigger] g.gifts[i]).state == GiftState::Unopened
            &&& g.gifts[i].opened_by is None
            &&& g.gifts[i].held_by is None
            &&& g.gifts[i].stolen_count == 0
        }
    &&& g.current_turn == 0
    &&& g.turn_order.len() > 0
    &&& g.active_player == Some(g.turn_order[0])
}

/// No more gifts are open than there are, and all are open exactly if as many
/// are open as there are.
pub proof fn lemma_opened_count_bound(gifts: Seq<GiftModel>)
    ensures
        opened_count(gifts) <= gifts.len(),
        opened_count(gifts) == gifts.len() <==> all_opened(gifts),
    decreases gifts.len(),
{
    if gifts.len() > 0 {
        let front = gifts.drop_last();
        lemma_opened_count_bound(front);
        if all_opened(gifts) {
            assert forall|i: int| 0 <= i < front.len() implies (#[trigger] front[i]).state
                == GiftState::Opened by {}
        }
        if opened_count(gifts) == gifts.len() {
            assert forall|i: int| 0 <= i < gifts.len() implies (#[trigger] gifts[i]).state
                == GiftState::Opened by {
                if i < front.len() {
                    assert(front[i] == gifts[i]);
                }
            }
        }
    }
}

/// Replacing one gift changes the number of open gifts by what that gift adds.
pub proof fn lemma_opened_count_update(gifts: Seq<GiftModel>, i: int, gift: GiftModel)
    requires
        0 <= i < gifts.len(),
    ensures
        opened_count(gifts.update(i, gift)) + (if gifts[i].state == GiftState::Opened {
            1int
        } else {
            0int
        }) == opened_count(gifts) + (if gift.state == GiftState::Opened {
            1int
        } else {
            0int
        }),
    decreases gifts.len(),
{
    let after = gifts.update(i, gift);
    if i == gifts.len() - 1 {
        assert(after.drop_last() =~= gifts.drop_last());
    } else {
        assert(after.drop_last() =~= gifts.drop_last().update(i, gift));
        lemma_opened_count_update(gifts.drop_last(), i, gift);
    }
}

/// Who holds a gift is counted at least once; where no two gifts are in the
/// same hands, at most once.
pub proof fn lemma_holder_count(gifts: Seq<GiftModel>, id: Text)
    ensures
        holds_gift(gifts, id) <==> holder_count(gifts, id) >= 1,
        holders_distinct(gifts) ==> holder_count(gifts, id) <= 1,
    decreases gifts.len(),
{
    if gifts.len() > 0 {
        let front = gifts.drop_last();
        lemma_holder_count(front, id);
        // The gifts before the last are among the gifts.
        assert forall|i: int| 0 <= i < front.len() implies #[trigger] front[i] == gifts[i] by {}
        if holds_gift(gifts, id) && gifts.last().held_by != Some(id) {
            let i = choose|i: int|
                0 <= i < gifts.len() && (#[trigger] gifts[i]).held_by == Some(id);
            assert(front[i].held_by == Some(id));
        }
        if holders_distinct(gifts) {
            assert forall|i: int, j: int|
                0 <= i < j < front.len() && (#[trigger] front[i]).held_by is Some implies front[i]
                .held_by != (#[trigger] front[j]).held_by by {}
        }
    }
}

} // verus!
