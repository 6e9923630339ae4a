//! Laws of the lobby: what joining and submitting gifts keep, and that a lobby
//! which is in order starts a game at which the rules may begin.

use crate::game::ids_of;
use crate::invariants::fresh;
use crate::lobby::{
    all_have_gifts, begun, empty_lobby, gift_refusal, has_player, is_first_submission, join_refusal,
    joined, start_refusal, submission_of, with_gift, GiftRequestModel,
};
use crate::record::RecordModel;
use crate::shuffle::{is_arrangement, lemma_same_ids, same_ids, seeded_order, seeded_positions};
use crate::text::{lemma_trimmed, trimmed};
use crate::types::{GiftModel, PlayerModel, Text};
use vstd::prelude::*;

verus! {

/// The names of the players, in the order of the players.
pub open spec fn names_of(players: Seq<PlayerModel>) -> Seq<Text> {
    players.map_values(|p: PlayerModel| p.name)
}

/// Who has brought each of the gifts, in the order of the gifts.
pub open spec fn submitters(gifts: Seq<GiftModel>) -> Seq<Text> {
    gifts.map_values(|g: GiftModel| g.submitted_by)
}

/// A name as the lobby keeps it: trimmed, and not empty.
pub open spec fn name_ok(name: Text) -> bool {
    name.len() > 0 && trimmed(name) == name
}

/// A lobby in order: no two players share an id or a name, every name is
/// trimmed and not empty, every gift was brought by a player of the game, and
/// nobody has brought two.
pub open spec fn lobby_ok(r: RecordModel) -> bool {
    &&& ids_of(r.game.players).no_duplicates()
    &&& names_of(r.game.players).no_duplicates()
    &&& forall|i: int|
        0 <= i < r.game.players.len() ==> name_ok((#[trigger] r.game.players[i]).name)
    &&& submitters(r.game.gifts).no_duplicates()
    &&& forall|i: int|
        0 <= i < r.game.gifts.len() ==> has_player(
            r.game.players,
            (#[trigger] r.game.gifts[i]).submitted_by,
        )
}

/// A new lobby is in order.
pub proof fn lemma_empty_lobby_ok(id: Text, host_token: Text)
    ensures
        lobby_ok(empty_lobby(id, host_token)),
{
}

/// A lobby stays in order when a player joins under an id that no player of
/// the game has.
pub proof fn lemma_join_keeps_lobby(r: RecordModel, name: Text, id: Text, joined_at: u64)
    requires
        lobby_ok(r),
        join_refusal(r, name) is None,
        !has_player(r.game.players, id),
    ensures
        lobby_ok(joined(r, PlayerModel { id, name: trimmed(name), joined_at })),
{
    let player = PlayerModel { id, name: trimmed(name), joined_at };
    let before = r.game.players;
    lemma_trimmed(name);
    let after = joined(r, player).game.players;
    assert forall|i: int, j: int| 0 <= i < j < after.len() implies ids_of(after)[i] != ids_of(
        after,
    )[j] && names_of(after)[i] != names_of(after)[j] by {
        if j < before.len() {
            assert(ids_of(before)[i] != ids_of(before)[j]);
            assert(names_of(before)[i] != names_of(before)[j]);
        }
    }
    assert forall|i: int| 0 <= i < r.game.gifts.len() implies has_player(
        after,
        (#[trigger] r.game.gifts[i]).submitted_by,
    ) by {
        let who = r.game.gifts[i].submitted_by;
        let k = choose|k: int| 0 <= k < before.len() && (#[trigger] before[k]).id == who;
        assert(after[k].id == who);
    }
}

/// A lobby stays in order when a gift is submitted.
pub proof fn lemma_gift_keeps_lobby(r: RecordModel, req: GiftRequestModel, new_id: Text)
    requires
        lobby_ok(r),
        gift_refusal(r, req) is None,
    ensures
        lobby_ok(with_gift(r, req, new_id)),
{
    let before = r.game.gifts;
    let after = with_gift(r, req, new_id).game.gifts;
    match submission_of(before, req.player_id) {
        Some(i) => {
            assert(submitters(after) =~= submitters(before));
            assert forall|j: int| 0 <= j < after.len() implies has_player(
                r.game.players,
                (#[trigger] after[j]).submitted_by,
            ) by {}
        },
        None => {
            assert forall|p: int, q: int| 0 <= p < q < after.len() implies submitters(after)[p]
                != submitters(after)[q] by {
                if q == before.len() {
                    if before[p].submitted_by == req.player_id {
                        lemma_first_submission_exists(before, req.player_id, p);
                    }
                } else {
                    assert(submitters(before)[p] != submitters(before)[q]);
                }
            }
            assert forall|j: int| 0 <= j < after.len() implies has_player(
                r.game.players,
                (#[trigger] after[j]).submitted_by,
            ) by {}
        },
    }
}

/// Where a player has brought a gift, their first gift has a position.
pub proof fn lemma_first_submission_exists(gifts: Seq<GiftModel>, player: Text, at: int)
    requires
        0 <= at < gifts.len(),
        gifts[at].submitted_by == player,
    ensures
        submission_of(gifts, player) is Some,
    decreases at,
{
    if exists|j: int| 0 <= j < at && (#[trigger] gifts[j]).submitted_by == player {
        let j = choose|j: int| 0 <= j < at && (#[trigger] gifts[j]).submitted_by == player;
        lemma_first_submission_exists(gifts, player, j);
    } else {
        assert(is_first_submission(gifts, player, at));
    }
}

/// A lobby in order from which the game may be started has as many gifts as
/// players.
pub proof fn lemma_one_gift_each(r: RecordModel)
    requires
        lobby_ok(r),
        all_have_gifts(r.game.players, r.game.gifts),
    ensures
        r.game.gifts.len() == r.game.players.len(),
{
    let ids = ids_of(r.game.players);
    let subs = submitters(r.game.gifts);
    assert forall|x: Text| ids.to_set().contains(x) <==> subs.to_set().contains(x) by {
        if ids.contains(x) {
            let p = choose|p: int| 0 <= p < ids.len() && ids[p] == x;
            assert(r.game.players[p].id == x);
            assert(subs[submission_of(r.game.gifts, x)->0] == x);
        }
        if subs.contains(x) {
            let i = choose|i: int| 0 <= i < subs.len() && subs[i] == x;
            assert(r.game.gifts[i].submitted_by == x);
            let p = choose|p: int|
                0 <= p < r.game.players.len() && (#[trigger] r.game.players[p]).id == x;
            assert(ids[p] == x);
        }
    }
    assert(ids.to_set() =~= subs.to_set());
    ids.unique_seq_to_set();
    subs.unique_seq_to_set();
}

/// A lobby in order starts a game at which the rules may begin, whatever
/// order of the players' ids is drawn.
pub proof fn lemma_start_is_fresh(r: RecordModel, token: Option<Text>, order: Seq<Text>)
    requires
        lobby_ok(r),
        start_refusal(r, token) is None,
        same_ids(order, ids_of(r.game.players)),
    ensures
        fresh(begun(r, order).game),
{
    lemma_one_gift_each(r);
    lemma_same_ids(order, ids_of(r.game.players));
}

/// The game that a start with `seed` leaves.
pub open spec fn seeded_start(r: RecordModel, seed: u64) -> RecordModel {
    begun(r, seeded_order(ids_of(r.game.players), seed))
}

/// Two starts with the same seed, of games with equally many players, arrange
/// the players alike: at each turn stands, in either game, the id from one
/// and the same position in the order of joining. The positions depend on the
/// seed and the number of players alone, not on ids, names, gifts or time.
/// Where they are an arrangement of the players, as every seeded start says
/// of its own, the id at a turn is that of the player who joined at the
/// position.
pub proof fn lemma_seeded_start_is_deterministic(a: RecordModel, b: RecordModel, seed: u64)
    requires
        a.game.players.len() == b.game.players.len(),
    ensures
        ({
            let n = a.game.players.len();
            let positions = seeded_positions(n, seed);
            let first = seeded_start(a, seed).game.turn_order;
            let second = seeded_start(b, seed).game.turn_order;
            &&& first.len() == n
            &&& second.len() == n
            &&& forall|i: int|
                #![trigger positions[i]]
                0 <= i < n ==> first[i] == ids_of(a.game.players)[positions[i]] && second[i]
                    == ids_of(b.game.players)[positions[i]]
            &&& is_arrangement(positions, n) ==> forall|i: int|
                #![trigger positions[i]]
                0 <= i < n ==> first[i] == a.game.players[positions[i]].id && second[i]
                    == b.game.players[positions[i]].id
        }),
{
}

/// Two starts with the same seed, of games whose players have the same ids in
/// the same order, give the same order of turns and the same first player.
pub proof fn lemma_seeded_start_repeats(a: RecordModel, b: RecordModel, seed: u64)
    requires
        ids_of(a.game.players) == ids_of(b.game.players),
    ensures
        seeded_start(a, seed).game.turn_order == seeded_start(b, seed).game.turn_order,
        seeded_start(a, seed).game.active_player == seeded_start(b, seed).game.active_player,
{
}

} // verus!
