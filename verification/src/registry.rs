//! The directory of games: every stored game under its id, in the order of
//! creation. Each operation of the lobby and of a room is offered here by the
//! id of the game, and fails with `GameNotFound` where the id is unknown.

use crate::game::{first_of, ids_of};
use crate::lobby::{
    begun, empty_lobby, gift_refusal, has_player, join_refusal, joined, new_player, start_refusal,
    submitted_gift, with_gift, ApiError, GiftRequest, StartResponse,
};
use crate::record::{
    copy_record, message_models, public_part, to_view, GameRecord, GameView, GiftRecord,
    RecordModel, ServerMessage,
};
use crate::room::{action_refusal, after_action, broadcast_of, GameActionError};
use crate::shuffle::{is_arrangement, same_ids, seeded_order, seeded_positions};
use crate::text::{fresh_id, is_blank, trim, trimmed};
use crate::types::{opt_text, texts, GamePhase, PlayerAction, Text};
use vstd::prelude::*;

verus! {

/// What the admin learns when a game has been created.
#[derive(Clone, Debug, PartialEq, Eq)]
pub struct CreateGameResponse {
    pub game_id: String,
    pub host_token: String,
}

/// The directory of games.
#[derive(Clone, Debug)]
pub struct Registry {
    games: Vec<GameRecord>,
}

/// The model of each stored game.
pub open spec fn record_models(s: Seq<GameRecord>) -> Seq<RecordModel> {
    s.map_values(|r: GameRecord| r@)
}

/// The ids of the games, in the order of the games.
pub open spec fn game_ids(records: Seq<RecordModel>) -> Seq<Text> {
    records.map_values(|r: RecordModel| r.game.id)
}

/// `i` is the position of the first game named `id`.
pub open spec fn is_first_game(records: Seq<RecordModel>, id: Text, i: int) -> bool {
    &&& 0 <= i < records.len()
    &&& records[i].game.id == id
    &&& forall|j: int| 0 <= j < i ==> (#[trigger] records[j]).game.id != id
}

/// The position of the game named `id`, if there is one.
pub open spec fn position(records: Seq<RecordModel>, id: Text) -> Option<int> {
    if exists|i: int| is_first_game(records, id, i) {
        Some(choose|i: int| is_first_game(records, id, i))
    } else {
        None
    }
}

/// The games with `record` among them: in the place of the game of the same
/// id, or else at the end.
pub open spec fn installed(records: Seq<RecordModel>, record: RecordModel) -> Seq<RecordModel> {
    match position(records, record.game.id) {
        Some(i) => records.update(i, record),
        None => records.push(record),
    }
}

/// The games that come of putting the given games into an empty directory,
/// one after the other.
pub open spec fn restored(records: Seq<RecordModel>) -> Seq<RecordModel>
    decreases records.len(),
{
    if records.len() == 0 {
        Seq::empty()
    } else {
        installed(restored(records.drop_last()), records.last())
    }
}

/// The games at startup: those of the snapshot, restored, if there is one.
pub open spec fn loaded(saved: Option<Vec<GameRecord>>) -> Seq<RecordModel> {
    match saved {
        Some(records) => restored(record_models(records@)),
        None => Seq::empty(),
    }
}

/// Why a player of this name may not join the game named `game_id`, if
/// anything stands against it. An empty name is refused whether or not the
/// game exists.
pub open spec fn join_game_refusal(records: Seq<RecordModel>, game_id: Text, name: Text) -> Option<
    ApiError,
> {
    if trimmed(name).len() == 0 {
        Some(ApiError::NameRequired)
    } else {
        match position(records, game_id) {
            None => Some(ApiError::GameNotFound),
            Some(i) => join_refusal(records[i], name),
        }
    }
}

impl View for Registry {
    type V = Seq<RecordModel>;

    closed spec fn view(&self) -> Seq<RecordModel> {
        record_models(self.games@)
    }
}

impl Registry {
    /// No two games of the directory have the same id.
    pub open spec fn wf(&self) -> bool {
        game_ids(self@).no_duplicates()
    }

    /// A directory without games.
    pub fn new() -> (r: Registry)
        ensures
            r.wf(),
            r@ == Seq::<RecordModel>::empty(),
    {
        Registry { games: Vec::new() }
    }

    /// The number of games.
    pub fn len(&self) -> (n: usize)
        ensures
            n == self@.len(),
    {
        self.games.len()
    }

    /// The position of the game named `id`.
    pub fn find(&self, id: &String) -> (r: Option<usize>)
        ensures
            match r {
                Some(i) => position(self@, id@) == Some(i as int) && i < self@.len()
                    && self@[i as int].game.id == id@,
                None => position(self@, id@) is None,
            },
    {
        let mut i: usize = 0;
        while i < self.games.len()
            invariant
                i <= self.games.len(),
                forall|j: int| 0 <= j < i ==> (#[trigger] self@[j]).game.id != id@,
            decreases self.games.len() - i,
        {
            if self.games[i].id == *id {
                assert(is_first_game(self@, id@, i as int));
                return Some(i);
            }
            i += 1;
        }
        None
    }

    /// Puts the game into the directory, in the place of the game of the same
    /// id if there is one.
    pub fn install(&mut self, record: GameRecord)
        ensures
            old(self).wf() ==> final(self).wf(),
            final(self)@ == installed(old(self)@, record@),
    {
        match self.find(&record.id) {
            Some(i) => {
                self.games[i] = record;
                assert(game_ids(self@) =~= game_ids(old(self)@));
            },
            None => {
                self.games.push(record);
                assert forall|p: int, q: int|
                    old(self).wf() && 0 <= p < q < self@.len() implies game_ids(self@)[p]
                    != game_ids(self@)[q] by {
                    if q == old(self)@.len() {
                        if old(self)@[p].game.id == record@.game.id {
                            lemma_first_game_exists(old(self)@, record@.game.id, p);
                        }
                    } else {
                        assert(game_ids(old(self)@)[p] != game_ids(old(self)@)[q]);
                    }
                }
            },
        }
    }

    /// A copy of every game, in the order of the directory.
    pub fn snapshot(&self) -> (r: Vec<GameRecord>)
        ensures
            record_models(r@) == self@,
    {
        let mut out: Vec<GameRecord> = Vec::new();
        let mut i: usize = 0;
        while i < self.games.len()
            invariant
                i <= self.games.len(),
                out.len() == i,
                forall|j: int| 0 <= j < i ==> (#[trigger] out@[j])@ == self.games@[j]@,
            decreases self.games.len() - i,
        {
            out.push(copy_record(&self.games[i]));
            i += 1;
        }
        out
    }

    /// The directory that holds the given games, put in one after the other:
    /// a later game takes the place of an earlier one of the same id. Where no
    /// two of the games have the same id, the directory holds them as they are
    /// given, so that a snapshot restores the directory from which it was
    /// taken.
    pub fn restore(records: &Vec<GameRecord>) -> (r: Registry)
        ensures
            r.wf(),
            r@ == restored(record_models(records@)),
            game_ids(record_models(records@)).no_duplicates() ==> r@ == record_models(records@),
    {
        let ghost given = record_models(records@);
        let mut registry = Registry::new();
        let mut i: usize = 0;
        while i < records.len()
            invariant
                i <= records.len(),
                given == record_models(records@),
                registry.wf(),
                registry@ == restored(given.take(i as int)),
            decreases records.len() - i,
        {
            assert(given.take(i + 1).drop_last() =~= given.take(i as int));
            registry.install(copy_record(&records[i]));
            i += 1;
        }
        proof {
            assert(given.take(records.len() as int) =~= given);
            if game_ids(given).no_duplicates() {
                lemma_restored_as_given(given);
            }
        }
        registry
    }

    /// The directory at startup: the games of the snapshot, restored, where a
    /// snapshot was found and could be read, and no games where none was.
    pub fn load(saved: &Option<Vec<GameRecord>>) -> (r: Registry)
        ensures
            r.wf(),
            r@ == loaded(*saved),
    {
        match saved {
            Some(records) => Registry::restore(records),
            None => Registry::new(),
        }
    }

    /// Creates a game for the bearer of the admin password: an empty lobby
    /// under a fresh random id, with a fresh random host token.
    pub fn create_game(&mut self, provided: &String, expected: &String) -> (r: Result<
        CreateGameResponse,
        ApiError,
    >)
        ensures
            old(self).wf() ==> final(self).wf(),
            match r {
                Ok(created) => provided@ == expected@ && final(self)@ == installed(
                    old(self)@,
                    empty_lobby(created.game_id@, created.host_token@),
                ),
                Err(e) => provided@ != expected@ && e == ApiError::InvalidAdminPassword
                    && final(self)@ == old(self)@,
            },
    {
        if *provided != *expected {
            return Err(ApiError::InvalidAdminPassword);
        }
        let game_id = fresh_id();
        let host_token = fresh_id();
        self.install(GameRecord::new_lobby(game_id.clone(), host_token.clone()));
        Ok(CreateGameResponse { game_id, host_token })
    }

    /// What everybody may see of the game named `game_id`.
    pub fn get_game(&self, game_id: &String) -> (r: Result<GameView, ApiError>)
        ensures
            match position(self@, game_id@) {
                None => r matches Err(e) && e == ApiError::GameNotFound,
                Some(i) => r matches Ok(view) && view@ == public_part(self@[i].game),
            },
    {
        match self.find(game_id) {
            None => Err(ApiError::GameNotFound),
            Some(i) => Ok(to_view(&self.games[i])),
        }
    }

    /// What a session of `player_id` receives when it subscribes to the game
    /// named `game_id`: the current state, if the game exists and the player
    /// belongs to it.
    pub fn subscribe(&self, game_id: &String, player_id: &String) -> (r: Result<
        GameView,
        ApiError,
    >)
        ensures
            match position(self@, game_id@) {
                None => r matches Err(e) && e == ApiError::GameNotFound,
                Some(i) => if has_player(self@[i].game.players, player_id@) {
                    r matches Ok(view) && view@ == public_part(self@[i].game)
                } else {
                    r matches Err(e) && e == ApiError::PlayerNotFound
                },
            },
    {
        match self.find(game_id) {
            None => Err(ApiError::GameNotFound),
            Some(i) => self.games[i].subscribe(player_id),
        }
    }

    /// Takes a player into the game named `game_id`, under a fresh random id,
    /// and returns the id. An empty name is refused before the game is looked up.
    pub fn join_game(&mut self, game_id: &String, name: &String, joined_at: u64) -> (r: Result<
        String,
        ApiError,
    >)
        ensures
            old(self).wf() ==> final(self).wf(),
            match join_game_refusal(old(self)@, game_id@, name@) {
                Some(refused) => r matches Err(e) && e == refused && final(self)@ == old(self)@,
                None => r matches Ok(id) && final(self)@ == old(self)@.update(
                    position(old(self)@, game_id@)->0,
                    joined(
                        old(self)@[position(old(self)@, game_id@)->0],
                        new_player(id@, trimmed(name@), joined_at),
                    ),
                ),
            },
    {
        if is_blank(&trim(name)) {
            return Err(ApiError::NameRequired);
        }
        let i = match self.find(game_id) {
            Some(i) => i,
            None => {
                return Err(ApiError::GameNotFound);
            },
        };
        let r = self.games[i].join(name, joined_at);
        assert(game_ids(self@) =~= game_ids(old(self)@));
        r
    }

    /// Takes in a gift for the game named `game_id`.
    pub fn submit_gift(&mut self, game_id: &String, req: GiftRequest) -> (r: Result<
        GiftRecord,
        ApiError,
    >)
        ensures
            old(self).wf() ==> final(self).wf(),
            match position(old(self)@, game_id@) {
                None => r matches Err(e) && e == ApiError::GameNotFound && final(self)@ == old(
                    self,
                )@,
                Some(i) => match gift_refusal(old(self)@[i], req@) {
                    Some(refused) => r matches Err(e) && e == refused && final(self)@ == old(
                        self,
                    )@,
                    None => r matches Ok(gift) && gift@ == submitted_gift(
                        old(self)@[i],
                        req@,
                        gift@.id,
                    ) && final(self)@ == old(self)@.update(
                        i,
                        with_gift(old(self)@[i], req@, gift@.id),
                    ),
                },
            },
    {
        let i = match self.find(game_id) {
            Some(i) => i,
            None => {
                return Err(ApiError::GameNotFound);
            },
        };
        let r = self.games[i].submit_gift(req);
        assert(game_ids(self@) =~= game_ids(old(self)@));
        r
    }

    /// Starts the game named `game_id` for the bearer of its host token. The
    /// order of turns is a shuffle of the players' ids: with a seed the one
    /// that the seed determines, without a seed a random one.
    pub fn start_game(&mut self, game_id: &String, token: &Option<String>, seed: Option<u64>) -> (r:
        Result<StartResponse, ApiError>)
        ensures
            old(self).wf() ==> final(self).wf(),
            match position(old(self)@, game_id@) {
                None => r matches Err(e) && e == ApiError::GameNotFound && final(self)@ == old(
                    self,
                )@,
                Some(i) => match start_refusal(old(self)@[i], opt_text(*token)) {
                    Some(refused) => r matches Err(e) && e == refused && final(self)@ == old(
                        self,
                    )@,
                    None => r matches Ok(response) && ({
                        let players = ids_of(old(self)@[i].game.players);
                        let order = texts(response.turn_order@);
                        &&& final(self)@ == old(self)@.update(i, begun(old(self)@[i], order))
                        &&& same_ids(order, players)
                        &&& seed matches Some(s) ==> order == seeded_order(players, s)
                            && is_arrangement(seeded_positions(order.len(), s), order.len())
                        &&& response.phase == GamePhase::InProgress
                        &&& opt_text(response.active_player) == first_of(order)
                    }),
                },
            },
    {
        let i = match self.find(game_id) {
            Some(i) => i,
            None => {
                return Err(ApiError::GameNotFound);
            },
        };
        let r = self.games[i].start(token, seed);
        assert(game_ids(self@) =~= game_ids(old(self)@));
        r
    }

    /// Applies the action that the session of `player_id` submits to the game
    /// named `game_id`. An accepted action changes the stored game and returns
    /// what is to be sent to the subscribers of the room; a refused one
    /// changes nothing and returns no message.
    pub fn process_action(
        &mut self,
        game_id: &String,
        player_id: &String,
        action: PlayerAction,
    ) -> (r: Result<Vec<ServerMessage>, GameActionError>)
        ensures
            old(self).wf() ==> final(self).wf(),
            match position(old(self)@, game_id@) {
                None => r matches Err(e) && e == GameActionError::GameNotFound && final(self)@
                    == old(self)@,
                Some(i) => match action_refusal(old(self)@[i], player_id@, action@) {
                    Some(refused) => r matches Err(e) && e == refused && final(self)@ == old(
                        self,
                    )@,
                    None => r matches Ok(messages) && final(self)@ == old(self)@.update(
                        i,
                        after_action(old(self)@[i], action@),
                    ) && message_models(messages@) == broadcast_of(old(self)@[i], action@),
                },
            },
    {
        let i = match self.find(game_id) {
            Some(i) => i,
            None => {
                return Err(GameActionError::GameNotFound);
            },
        };
        let r = self.games[i].submit_action(player_id, action);
        assert(game_ids(self@) =~= game_ids(old(self)@));
        r
    }
}

/// Games of which no two have the same id are restored as they are given.
pub proof fn lemma_restored_as_given(records: Seq<RecordModel>)
    requires
        game_ids(records).no_duplicates(),
    ensures
        restored(records) == records,
    decreases records.len(),
{
    if records.len() > 0 {
        let front = records.drop_last();
        let last = records.last();
        assert(game_ids(front) =~= game_ids(records).drop_last());
        lemma_restored_as_given(front);
        if position(front, last.game.id) is Some {
            let p = position(front, last.game.id)->0;
            assert(is_first_game(front, last.game.id, p));
            assert(game_ids(records)[p] == game_ids(records)[records.len() - 1]);
        }
        assert(front.push(last) =~= records);
    }
}

/// Of the given games, the last of each id is the one that is restored.
pub proof fn lemma_restored_keeps_the_last(records: Seq<RecordModel>, i: int)
    requires
        0 <= i < records.len(),
        forall|j: int|
            i < j < records.len() ==> (#[trigger] records[j]).game.id != records[i].game.id,
    ensures
        position(restored(records), records[i].game.id) matches Some(p) && restored(records)[p]
            == records[i],
    decreases records.len(),
{
    let front = records.drop_last();
    if i == records.len() - 1 {
        lemma_installed_is_found(restored(front), records.last());
    } else {
        assert forall|j: int| i < j < front.len() implies (#[trigger] front[j]).game.id
            != front[i].game.id by {
            assert(front[j] == records[j]);
        }
        lemma_restored_keeps_the_last(front, i);
        lemma_install_keeps_others(restored(front), records.last(), records[i].game.id);
    }
}

/// A game that was put into the directory is found under its id.
pub proof fn lemma_installed_is_found(records: Seq<RecordModel>, record: RecordModel)
    ensures
        position(installed(records, record), record.game.id) matches Some(i) && installed(
            records,
            record,
        )[i] == record,
{
    let after = installed(records, record);
    match position(records, record.game.id) {
        Some(i) => {
            assert(is_first_game(after, record.game.id, i));
        },
        None => {
            assert forall|j: int| 0 <= j < records.len() implies (#[trigger] after[j]).game.id
                != record.game.id by {
                if records[j].game.id == record.game.id {
                    lemma_first_game_exists(records, record.game.id, j);
                }
            }
            assert(is_first_game(after, record.game.id, records.len() as int));
        },
    }
}

/// Putting a game into the directory leaves every game of another id where
/// and as it was.
pub proof fn lemma_install_keeps_others(records: Seq<RecordModel>, record: RecordModel, id: Text)
    requires
        id != record.game.id,
    ensures
        position(installed(records, record), id) == position(records, id),
        position(records, id) matches Some(i) ==> installed(records, record)[i] == records[i],
{
    let after = installed(records, record);
    assert forall|i: int| is_first_game(after, id, i) <==> is_first_game(records, id, i) by {
        if is_first_game(after, id, i) {
            assert forall|j: int| 0 <= j < i implies (#[trigger] records[j]).game.id != id by {
                assert(after[j].game.id != id);
            }
        }
        if is_first_game(records, id, i) {
            assert forall|j: int| 0 <= j < i implies (#[trigger] after[j]).game.id != id by {
                assert(records[j].game.id != id);
            }
        }
    }
    if position(records, id) is Some {
        assert(is_first_game(records, id, position(records, id)->0));
    }
}

/// Where a game is named `id`, the first game of that name has a position.
pub proof fn lemma_first_game_exists(records: Seq<RecordModel>, id: Text, at: int)
    requires
        0 <= at < records.len(),
        records[at].game.id == id,
    ensures
        position(records, id) is Some,
    decreases at,
{
    if exists|j: int| 0 <= j < at && (#[trigger] records[j]).game.id == id {
        let j = choose|j: int| 0 <= j < at && (#[trigger] records[j]).game.id == id;
        lemma_first_game_exists(records, id, j);
    } else {
        assert(is_first_game(records, id, at));
    }
}

} // verus!
