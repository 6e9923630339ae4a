//! The lobby of one game: players join, each brings a gift, and the host starts
//! the game. Every operation checks its preconditions in a fixed order and stops
//! at the first that fails; a refused operation changes nothing.

use crate::game::{first_of, ids_of, opening};
use crate::record::{copy_gift_record, GameRecord, GiftRecord, PlayerRecord, RecordModel};
use crate::shuffle::{
    is_arrangement, same_ids, seeded_order, seeded_positions, shuffle_from_entropy, shuffle_seeded,
};
use crate::text::{copy_opt, copy_strings, fresh_id, is_blank, trim, trimmed};
use crate::types::{opt_text, texts, GameModel, GamePhase, GiftModel, GiftState, PlayerModel, Text};
use vstd::prelude::*;

verus! {

/// Why an operation on the lobby or on the directory of games was refused.
#[derive(Debug, Clone, Copy, PartialEq, Eq, Structural)]
pub enum ApiError {
    InvalidAdminPassword,
    GameNotFound,
    PlayerNotFound,
    NameRequired,
    NameTaken,
    SubmissionsClosed,
    GiftFieldsRequired,
    HostTokenRequired,
    InvalidHostToken,
    AlreadyStarted,
    NoPlayers,
    MissingGifts,
}

impl ApiError {
    /// The HTTP status under which the refusal is reported: 401 for a failed
    /// proof of identity, 404 for what is missing, 400 for invalid input, 409
    /// for a wrong phase or a name that is taken.
    pub open spec fn status_spec(self) -> u16 {
        match self {
            ApiError::InvalidAdminPassword => 401,
            ApiError::HostTokenRequired => 401,
            ApiError::InvalidHostToken => 401,
            ApiError::GameNotFound => 404,
            ApiError::PlayerNotFound => 404,
            ApiError::NameRequired => 400,
            ApiError::GiftFieldsRequired => 400,
            ApiError::NoPlayers => 400,
            ApiError::MissingGifts => 400,
            ApiError::NameTaken => 409,
            ApiError::SubmissionsClosed => 409,
            ApiError::AlreadyStarted => 409,
        }
    }

    /// The HTTP status under which the refusal is reported.
    #[verifier::when_used_as_spec(status_spec)]
    pub fn status(self) -> (code: u16)
        ensures
            code == self.status_spec(),
    {
        match self {
            ApiError::InvalidAdminPassword => 401,
            ApiError::HostTokenRequired => 401,
            ApiError::InvalidHostToken => 401,
            ApiError::GameNotFound => 404,
            ApiError::PlayerNotFound => 404,
            ApiError::NameRequired => 400,
            ApiError::GiftFieldsRequired => 400,
            ApiError::NoPlayers => 400,
            ApiError::MissingGifts => 400,
            ApiError::NameTaken => 409,
            ApiError::SubmissionsClosed => 409,
            ApiError::AlreadyStarted => 409,
        }
    }
}

/// What the host learns when the game has started.
#[derive(Clone, Debug, PartialEq, Eq)]
pub struct StartResponse {
    pub phase: GamePhase,
    pub turn_order: Vec<String>,
    pub active_player: Option<String>,
}

/// What a player may say of the gift that they bring.
#[derive(Clone, Debug, PartialEq, Eq)]
pub struct GiftRequest {
    pub player_id: String,
    pub product_url: String,
    pub hint: String,
    pub image_url: Option<String>,
    pub title: Option<String>,
}

#[verifier::ext_equal]
pub struct GiftRequestModel {
    pub player_id: Text,
    pub product_url: Text,
    pub hint: Text,
    pub image_url: Option<Text>,
    pub title: Option<Text>,
}

impl View for GiftRequest {
    type V = GiftRequestModel;

    open spec fn view(&self) -> GiftRequestModel {
        GiftRequestModel {
            player_id: self.player_id@,
            product_url: self.product_url@,
            hint: self.hint@,
            image_url: opt_text(self.image_url),
            title: opt_text(self.title),
        }
    }
}

/// A game that waits for players and gifts.
pub open spec fn empty_lobby(id: Text, host_token: Text) -> RecordModel {
    RecordModel {
        host_token,
        game: GameModel {
            id,
            phase: GamePhase::Submissions,
            players: Seq::empty(),
            gifts: Seq::empty(),
            turn_order: Seq::empty(),
            current_turn: 0,
            active_player: None,
            history: Seq::empty(),
        },
    }
}

/// A player with this id belongs to the game.
pub open spec fn has_player(players: Seq<PlayerModel>, id: Text) -> bool {
    exists|i: int| 0 <= i < players.len() && (#[trigger] players[i]).id == id
}

/// A player of this name belongs to the game.
pub open spec fn name_taken(players: Seq<PlayerModel>, name: Text) -> bool {
    exists|i: int| 0 <= i < players.len() && (#[trigger] players[i]).name == name
}

/// `i` is the position of the first gift that `player` has brought.
pub open spec fn is_first_submission(gifts: Seq<GiftModel>, player: Text, i: int) -> bool {
    &&& 0 <= i < gifts.len()
    &&& gifts[i].submitted_by == player
    &&& forall|j: int| 0 <= j < i ==> (#[trigger] gifts[j]).submitted_by != player
}

/// The position of the first gift that `player` has brought, if there is one.
pub open spec fn submission_of(gifts: Seq<GiftModel>, player: Text) -> Option<int> {
    if exists|i: int| is_first_submission(gifts, player, i) {
        Some(choose|i: int| is_first_submission(gifts, player, i))
    } else {
        None
    }
}

/// Every player has brought a gift.
pub open spec fn all_have_gifts(players: Seq<PlayerModel>, gifts: Seq<GiftModel>) -> bool {
    forall|i: int|
        0 <= i < players.len() ==> submission_of(gifts, (#[trigger] players[i]).id) is Some
}

/// Why a player of this name may not join, if anything stands against it.
pub open spec fn join_refusal(r: RecordModel, name: Text) -> Option<ApiError> {
    if trimmed(name).len() == 0 {
        Some(ApiError::NameRequired)
    } else if name_taken(r.game.players, trimmed(name)) {
        Some(ApiError::NameTaken)
    } else {
        None
    }
}

/// The player of this id and name who joined at the given time.
pub open spec fn new_player(id: Text, name: Text, joined_at: u64) -> PlayerModel {
    PlayerModel { id, name, joined_at }
}

/// The game with one more player at the end of its list.
pub open spec fn joined(r: RecordModel, player: PlayerModel) -> RecordModel {
    RecordModel { game: GameModel { players: r.game.players.push(player), ..r.game }, ..r }
}

/// Why the gift may not be submitted, if anything stands against it.
pub open spec fn gift_refusal(r: RecordModel, req: GiftRequestModel) -> Option<ApiError> {
    if r.game.phase != GamePhase::Submissions {
        Some(ApiError::SubmissionsClosed)
    } else if trimmed(req.product_url).len() == 0 || trimmed(req.hint).len() == 0 {
        Some(ApiError::GiftFieldsRequired)
    } else if !has_player(r.game.players, req.player_id) {
        Some(ApiError::PlayerNotFound)
    } else {
        None
    }
}

/// The gift as it stands once the request has been taken in: the gift that the
/// player has brought before, with its description replaced, or else a new
/// wrapped gift named `new_id`.
pub open spec fn submitted_gift(r: RecordModel, req: GiftRequestModel, new_id: Text) -> GiftModel {
    match submission_of(r.game.gifts, req.player_id) {
        Some(i) => GiftModel {
            product_url: req.product_url,
            hint: req.hint,
            image_url: req.image_url,
            title: req.title,
            ..r.game.gifts[i]
        },
        None => GiftModel {
            id: new_id,
            submitted_by: req.player_id,
            product_url: req.product_url,
            hint: req.hint,
            image_url: req.image_url,
            title: req.title,
            opened_by: None,
            held_by: None,
            stolen_count: 0,
            state: GiftState::Unopened,
        },
    }
}

/// The game once the request has been taken in: the player's gift is replaced
/// where it stands, or the new gift comes last.
pub open spec fn with_gift(r: RecordModel, req: GiftRequestModel, new_id: Text) -> RecordModel {
    let gift = submitted_gift(r, req, new_id);
    let gifts = match submission_of(r.game.gifts, req.player_id) {
        Some(i) => r.game.gifts.update(i, gift),
        None => r.game.gifts.push(gift),
    };
    RecordModel { game: GameModel { gifts, ..r.game }, ..r }
}

/// Why the bearer of `token` may not start the game, if anything stands against it.
pub open spec fn start_refusal(r: RecordModel, token: Option<Text>) -> Option<ApiError> {
    if token is None {
        Some(ApiError::HostTokenRequired)
    } else if token != Some(r.host_token) {
        Some(ApiError::InvalidHostToken)
    } else if r.game.phase != GamePhase::Submissions {
        Some(ApiError::AlreadyStarted)
    } else if r.game.players.len() == 0 {
        Some(ApiError::NoPlayers)
    } else if !all_have_gifts(r.game.players, r.game.gifts) {
        Some(ApiError::MissingGifts)
    } else {
        None
    }
}

/// The gift wrapped again, in nobody's hands and never stolen.
pub open spec fn wrapped(g: GiftModel) -> GiftModel {
    GiftModel {
        state: GiftState::Unopened,
        opened_by: None,
        held_by: None,
        stolen_count: 0,
        ..g
    }
}

/// The game as it starts with the given order of turns: in progress at the
/// first turn, every gift wrapped, the history empty.
pub open spec fn begun(r: RecordModel, order: Seq<Text>) -> RecordModel {
    RecordModel {
        game: opening(
            r.game.id,
            r.game.players,
            r.game.gifts.map_values(|g: GiftModel| wrapped(g)),
            order,
        ),
        ..r
    }
}

impl GameRecord {
    /// A game that waits for players and gifts.
    pub fn new_lobby(id: String, host_token: String) -> (r: GameRecord)
        ensures
            r@ == empty_lobby(id@, host_token@),
    {
        GameRecord {
            id,
            host_token,
            players: Vec::new(),
            gifts: Vec::new(),
            phase: GamePhase::Submissions,
            turn_order: Vec::new(),
            current_turn: 0,
            active_player: None,
            history: Vec::new(),
        }
    }

    /// Whether a player with this id belongs to the game.
    pub fn has_player(&self, id: &String) -> (r: bool)
        ensures
            r == has_player(self@.game.players, id@),
    {
        let mut i: usize = 0;
        while i < self.players.len()
            invariant
                i <= self.players.len(),
                forall|j: int| 0 <= j < i ==> (#[trigger] self@.game.players[j]).id != id@,
            decreases self.players.len() - i,
        {
            if self.players[i].id == *id {
                assert(self@.game.players[i as int].id == id@);
                return true;
            }
            i += 1;
        }
        false
    }

    /// Whether a player of this name belongs to the game.
    pub fn name_taken(&self, name: &String) -> (r: bool)
        ensures
            r == name_taken(self@.game.players, name@),
    {
        let mut i: usize = 0;
        while i < self.players.len()
            invariant
                i <= self.players.len(),
                forall|j: int| 0 <= j < i ==> (#[trigger] self@.game.players[j]).name != name@,
            decreases self.players.len() - i,
        {
            if self.players[i].name == *name {
                assert(self@.game.players[i as int].name == name@);
                return true;
            }
            i += 1;
        }
        false
    }

    /// The position of the first gift that `player` has brought.
    pub fn submission_index(&self, player: &String) -> (r: Option<usize>)
        ensures
            match r {
                Some(i) => submission_of(self@.game.gifts, player@) == Some(i as int),
                None => submission_of(self@.game.gifts, player@) is None,
            },
    {
        let mut i: usize = 0;
        while i < self.gifts.len()
            invariant
                i <= self.gifts.len(),
                forall|j: int|
                    0 <= j < i ==> (#[trigger] self@.game.gifts[j]).submitted_by != player@,
            decreases self.gifts.len() - i,
        {
            if self.gifts[i].submitted_by == *player {
                assert(is_first_submission(self@.game.gifts, player@, i as int));
                return Some(i);
            }
            i += 1;
        }
        None
    }

    /// Whether every player has brought a gift.
    pub fn all_have_gifts(&self) -> (r: bool)
        ensures
            r == all_have_gifts(self@.game.players, self@.game.gifts),
    {
        let mut i: usize = 0;
        while i < self.players.len()
            invariant
                i <= self.players.len(),
                forall|j: int|
                    0 <= j < i ==> submission_of(
                        self@.game.gifts,
                        (#[trigger] self@.game.players[j]).id,
                    ) is Some,
            decreases self.players.len() - i,
        {
            if self.submission_index(&self.players[i].id).is_none() {
                assert(submission_of(self@.game.gifts, self@.game.players[i as int].id) is None);
                return false;
            }
            i += 1;
        }
        true
    }

    /// The trimmed name under which a player may join, or why they may not.
    pub fn check_join(&self, name: &String) -> (r: Result<String, ApiError>)
        ensures
            match join_refusal(self@, name@) {
                Some(e) => r == Err::<String, ApiError>(e),
                None => r matches Ok(t) && t@ == trimmed(name@),
            },
    {
        let name = trim(name);
        if is_blank(&name) {
            return Err(ApiError::NameRequired);
        }
        if self.name_taken(&name) {
            return Err(ApiError::NameTaken);
        }
        Ok(name)
    }

    /// Takes in a player under the given id. The name is trimmed; an empty or
    /// taken name is refused.
    pub fn add_player(&mut self, id: String, name: &String, joined_at: u64) -> (r: Result<
        (),
        ApiError,
    >)
        ensures
            match join_refusal(old(self)@, name@) {
                Some(e) => r == Err::<(), ApiError>(e) && *final(self) == *old(self),
                None => r is Ok && final(self)@ == joined(
                    old(self)@,
                    new_player(id@, trimmed(name@), joined_at),
                ),
            },
    {
        match self.check_join(name) {
            Err(e) => Err(e),
            Ok(trimmed_name) => {
                self.players.push(PlayerRecord { id, name: trimmed_name, joined_at });
                assert(self@.game.players =~= old(self)@.game.players.push(
                    PlayerModel { id: id@, name: trimmed(name@), joined_at },
                ));
                Ok(())
            },
        }
    }

    /// Takes in a player under a fresh random id and returns the id. The name is
    /// trimmed; an empty or taken name is refused.
    pub fn join(&mut self, name: &String, joined_at: u64) -> (r: Result<String, ApiError>)
        ensures
            match join_refusal(old(self)@, name@) {
                Some(e) => r == Err::<String, ApiError>(e) && *final(self) == *old(self),
                None => r matches Ok(id) && final(self)@ == joined(
                    old(self)@,
                    new_player(id@, trimmed(name@), joined_at),
                ),
            },
    {
        match self.check_join(name) {
            Err(e) => Err(e),
            Ok(trimmed_name) => {
                let id = fresh_id();
                self.players.push(PlayerRecord { id: id.clone(), name: trimmed_name, joined_at });
                assert(self@.game.players =~= old(self)@.game.players.push(
                    PlayerModel { id: id@, name: trimmed(name@), joined_at },
                ));
                Ok(id)
            },
        }
    }

    /// Whether the gift may be submitted, and if so, where the player's earlier
    /// gift stands.
    pub fn check_gift(&self, req: &GiftRequest) -> (r: Result<Option<usize>, ApiError>)
        ensures
            match gift_refusal(self@, req@) {
                Some(e) => r == Err::<Option<usize>, ApiError>(e),
                None => r matches Ok(at) && match at {
                    Some(i) => submission_of(self@.game.gifts, req@.player_id) == Some(i as int),
                    None => submission_of(self@.game.gifts, req@.player_id) is None,
                },
            },
    {
        match self.phase {
            GamePhase::Submissions => {},
            _ => {
                return Err(ApiError::SubmissionsClosed);
            },
        }
        if is_blank(&trim(&req.product_url)) || is_blank(&trim(&req.hint)) {
            return Err(ApiError::GiftFieldsRequired);
        }
        if !self.has_player(&req.player_id) {
            return Err(ApiError::PlayerNotFound);
        }
        Ok(self.submission_index(&req.player_id))
    }

    /// Puts the gift in its place: over the description of the gift at `at`, or
    /// at the end under the name `new_id`.
    fn place_gift(&mut self, at: Option<usize>, req: GiftRequest, new_id: String) -> (gift:
        GiftRecord)
        requires
            match at {
                Some(i) => submission_of(old(self)@.game.gifts, req@.player_id) == Some(i as int),
                None => submission_of(old(self)@.game.gifts, req@.player_id) is None,
            },
        ensures
            final(self)@ == with_gift(old(self)@, req@, new_id@),
            gift@ == submitted_gift(old(self)@, req@, new_id@),
    {
        match at {
            Some(i) => {
                self.gifts[i].product_url = req.product_url;
                self.gifts[i].hint = req.hint;
                self.gifts[i].image_url = req.image_url;
                self.gifts[i].title = req.title;
                assert(self@.game.gifts =~= old(self)@.game.gifts.update(
                    i as int,
                    submitted_gift(old(self)@, req@, new_id@),
                ));
                copy_gift_record(&self.gifts[i])
            },
            None => {
                let gift = GiftRecord {
                    id: new_id,
                    submitted_by: req.player_id,
                    product_url: req.product_url,
                    hint: req.hint,
                    image_url: req.image_url,
                    title: req.title,
                    opened_by: None,
                    held_by: None,
                    stolen_count: 0,
                    state: GiftState::Unopened,
                };
                let copy = copy_gift_record(&gift);
                self.gifts.push(gift);
                assert(self@.game.gifts =~= old(self)@.game.gifts.push(
                    submitted_gift(old(self)@, req@, new_id@),
                ));
                copy
            },
        }
    }

    /// Takes in a gift, and returns it as it stands afterwards. While gifts are
    /// taken, a player of the game who names a product and a hint either
    /// replaces the description of their earlier gift, which keeps its id, or
    /// adds a wrapped gift under the id `new_id`.
    pub fn upsert_gift(&mut self, req: GiftRequest, new_id: String) -> (r: Result<
        GiftRecord,
        ApiError,
    >)
        ensures
            match gift_refusal(old(self)@, req@) {
                Some(e) => r matches Err(x) && x == e && *final(self) == *old(self),
                None => r matches Ok(gift) && gift@ == submitted_gift(old(self)@, req@, new_id@)
                    && final(self)@ == with_gift(old(self)@, req@, new_id@),
            },
    {
        match self.check_gift(&req) {
            Err(e) => Err(e),
            Ok(at) => Ok(self.place_gift(at, req, new_id)),
        }
    }

    /// Takes in a gift as `upsert_gift` does; a gift that is new gets a fresh
    /// random id, which the returned gift shows.
    pub fn submit_gift(&mut self, req: GiftRequest) -> (r: Result<GiftRecord, ApiError>)
        ensures
            match gift_refusal(old(self)@, req@) {
                Some(e) => r matches Err(x) && x == e && *final(self) == *old(self),
                None => r matches Ok(gift) && gift@ == submitted_gift(old(self)@, req@, gift@.id)
                    && final(self)@ == with_gift(old(self)@, req@, gift@.id),
            },
    {
        match self.check_gift(&req) {
            Err(e) => Err(e),
            Ok(at) => {
                let new_id = match at {
                    Some(_) => String::new(),
                    None => fresh_id(),
                };
                Ok(self.place_gift(at, req, new_id))
            },
        }
    }

    /// Whether the bearer of `token` may start the game.
    pub fn check_start(&self, token: &Option<String>) -> (r: Result<(), ApiError>)
        ensures
            match start_refusal(self@, opt_text(*token)) {
                Some(e) => r == Err::<(), ApiError>(e),
                None => r is Ok,
            },
    {
        match token {
            None => {
                return Err(ApiError::HostTokenRequired);
            },
            Some(t) => {
                if *t != self.host_token {
                    return Err(ApiError::InvalidHostToken);
                }
            },
        }
        match self.phase {
            GamePhase::Submissions => {},
            _ => {
                return Err(ApiError::AlreadyStarted);
            },
        }
        if self.players.len() == 0 {
            return Err(ApiError::NoPlayers);
        }
        if !self.all_have_gifts() {
            return Err(ApiError::MissingGifts);
        }
        Ok(())
    }

    /// The ids of the players, in the order in which they joined.
    pub fn player_ids(&self) -> (r: Vec<String>)
        ensures
            texts(r@) == ids_of(self@.game.players),
    {
        let mut ids: Vec<String> = Vec::new();
        let mut i: usize = 0;
        while i < self.players.len()
            invariant
                i <= self.players.len(),
                ids.len() == i,
                forall|j: int| 0 <= j < i ==> (#[trigger] ids@[j])@ == self.players@[j].id@,
            decreases self.players.len() - i,
        {
            ids.push(self.players[i].id.clone());
            i += 1;
        }
        ids
    }

    /// Starts the game with the given order of turns, whatever the order holds:
    /// the game is in progress at its first turn, every gift is wrapped again
    /// and the history is empty.
    pub fn begin(&mut self, order: Vec<String>) -> (r: StartResponse)
        ensures
            final(self)@ == begun(old(self)@, texts(order@)),
            r.phase == GamePhase::InProgress,
            texts(r.turn_order@) == texts(order@),
            opt_text(r.active_player) == first_of(texts(order@)),
    {
        let mut i: usize = 0;
        while i < self.gifts.len()
            invariant
                i <= self.gifts.len(),
                self.gifts.len() == old(self).gifts.len(),
                self.id == old(self).id,
                self.host_token == old(self).host_token,
                self.players == old(self).players,
                forall|j: int|
                    0 <= j < i ==> (#[trigger] self.gifts@[j])@ == wrapped(old(self).gifts@[j]@),
                forall|j: int|
                    i <= j < self.gifts.len() ==> (#[trigger] self.gifts@[j]) == old(
                        self,
                    ).gifts@[j],
            decreases self.gifts.len() - i,
        {
            self.gifts[i].state = GiftState::Unopened;
            self.gifts[i].opened_by = None;
            self.gifts[i].held_by = None;
            self.gifts[i].stolen_count = 0;
            i += 1;
        }
        let active = if order.len() > 0 {
            Some(order[0].clone())
        } else {
            None
        };
        let response = StartResponse {
            phase: GamePhase::InProgress,
            turn_order: copy_strings(&order),
            active_player: copy_opt(&active),
        };
        self.phase = GamePhase::InProgress;
        self.turn_order = order;
        self.current_turn = 0;
        self.active_player = active;
        self.history = Vec::new();
        proof {
            assert(self@.game.gifts =~= old(self)@.game.gifts.map_values(
                |g: GiftModel| wrapped(g),
            ));
        }
        response
    }

    /// Starts the game for the bearer of the host token, once every player has
    /// brought a gift. The order of turns is a shuffle of the players' ids: with
    /// a seed the one that the seed determines, without a seed a random one.
    /// Which position of the order of joining comes to which turn depends on
    /// the seed and the number of players alone.
    pub fn start(&mut self, token: &Option<String>, seed: Option<u64>) -> (r: Result<
        StartResponse,
        ApiError,
    >)
        ensures
            match start_refusal(old(self)@, opt_text(*token)) {
                Some(e) => r matches Err(x) && x == e && *final(self) == *old(self),
                None => r matches Ok(response) && ({
                    let order = final(self)@.game.turn_order;
                    &&& final(self)@ == begun(old(self)@, order)
                    &&& same_ids(order, ids_of(old(self)@.game.players))
                    &&& seed matches Some(s) ==> order == seeded_order(
                        ids_of(old(self)@.game.players),
                        s,
                    ) && is_arrangement(seeded_positions(order.len(), s), order.len())
                    &&& response.phase == GamePhase::InProgress
                    &&& texts(response.turn_order@) == order
                    &&& opt_text(response.active_player) == first_of(order)
                }),
            },
    {
        match self.check_start(token) {
            Err(e) => Err(e),
            Ok(()) => {
                let ids = self.player_ids();
                let order = match seed {
                    Some(s) => shuffle_seeded(ids, s),
                    None => shuffle_from_entropy(ids),
                };
                Ok(self.begin(order))
            },
        }
    }
}

} // verus!
