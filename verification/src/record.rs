//! The stored form of a game, what clients see of it, and the conversions
//! between the stored form and the state on which the rules work.

use crate::rules::copy_event;
use crate::text::{copy_opt, copy_strings};
use crate::types::{
    event_models, opt_text, texts, EventModel, Game, GameEvent, GameModel, GamePhase, Gift,
    GiftModel, GiftState, Player, PlayerModel, Text,
};
use vstd::prelude::*;

verus! {

/// A game as the server keeps and persists it. The host token is the secret
/// that entitles its bearer to start the game.
#[derive(Clone, Debug, PartialEq, Eq)]
pub struct GameRecord {
    pub id: String,
    pub host_token: String,
    pub players: Vec<PlayerRecord>,
    pub gifts: Vec<GiftRecord>,
    pub phase: GamePhase,
    pub turn_order: Vec<String>,
    pub current_turn: usize,
    pub active_player: Option<String>,
    pub history: Vec<GameEvent>,
}

#[derive(Clone, Debug, PartialEq, Eq)]
pub struct PlayerRecord {
    pub id: String,
    pub name: String,
    pub joined_at: u64,
}

#[derive(Clone, Debug, PartialEq, Eq)]
pub struct GiftRecord {
    pub id: String,
    pub submitted_by: String,
    pub product_url: String,
    pub hint: String,
    pub image_url: Option<String>,
    pub title: Option<String>,
    pub opened_by: Option<String>,
    pub held_by: Option<String>,
    pub stolen_count: u8,
    pub state: GiftState,
}

/// What everybody may see of a game: all of it but the host token, the
/// history and the position in the order of turns.
#[derive(Clone, Debug, PartialEq, Eq)]
pub struct GameView {
    pub id: String,
    pub phase: GamePhase,
    pub players: Vec<PlayerRecord>,
    pub gifts: Vec<GiftRecord>,
    pub turn_order: Vec<String>,
    pub active_player: Option<String>,
}

/// What a room sends to its subscribers.
#[derive(Clone, Debug, PartialEq, Eq)]
pub enum ServerMessage {
    State(GameView),
    Event(GameEvent),
}

#[verifier::ext_equal]
pub struct RecordModel {
    pub host_token: Text,
    pub game: GameModel,
}

#[verifier::ext_equal]
pub struct PublicModel {
    pub id: Text,
    pub phase: GamePhase,
    pub players: Seq<PlayerModel>,
    pub gifts: Seq<GiftModel>,
    pub turn_order: Seq<Text>,
    pub active_player: Option<Text>,
}

#[verifier::ext_equal]
pub enum MessageModel {
    State(PublicModel),
    Event(EventModel),
}

/// The model of each stored player.
pub open spec fn player_record_models(s: Seq<PlayerRecord>) -> Seq<PlayerModel> {
    s.map_values(|p: PlayerRecord| p@)
}

/// The model of each stored gift.
pub open spec fn gift_record_models(s: Seq<GiftRecord>) -> Seq<GiftModel> {
    s.map_values(|g: GiftRecord| g@)
}

/// The model of each message.
pub open spec fn message_models(s: Seq<ServerMessage>) -> Seq<MessageModel> {
    s.map_values(|m: ServerMessage| m@)
}

impl View for PlayerRecord {
    type V = PlayerModel;

    open spec fn view(&self) -> PlayerModel {
        PlayerModel { id: self.id@, name: self.name@, joined_at: self.joined_at }
    }
}

impl View for GiftRecord {
    type V = GiftModel;

    open spec fn view(&self) -> GiftModel {
        GiftModel {
            id: self.id@,
            submitted_by: self.submitted_by@,
            product_url: self.product_url@,
            hint: self.hint@,
            image_url: opt_text(self.image_url),
            title: opt_text(self.title),
            opened_by: opt_text(self.opened_by),
            held_by: opt_text(self.held_by),
            stolen_count: self.stolen_count,
            state: self.state,
        }
    }
}

impl View for GameRecord {
    type V = RecordModel;

    open spec fn view(&self) -> RecordModel {
        RecordModel {
            host_token: self.host_token@,
            game: GameModel {
                id: self.id@,
                phase: self.phase,
                players: player_record_models(self.players@),
                gifts: gift_record_models(self.gifts@),
                turn_order: texts(self.turn_order@),
                current_turn: self.current_turn as nat,
                active_player: opt_text(self.active_player),
                history: event_models(self.history@),
            },
        }
    }
}

impl View for GameView {
    type V = PublicModel;

    open spec fn view(&self) -> PublicModel {
        PublicModel {
            id: self.id@,
            phase: self.phase,
            players: player_record_models(self.players@),
            gifts: gift_record_models(self.gifts@),
            turn_order: texts(self.turn_order@),
            active_player: opt_text(self.active_player),
        }
    }
}

impl View for ServerMessage {
    type V = MessageModel;

    open spec fn view(&self) -> MessageModel {
        match *self {
            ServerMessage::State(v) => MessageModel::State(v@),
            ServerMessage::Event(e) => MessageModel::Event(e@),
        }
    }
}

/// What everybody may see of a game.
pub open spec fn public_part(g: GameModel) -> PublicModel {
    PublicModel {
        id: g.id,
        phase: g.phase,
        players: g.players,
        gifts: g.gifts,
        turn_order: g.turn_order,
        active_player: g.active_player,
    }
}

/// The stored game after the rules have worked on `core`: the rules own the
/// phase, the gifts, the turns and the history; the record keeps its id, its
/// host token and its players.
pub open spec fn merged(record: RecordModel, core: GameModel) -> RecordModel {
    RecordModel {
        host_token: record.host_token,
        game: GameModel { id: record.game.id, players: record.game.players, ..core },
    }
}

/// A copy of a stored player.
pub fn copy_player_record(p: &PlayerRecord) -> (r: PlayerRecord)
    ensures
        r == *p,
{
    PlayerRecord { id: p.id.clone(), name: p.name.clone(), joined_at: p.joined_at }
}

/// A copy of a stored gift.
pub fn copy_gift_record(g: &GiftRecord) -> (r: GiftRecord)
    ensures
        r == *g,
{
    GiftRecord {
        id: g.id.clone(),
        submitted_by: g.submitted_by.clone(),
        product_url: g.product_url.clone(),
        hint: g.hint.clone(),
        image_url: copy_opt(&g.image_url),
        title: copy_opt(&g.title),
        opened_by: copy_opt(&g.opened_by),
        held_by: copy_opt(&g.held_by),
        stolen_count: g.stolen_count,
        state: g.state,
    }
}

/// A copy of a list of stored players.
pub fn copy_player_records(v: &Vec<PlayerRecord>) -> (r: Vec<PlayerRecord>)
    ensures
        r@ == v@,
{
    let mut out: Vec<PlayerRecord> = Vec::new();
    let mut i: usize = 0;
    while i < v.len()
        invariant
            i <= v.len(),
            out@ == v@.take(i as int),
        decreases v.len() - i,
    {
        out.push(copy_player_record(&v[i]));
        i += 1;
    }
    out
}

/// A copy of a list of stored gifts.
pub fn copy_gift_records(v: &Vec<GiftRecord>) -> (r: Vec<GiftRecord>)
    ensures
        r@ == v@,
{
    let mut out: Vec<GiftRecord> = Vec::new();
    let mut i: usize = 0;
    while i < v.len()
        invariant
            i <= v.len(),
            out@ == v@.take(i as int),
        decreases v.len() - i,
    {
        out.push(copy_gift_record(&v[i]));
        i += 1;
    }
    out
}

/// A copy of a list of events.
pub fn copy_events(v: &Vec<GameEvent>) -> (r: Vec<GameEvent>)
    ensures
        r@ == v@,
{
    let mut out: Vec<GameEvent> = Vec::new();
    let mut i: usize = 0;
    while i < v.len()
        invariant
            i <= v.len(),
            out@ == v@.take(i as int),
        decreases v.len() - i,
    {
        out.push(copy_event(&v[i]));
        i += 1;
    }
    out
}

/// A copy of a stored game.
pub fn copy_record(record: &GameRecord) -> (r: GameRecord)
    ensures
        r@ == record@,
        r.players@ == record.players@,
        r.gifts@ == record.gifts@,
{
    GameRecord {
        id: record.id.clone(),
        host_token: record.host_token.clone(),
        players: copy_player_records(&record.players),
        gifts: copy_gift_records(&record.gifts),
        phase: record.phase,
        turn_order: copy_strings(&record.turn_order),
        current_turn: record.current_turn,
        active_player: copy_opt(&record.active_player),
        history: copy_events(&record.history),
    }
}

/// The state on which the rules work, taken from a stored game.
pub fn to_core(record: GameRecord) -> (core: Game)
    ensures
        core@ == record@.game,
{
    let mut players: Vec<Player> = Vec::new();
    let mut i: usize = 0;
    while i < record.players.len()
        invariant
            i <= record.players.len(),
            players.len() == i,
            forall|j: int| 0 <= j < i ==> (#[trigger] players@[j])@ == record.players@[j]@,
        decreases record.players.len() - i,
    {
        let p = &record.players[i];
        players.push(Player { id: p.id.clone(), name: p.name.clone(), joined_at: p.joined_at });
        i += 1;
    }
    let mut gifts: Vec<Gift> = Vec::new();
    let mut k: usize = 0;
    while k < record.gifts.len()
        invariant
            k <= record.gifts.len(),
            gifts.len() == k,
            forall|j: int| 0 <= j < k ==> (#[trigger] gifts@[j])@ == record.gifts@[j]@,
        decreases record.gifts.len() - k,
    {
        let g = &record.gifts[k];
        gifts.push(
            Gift {
                id: g.id.clone(),
                submitted_by: g.submitted_by.clone(),
                product_url: g.product_url.clone(),
                hint: g.hint.clone(),
                image_url: copy_opt(&g.image_url),
                title: copy_opt(&g.title),
                opened_by: copy_opt(&g.opened_by),
                held_by: copy_opt(&g.held_by),
                stolen_count: g.stolen_count,
                state: g.state,
            },
        );
        k += 1;
    }
    let core = Game {
        id: record.id,
        phase: record.phase,
        players,
        gifts,
        turn_order: record.turn_order,
        current_turn: record.current_turn,
        active_player: record.active_player,
        history: record.history,
    };
    core
}

/// Takes over into the stored game what the rules have changed in `core`.
pub fn update_record_from_core(record: &mut GameRecord, core: Game)
    ensures
        final(record)@ == merged(old(record)@, core@),
{
    let mut gifts: Vec<GiftRecord> = Vec::new();
    let mut k: usize = 0;
    while k < core.gifts.len()
        invariant
            k <= core.gifts.len(),
            gifts.len() == k,
            forall|j: int| 0 <= j < k ==> (#[trigger] gifts@[j])@ == core.gifts@[j]@,
        decreases core.gifts.len() - k,
    {
        let g = &core.gifts[k];
        gifts.push(
            GiftRecord {
                id: g.id.clone(),
                submitted_by: g.submitted_by.clone(),
                product_url: g.product_url.clone(),
                hint: g.hint.clone(),
                image_url: copy_opt(&g.image_url),
                title: copy_opt(&g.title),
                opened_by: copy_opt(&g.opened_by),
                held_by: copy_opt(&g.held_by),
                stolen_count: g.stolen_count,
                state: g.state,
            },
        );
        k += 1;
    }
    record.phase = core.phase;
    record.turn_order = core.turn_order;
    record.current_turn = core.current_turn;
    record.active_player = core.active_player;
    record.history = core.history;
    record.gifts = gifts;
}

/// What everybody may see of a stored game.
pub fn to_view(game: &GameRecord) -> (view: GameView)
    ensures
        view@ == public_part(game@.game),
{
    GameView {
        id: game.id.clone(),
        phase: game.phase,
        players: copy_player_records(&game.players),
        gifts: copy_gift_records(&game.gifts),
        turn_order: copy_strings(&game.turn_order),
        active_player: copy_opt(&game.active_player),
    }
}

} // verus!
