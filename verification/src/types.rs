//! The data of one gift-exchange game, and the mathematical model of each type.
//!
//! Every executable type has a view (`@`) in which each string is the sequence of
//! its characters and each vector is a sequence. All contracts of the library are
//! stated over these views.

use vstd::prelude::*;

verus! {

/// The id of a player: an opaque string, unique within a game.
pub type PlayerId = String;

/// The id of a gift: an opaque string.
pub type GiftId = String;

/// A participant of a game.
#[derive(Debug, Clone, PartialEq, Eq)]
pub struct Player {
    pub id: PlayerId,
    pub name: String,
    pub joined_at: u64,
}

/// Whether a gift is still wrapped.
#[derive(Debug, Clone, Copy, PartialEq, Eq, Structural)]
pub enum GiftState {
    Unopened,
    Opened,
}

/// A gift that one player has brought to the game.
#[derive(Debug, Clone, PartialEq, Eq)]
pub struct Gift {
    pub id: GiftId,
    pub submitted_by: PlayerId,
    pub product_url: String,
    pub hint: String,
    pub image_url: Option<String>,
    pub title: Option<String>,
    pub opened_by: Option<PlayerId>,
    pub held_by: Option<PlayerId>,
    pub stolen_count: u8,
    pub state: GiftState,
}

/// Where a game stands. `Lobby` is a reserved value that no operation enters.
#[derive(Debug, Clone, Copy, PartialEq, Eq, Structural)]
pub enum GamePhase {
    Lobby,
    Submissions,
    InProgress,
    Finished,
}

/// What a player asks for on their turn.
#[derive(Debug, Clone, PartialEq, Eq)]
pub enum PlayerAction {
    ChooseGift { player_id: PlayerId, gift_id: GiftId },
    StealGift { player_id: PlayerId, gift_id: GiftId },
}

/// What happened in a game, in the order in which it happened.
#[derive(Debug, Clone, PartialEq, Eq)]
pub enum GameEvent {
    GiftOpened { player_id: PlayerId, gift_id: GiftId },
    GiftStolen { from: PlayerId, to: PlayerId, gift_id: GiftId },
    TurnChanged { player_id: PlayerId },
    GameFinished,
}

/// The state on which the rules work.
#[derive(Debug, Clone, PartialEq, Eq)]
pub struct Game {
    pub id: String,
    pub phase: GamePhase,
    pub players: Vec<Player>,
    pub gifts: Vec<Gift>,
    pub turn_order: Vec<PlayerId>,
    pub current_turn: usize,
    pub active_player: Option<PlayerId>,
    pub history: Vec<GameEvent>,
}

/// Why the rules refused an action.
#[derive(Debug, Clone, Copy, PartialEq, Eq, Structural)]
pub enum GameError {
    WrongPhase,
    NotPlayersTurn,
    GiftNotFound,
    PlayerNotFound,
    GiftAlreadyOpened,
    GiftUnopened,
    CannotStealOwnGift,
    StealLimitReached,
    StealBackNotAllowed,
    InvalidAction,
}

/// A string as the sequence of its characters.
pub type Text = Seq<char>;

#[verifier::ext_equal]
pub struct PlayerModel {
    pub id: Text,
    pub name: Text,
    pub joined_at: u64,
}

#[verifier::ext_equal]
pub struct GiftModel {
    pub id: Text,
    pub submitted_by: Text,
    pub product_url: Text,
    pub hint: Text,
    pub image_url: Option<Text>,
    pub title: Option<Text>,
    pub opened_by: Option<Text>,
    pub held_by: Option<Text>,
    pub stolen_count: u8,
    pub state: GiftState,
}

#[verifier::ext_equal]
pub enum ActionModel {
    ChooseGift { player_id: Text, gift_id: Text },
    StealGift { player_id: Text, gift_id: Text },
}

#[verifier::ext_equal]
pub enum EventModel {
    GiftOpened { player_id: Text, gift_id: Text },
    GiftStolen { from: Text, to: Text, gift_id: Text },
    TurnChanged { player_id: Text },
    GameFinished,
}

#[verifier::ext_equal]
pub struct GameModel {
    pub id: Text,
    pub phase: GamePhase,
    pub players: Seq<PlayerModel>,
    pub gifts: Seq<GiftModel>,
    pub turn_order: Seq<Text>,
    pub current_turn: nat,
    pub active_player: Option<Text>,
    pub history: Seq<EventModel>,
}

/// The characters of an optional string.
pub open spec fn opt_text(s: Option<String>) -> Option<Text> {
    match s {
        Some(t) => Some(t@),
        None => None,
    }
}

/// The characters of each string of a sequence.
pub open spec fn texts(s: Seq<String>) -> Seq<Text> {
    s.map_values(|t: String| t@)
}

/// The model of each player.
pub open spec fn player_models(s: Seq<Player>) -> Seq<PlayerModel> {
    s.map_values(|p: Player| p@)
}

/// The model of each gift.
pub open spec fn gift_models(s: Seq<Gift>) -> Seq<GiftModel> {
    s.map_values(|g: Gift| g@)
}

/// The model of each event.
pub open spec fn event_models(s: Seq<GameEvent>) -> Seq<EventModel> {
    s.map_values(|e: GameEvent| e@)
}

impl View for Player {
    type V = PlayerModel;

    open spec fn view(&self) -> PlayerModel {
        PlayerModel { id: self.id@, name: self.name@, joined_at: self.joined_at }
    }
}

impl View for Gift {
    type V = GiftModel;

    open spec fn view(&self) -> GiftModel {
        GiftModel {
            id: self.id@,
            submitted_by: self.submitted_by@,
            product_url: self.product_url@,
            hint: self.hint@,
            image_url: opt_text(self.image_url),
            title: opt_text(self.title),
            opened_by: opt_text(self.opened_by),
            held_by: opt_text(self.held_by),
            stolen_count: self.stolen_count,
            state: self.state,
        }
    }
}

impl View for PlayerAction {
    type V = ActionModel;

    open spec fn view(&self) -> ActionModel {
        match *self {
            PlayerAction::ChooseGift { player_id, gift_id } => ActionModel::ChooseGift {
                player_id: player_id@,
                gift_id: gift_id@,
            },
            PlayerAction::StealGift { player_id, gift_id } => ActionModel::StealGift {
                player_id: player_id@,
                gift_id: gift_id@,
            },
        }
    }
}

impl View for GameEvent {
    type V = EventModel;

    open spec fn view(&self) -> EventModel {
        match *self {
            GameEvent::GiftOpened { player_id, gift_id } => EventModel::GiftOpened {
                player_id: player_id@,
                gift_id: gift_id@,
            },
            GameEvent::GiftStolen { from, to, gift_id } => EventModel::GiftStolen {
                from: from@,
                to: to@,
                gift_id: gift_id@,
            },
            GameEvent::TurnChanged { player_id } => EventModel::TurnChanged {
                player_id: player_id@,
            },
            GameEvent::GameFinished => EventModel::GameFinished,
        }
    }
}

impl View for Game {
    type V = GameModel;

    open spec fn view(&self) -> GameModel {
        GameModel {
            id: self.id@,
            phase: self.phase,
            players: player_models(self.players@),
            gifts: gift_models(self.gifts@),
            turn_order: texts(self.turn_order@),
            current_turn: self.current_turn as nat,
            active_player: opt_text(self.active_player),
            history: event_models(self.history@),
        }
    }
}

impl ActionModel {
    /// The player who asks for the action.
    pub open spec fn actor(self) -> Text {
        match self {
            ActionModel::ChooseGift { player_id, .. } => player_id,
            ActionModel::StealGift { player_id, .. } => player_id,
        }
    }

    /// The gift that the action is about.
    pub open spec fn gift(self) -> Text {
        match self {
            ActionModel::ChooseGift { gift_id, .. } => gift_id,
            ActionModel::StealGift { gift_id, .. } => gift_id,
        }
    }
}

} // verus!
