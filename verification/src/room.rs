//! One game as a room: actions of its players are applied to the stored game,
//! and each accepted action yields the messages for the room's subscribers.

use crate::lobby::{has_player, ApiError};
use crate::model::{refusal, step, step_events, stored};
use crate::record::{
    copy_record, merged, message_models, public_part, to_core, to_view, update_record_from_core,
    GameRecord, GameView, MessageModel, RecordModel, ServerMessage,
};
use crate::rules::{apply_action, copy_event};
use crate::types::{ActionModel, EventModel, GameError, GamePhase, PlayerAction, Text};
use vstd::prelude::*;

verus! {

/// Why a room did not apply an action.
#[derive(Debug, Clone, Copy, PartialEq, Eq, Structural)]
pub enum GameActionError {
    GameNotFound,
    PlayerNotFound,
    WrongPhase,
    Core(GameError),
}

/// Why the room does not apply the action that the session of `player`
/// submits, if it does not: the game is not in progress, the player does not
/// belong to it, or the rules refuse the action.
pub open spec fn action_refusal(r: RecordModel, player: Text, a: ActionModel) -> Option<
    GameActionError,
> {
    if r.game.phase != GamePhase::InProgress {
        Some(GameActionError::WrongPhase)
    } else if !has_player(r.game.players, player) {
        Some(GameActionError::PlayerNotFound)
    } else {
        match refusal(r.game, a) {
            Some(e) => Some(GameActionError::Core(e)),
            None => None,
        }
    }
}

/// The stored game after an accepted action: the rules' next state as the
/// machine keeps it.
pub open spec fn after_action(r: RecordModel, a: ActionModel) -> RecordModel {
    merged(r, stored(step(r.game, a)))
}

/// One message for each event, in the order of the events.
pub open spec fn event_messages(events: Seq<EventModel>) -> Seq<MessageModel> {
    events.map_values(|e: EventModel| MessageModel::Event(e))
}

/// What the room sends after an accepted action: the new state first, then
/// one message for each event, in the order of emission.
pub open spec fn broadcast_of(r: RecordModel, a: ActionModel) -> Seq<MessageModel> {
    seq![MessageModel::State(public_part(after_action(r, a).game))] + event_messages(
        step_events(r.game, a),
    )
}

impl GameRecord {
    /// Applies the action that the session of `player_id` submits. An accepted
    /// action changes the stored game and returns what is to be sent to the
    /// subscribers; a refused one changes nothing and returns no message.
    pub fn submit_action(&mut self, player_id: &String, action: PlayerAction) -> (r: Result<
        Vec<ServerMessage>,
        GameActionError,
    >)
        ensures
            match action_refusal(old(self)@, player_id@, action@) {
                Some(e) => r matches Err(x) && x == e && *final(self) == *old(self),
                None => r matches Ok(messages) && final(self)@ == after_action(
                    old(self)@,
                    action@,
                ) && message_models(messages@) == broadcast_of(old(self)@, action@),
            },
    {
        match self.phase {
            GamePhase::InProgress => {},
            _ => {
                return Err(GameActionError::WrongPhase);
            },
        }
        if !self.has_player(player_id) {
            return Err(GameActionError::PlayerNotFound);
        }
        let mut core = to_core(copy_record(self));
        let events = match apply_action(&mut core, action) {
            Ok(events) => events,
            Err(e) => {
                return Err(GameActionError::Core(e));
            },
        };
        update_record_from_core(self, core);
        let mut messages: Vec<ServerMessage> = Vec::new();
        messages.push(ServerMessage::State(to_view(self)));
        let mut i: usize = 0;
        while i < events.len()
            invariant
                i <= events.len(),
                messages.len() == i + 1,
                messages@[0]@ == MessageModel::State(public_part(self@.game)),
                forall|j: int|
                    0 <= j < i ==> (#[trigger] messages@[j + 1])@ == MessageModel::Event(
                        events@[j]@,
                    ),
            decreases events.len() - i,
        {
            messages.push(ServerMessage::Event(copy_event(&events[i])));
            i += 1;
        }
        proof {
            let target = broadcast_of(old(self)@, action@);
            assert forall|j: int| 0 <= j < messages.len() implies message_models(messages@)[j]
                == target[j] by {
                if j > 0 {
                    assert(messages@[(j - 1) + 1]@ == MessageModel::Event(events@[j - 1]@));
                }
            }
        }
        Ok(messages)
    }

    /// What a session of `player_id` receives when it subscribes: the current
    /// state, if the player belongs to the game.
    pub fn subscribe(&self, player_id: &String) -> (r: Result<GameView, ApiError>)
        ensures
            match r {
                Ok(view) => has_player(self@.game.players, player_id@) && view@ == public_part(
                    self@.game,
                ),
                Err(e) => !has_player(self@.game.players, player_id@) && e
                    == ApiError::PlayerNotFound,
            },
    {
        if self.has_player(player_id) {
            Ok(to_view(self))
        } else {
            Err(ApiError::PlayerNotFound)
        }
    }
}

} // verus!
