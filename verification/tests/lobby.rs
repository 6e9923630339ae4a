use rand::seq::SliceRandom;
use rand::SeedableRng;
use rand_chacha::ChaCha8Rng;
use white_elephant::{
    to_core, to_view, update_record_from_core, ApiError, GameActionError, GameError, GameEvent,
    GamePhase, GameRecord, GiftRecord, GiftRequest, GiftState, PlayerAction, PlayerRecord,
    ServerMessage,
};

fn lobby() -> GameRecord {
    GameRecord::new_lobby("game".to_string(), "secret".to_string())
}

fn request(player: &str, url: &str, hint: &str) -> GiftRequest {
    GiftRequest {
        player_id: player.to_string(),
        product_url: url.to_string(),
        hint: hint.to_string(),
        image_url: None,
        title: None,
    }
}

fn token(t: &str) -> Option<String> {
    Some(t.to_string())
}

/// A lobby with the given players, each under their name as id, each with a gift.
fn ready(names: &[&str]) -> GameRecord {
    let mut record = lobby();
    for (i, name) in names.iter().enumerate() {
        record.add_player(name.to_string(), &name.to_string(), i as u64).unwrap();
        record
            .upsert_gift(request(name, "https://example.com", "hint"), format!("gift-{name}"))
            .unwrap();
    }
    record
}

fn started(order: &[&str]) -> GameRecord {
    let mut record = ready(&["p1", "p2", "p3"]);
    record.begin(order.iter().map(|s| s.to_string()).collect());
    record
}

fn opens(player: &str, gift: &str) -> PlayerAction {
    PlayerAction::ChooseGift { player_id: player.into(), gift_id: gift.into() }
}

fn steals(player: &str, gift: &str) -> PlayerAction {
    PlayerAction::StealGift { player_id: player.into(), gift_id: gift.into() }
}

#[test]
fn new_lobby_waits_for_submissions() {
    let record = lobby();
    assert_eq!(record.id, "game");
    assert_eq!(record.host_token, "secret");
    assert_eq!(record.phase, GamePhase::Submissions);
    assert!(record.players.is_empty() && record.gifts.is_empty());
    assert!(record.turn_order.is_empty() && record.history.is_empty());
    assert_eq!(record.current_turn, 0);
    assert_eq!(record.active_player, None);
}

#[test]
fn join_trims_the_name_and_keeps_join_order() {
    let mut record = lobby();
    let alice = record.join(&"  alice \n".to_string(), 7).unwrap();
    let bob = record.join(&"bob".to_string(), 9).unwrap();
    assert_ne!(alice, bob);
    assert!(!alice.is_empty());
    assert_eq!(
        record.players,
        vec![
            PlayerRecord { id: alice, name: "alice".to_string(), joined_at: 7 },
            PlayerRecord { id: bob, name: "bob".to_string(), joined_at: 9 },
        ]
    );
}

#[test]
fn join_refuses_empty_and_taken_names() {
    let mut record = lobby();
    record.join(&"alice".to_string(), 0).unwrap();
    let before = record.clone();
    assert_eq!(record.join(&"".to_string(), 0), Err(ApiError::NameRequired));
    assert_eq!(record.join(&" \t ".to_string(), 0), Err(ApiError::NameRequired));
    assert_eq!(record.join(&"alice".to_string(), 0), Err(ApiError::NameTaken));
    assert_eq!(record.join(&" alice ".to_string(), 0), Err(ApiError::NameTaken));
    assert_eq!(record, before);
    assert_eq!(ApiError::NameRequired.status(), 400);
    assert_eq!(ApiError::NameTaken.status(), 409);
    // Names are compared as they are written.
    assert!(record.join(&"Alice".to_string(), 0).is_ok());
}

#[test]
fn add_player_uses_the_given_id() {
    let mut record = lobby();
    record.add_player("id-1".to_string(), &" carol ".to_string(), 3).unwrap();
    assert_eq!(
        record.players,
        vec![PlayerRecord { id: "id-1".to_string(), name: "carol".to_string(), joined_at: 3 }]
    );
    assert_eq!(
        record.add_player("id-2".to_string(), &"carol".to_string(), 4),
        Err(ApiError::NameTaken)
    );
    assert_eq!(record.players.len(), 1);
    assert!(record.has_player(&"id-1".to_string()));
    assert!(!record.has_player(&"id-2".to_string()));
    assert!(record.name_taken(&"carol".to_string()));
    assert!(!record.name_taken(&" carol ".to_string()));
}

#[test]
fn joining_is_not_bound_to_a_phase() {
    let mut record = started(&["p1", "p2", "p3"]);
    record.add_player("late".to_string(), &"late".to_string(), 0).unwrap();
    assert_eq!(record.players.len(), 4);
    assert_eq!(record.phase, GamePhase::InProgress);
}

#[test]
fn gift_submission_upserts_in_place() {
    let mut record = lobby();
    record.add_player("a".to_string(), &"alice".to_string(), 0).unwrap();
    record.add_player("b".to_string(), &"bob".to_string(), 0).unwrap();
    let first = record.submit_gift(request("a", "https://example.com/1", "first")).unwrap();
    assert_eq!(first.hint, "first");
    assert_eq!(first.submitted_by, "a");
    assert_eq!(first.state, GiftState::Unopened);
    assert_eq!((first.opened_by.clone(), first.held_by.clone(), first.stolen_count), (None, None, 0));
    assert!(!first.id.is_empty());
    record.submit_gift(request("b", "https://example.com/3", "bob gift")).unwrap();

    let mut edit = request("a", "https://example.com/2", "updated");
    edit.image_url = Some("https://example.com/2.png".to_string());
    edit.title = Some("second".to_string());
    let second = record.submit_gift(edit).unwrap();
    assert_eq!(second.id, first.id);
    assert_eq!(second.hint, "updated");
    assert_eq!(second.product_url, "https://example.com/2");
    assert_eq!(second.image_url.as_deref(), Some("https://example.com/2.png"));
    assert_eq!(second.title.as_deref(), Some("second"));
    assert_eq!(record.gifts.len(), 2);
    assert_eq!(record.gifts[0], second);
    assert_eq!(record.gifts[1].hint, "bob gift");
    assert_ne!(record.gifts[1].id, first.id);
}

#[test]
fn upsert_gift_names_only_new_gifts() {
    let mut record = lobby();
    record.add_player("a".to_string(), &"alice".to_string(), 0).unwrap();
    let first = record.upsert_gift(request("a", " u ", " h "), "g-1".to_string()).unwrap();
    assert_eq!(
        first,
        GiftRecord {
            id: "g-1".to_string(),
            submitted_by: "a".to_string(),
            product_url: " u ".to_string(),
            hint: " h ".to_string(),
            image_url: None,
            title: None,
            opened_by: None,
            held_by: None,
            stolen_count: 0,
            state: GiftState::Unopened,
        }
    );
    let second = record.upsert_gift(request("a", "v", "i"), "g-2".to_string()).unwrap();
    assert_eq!(second.id, "g-1");
    assert_eq!(record.gifts, vec![second]);
}

#[test]
fn gift_submission_refusals_in_order() {
    let mut record = ready(&["p1"]);
    let before = record.clone();
    assert_eq!(
        record.submit_gift(request("p1", "  ", "hint")),
        Err(ApiError::GiftFieldsRequired)
    );
    assert_eq!(record.submit_gift(request("p1", "url", "")), Err(ApiError::GiftFieldsRequired));
    assert_eq!(record.submit_gift(request("ghost", "", "")), Err(ApiError::GiftFieldsRequired));
    assert_eq!(record.submit_gift(request("ghost", "url", "hint")), Err(ApiError::PlayerNotFound));
    assert_eq!(record, before);
    record.begin(vec!["p1".to_string()]);
    let before = record.clone();
    assert_eq!(record.submit_gift(request("p1", "url", "hint")), Err(ApiError::SubmissionsClosed));
    assert_eq!(record.submit_gift(request("ghost", "", "")), Err(ApiError::SubmissionsClosed));
    assert_eq!(record, before);
    assert_eq!(ApiError::GiftFieldsRequired.status(), 400);
    assert_eq!(ApiError::PlayerNotFound.status(), 404);
    assert_eq!(ApiError::SubmissionsClosed.status(), 409);
}

#[test]
fn start_refusals_in_order() {
    let mut record = lobby();
    assert_eq!(record.start(&None, None), Err(ApiError::HostTokenRequired));
    assert_eq!(record.start(&token("wrong"), None), Err(ApiError::InvalidHostToken));
    assert_eq!(record.start(&token("secret"), None), Err(ApiError::NoPlayers));
    record.add_player("a".to_string(), &"alice".to_string(), 0).unwrap();
    record.add_player("b".to_string(), &"bob".to_string(), 0).unwrap();
    record.upsert_gift(request("a", "u", "h"), "g1".to_string()).unwrap();
    let before = record.clone();
    assert_eq!(record.start(&token("secret"), Some(1)), Err(ApiError::MissingGifts));
    assert_eq!(record.check_start(&token("secret")), Err(ApiError::MissingGifts));
    assert_eq!(record, before);
    record.upsert_gift(request("b", "u", "h"), "g2".to_string()).unwrap();
    assert_eq!(record.check_start(&token("secret")), Ok(()));
    assert!(record.start(&token("secret"), Some(1)).is_ok());
    let before = record.clone();
    assert_eq!(record.start(&token("secret"), Some(1)), Err(ApiError::AlreadyStarted));
    assert_eq!(record.start(&token("nope"), Some(1)), Err(ApiError::InvalidHostToken));
    assert_eq!(record, before);
    for e in [ApiError::HostTokenRequired, ApiError::InvalidHostToken, ApiError::InvalidAdminPassword] {
        assert_eq!(e.status(), 401);
    }
    assert_eq!(ApiError::NoPlayers.status(), 400);
    assert_eq!(ApiError::MissingGifts.status(), 400);
    assert_eq!(ApiError::AlreadyStarted.status(), 409);
    assert_eq!(ApiError::GameNotFound.status(), 404);
}

#[test]
fn seeded_start_matches_the_reference_shuffle() {
    let mut record = ready(&["alice", "bob", "carol"]);
    let response = record.start(&token("secret"), Some(42)).unwrap();

    let mut expected = vec!["alice".to_string(), "bob".to_string(), "carol".to_string()];
    let mut rng = ChaCha8Rng::seed_from_u64(42);
    expected.shuffle(&mut rng);

    assert_eq!(response.phase, GamePhase::InProgress);
    assert_eq!(response.turn_order, expected);
    assert_eq!(response.active_player.as_ref(), Some(&expected[0]));
    assert_eq!(record.phase, GamePhase::InProgress);
    assert_eq!(record.turn_order, expected);
    assert_eq!(record.active_player.as_ref(), Some(&expected[0]));
    assert_eq!(record.current_turn, 0);
}

#[test]
fn seeded_start_is_reproducible_and_shuffles() {
    let names: Vec<String> = (0..12).map(|i| format!("player-{i}")).collect();
    let refs: Vec<&str> = names.iter().map(|s| s.as_str()).collect();
    let mut first = ready(&refs);
    let mut second = ready(&refs);
    let a = first.start(&token("secret"), Some(7)).unwrap();
    let b = second.start(&token("secret"), Some(7)).unwrap();
    assert_eq!(a, b);
    assert_eq!(first, second);
    assert_ne!(a.turn_order, names);

    let mut expected = names.clone();
    expected.shuffle(&mut ChaCha8Rng::seed_from_u64(7));
    assert_eq!(a.turn_order, expected);

    let mut other = ready(&refs);
    let c = other.start(&token("secret"), Some(8)).unwrap();
    let mut expected = names.clone();
    expected.shuffle(&mut ChaCha8Rng::seed_from_u64(8));
    assert_eq!(c.turn_order, expected);
}

/// The position in the order of joining of the player at each turn.
fn join_positions(record: &GameRecord) -> Vec<usize> {
    record
        .turn_order
        .iter()
        .map(|id| record.players.iter().position(|p| &p.id == id).expect("a player of the game"))
        .collect()
}

#[test]
fn seeded_start_arranges_by_seed_and_number_alone() {
    // Two games whose players have nothing in common but their number.
    let mut first = GameRecord::new_lobby("one".to_string(), "secret".to_string());
    let mut second = GameRecord::new_lobby("two".to_string(), "other".to_string());
    for i in 0..9 {
        let a = first.join(&format!("first-{i}"), i).unwrap();
        let b = second.join(&format!("zz {}", 100 - i), 1000 + i).unwrap();
        first.submit_gift(request(&a, "https://example.com/a", "a")).unwrap();
        second.submit_gift(request(&b, "https://example.org/b", "b")).unwrap();
    }
    // An earlier request leaves no trace in the order.
    assert_eq!(second.start(&token("wrong"), Some(5)), Err(ApiError::InvalidHostToken));
    first.start(&token("secret"), Some(5)).unwrap();
    second.start(&token("other"), Some(5)).unwrap();
    let positions = join_positions(&first);
    assert_eq!(positions, join_positions(&second));
    let mut sorted = positions.clone();
    sorted.sort();
    assert_eq!(sorted, (0..9).collect::<Vec<usize>>());
    assert_ne!(positions, sorted);

    // The positions are those that the shuffle gives to any list of nine.
    let mut reference: Vec<usize> = (0..9).collect();
    reference.shuffle(&mut ChaCha8Rng::seed_from_u64(5));
    assert_eq!(positions, reference);

    // Another seed, another arrangement.
    let mut third = ready(&["a", "b", "c", "d", "e", "f", "g", "h", "i"]);
    third.start(&token("secret"), Some(6)).unwrap();
    assert_ne!(join_positions(&third), positions);
}

#[test]
fn unseeded_start_draws_a_permutation() {
    let names: Vec<String> = (0..20).map(|i| format!("player-{i:02}")).collect();
    let refs: Vec<&str> = names.iter().map(|s| s.as_str()).collect();
    let mut record = ready(&refs);
    let response = record.start(&token("secret"), None).unwrap();
    assert_ne!(response.turn_order, names);
    let mut sorted = response.turn_order.clone();
    sorted.sort();
    assert_eq!(sorted, names);
    assert_eq!(record.turn_order, response.turn_order);
    assert_eq!(record.active_player.as_ref(), response.turn_order.first());
}

#[test]
fn begin_wraps_every_gift_and_clears_the_history() {
    let mut record = ready(&["p1", "p2"]);
    record.gifts[0].state = GiftState::Opened;
    record.gifts[0].opened_by = Some("p1".to_string());
    record.gifts[0].held_by = Some("p2".to_string());
    record.gifts[0].stolen_count = 2;
    record.history.push(GameEvent::GameFinished);
    record.current_turn = 5;
    let response = record.begin(vec!["p2".to_string(), "p1".to_string()]);
    assert_eq!(response.turn_order, vec!["p2".to_string(), "p1".to_string()]);
    assert_eq!(response.active_player.as_deref(), Some("p2"));
    assert_eq!(record.phase, GamePhase::InProgress);
    assert_eq!(record.current_turn, 0);
    assert!(record.history.is_empty());
    for gift in &record.gifts {
        assert_eq!(gift.state, GiftState::Unopened);
        assert_eq!((gift.opened_by.clone(), gift.held_by.clone(), gift.stolen_count), (None, None, 0));
        assert_eq!(gift.hint, "hint");
    }
    assert_eq!(record.gifts[0].id, "gift-p1");
    assert_eq!(record.players.len(), 2);
    assert_eq!(record.host_token, "secret");
}

#[test]
fn view_leaves_out_what_is_private() {
    let record = started(&["p2", "p1", "p3"]);
    let view = to_view(&record);
    assert_eq!(view.id, record.id);
    assert_eq!(view.phase, GamePhase::InProgress);
    assert_eq!(view.players, record.players);
    assert_eq!(view.gifts, record.gifts);
    assert_eq!(view.turn_order, record.turn_order);
    assert_eq!(view.active_player.as_deref(), Some("p2"));
}

#[test]
fn record_and_core_convert_both_ways() {
    let record = started(&["p1", "p2", "p3"]);
    let mut core = to_core(record.clone());
    assert_eq!(core.id, record.id);
    assert_eq!(core.players.len(), 3);
    assert_eq!(core.players[1].name, "p2");
    assert_eq!(core.gifts[2].id, "gift-p3");
    assert_eq!(core.turn_order, record.turn_order);
    assert_eq!(core.active_player, record.active_player);

    white_elephant::apply_action(&mut core, opens("p1", "gift-p2")).unwrap();
    core.id = "other".to_string();
    core.players.clear();
    let mut updated = record.clone();
    update_record_from_core(&mut updated, core);
    assert_eq!(updated.id, "game");
    assert_eq!(updated.host_token, "secret");
    assert_eq!(updated.players, record.players);
    assert_eq!(updated.gifts[1].state, GiftState::Opened);
    assert_eq!(updated.gifts[1].held_by.as_deref(), Some("p1"));
    assert_eq!(updated.current_turn, 1);
    assert_eq!(updated.active_player.as_deref(), Some("p2"));
    assert_eq!(updated.history.len(), 2);
}

#[test]
fn accepted_action_yields_state_then_events() {
    let mut record = started(&["p1", "p2", "p3"]);
    let messages = record.submit_action(&"p1".to_string(), opens("p1", "gift-p1")).unwrap();
    assert_eq!(
        messages,
        vec![
            ServerMessage::State(to_view(&record)),
            ServerMessage::Event(GameEvent::GiftOpened {
                player_id: "p1".into(),
                gift_id: "gift-p1".into()
            }),
            ServerMessage::Event(GameEvent::TurnChanged { player_id: "p2".into() }),
        ]
    );
    assert_eq!(record.gifts[0].held_by.as_deref(), Some("p1"));
    assert_eq!(record.history.len(), 2);
    // Any session of the game may hand in the action of the active player.
    let messages = record.submit_action(&"p3".to_string(), steals("p2", "gift-p1")).unwrap();
    assert_eq!(messages.len(), 3);
    assert_eq!(record.active_player.as_deref(), Some("p1"));
}

#[test]
fn refused_action_yields_nothing_and_changes_nothing() {
    let mut waiting = ready(&["p1"]);
    let before = waiting.clone();
    assert_eq!(
        waiting.submit_action(&"ghost".to_string(), opens("p1", "gift-p1")),
        Err(GameActionError::WrongPhase)
    );
    assert_eq!(waiting, before);

    let mut record = started(&["p1", "p2", "p3"]);
    let before = record.clone();
    assert_eq!(
        record.submit_action(&"ghost".to_string(), opens("p1", "gift-p1")),
        Err(GameActionError::PlayerNotFound)
    );
    assert_eq!(
        record.submit_action(&"p1".to_string(), opens("p2", "gift-p1")),
        Err(GameActionError::Core(GameError::NotPlayersTurn))
    );
    assert_eq!(
        record.submit_action(&"p1".to_string(), steals("p1", "gift-p1")),
        Err(GameActionError::Core(GameError::GiftUnopened))
    );
    assert_eq!(record, before);
}

#[test]
fn room_finishes_the_game() {
    let mut record = started(&["p3", "p1", "p2"]);
    record.submit_action(&"p1".to_string(), opens("p3", "gift-p1")).unwrap();
    record.submit_action(&"p1".to_string(), opens("p1", "gift-p2")).unwrap();
    let messages = record.submit_action(&"p1".to_string(), opens("p2", "gift-p3")).unwrap();
    assert_eq!(messages.len(), 3);
    assert_eq!(messages[2], ServerMessage::Event(GameEvent::GameFinished));
    match &messages[0] {
        ServerMessage::State(view) => assert_eq!(view.phase, GamePhase::Finished),
        other => panic!("expected the state first, got {other:?}"),
    }
    assert_eq!(record.phase, GamePhase::Finished);
    assert_eq!(
        record.submit_action(&"p1".to_string(), steals("p1", "gift-p1")),
        Err(GameActionError::WrongPhase)
    );
}

#[test]
fn subscribe_asks_for_a_player_of_the_game() {
    let record = started(&["p1", "p2", "p3"]);
    assert_eq!(record.subscribe(&"p2".to_string()), Ok(to_view(&record)));
    assert_eq!(record.subscribe(&"ghost".to_string()), Err(ApiError::PlayerNotFound));
}
