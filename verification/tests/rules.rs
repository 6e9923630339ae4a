use white_elephant::{
    advance_turn, apply_action, Game, GameError, GameEvent, GamePhase, Gift, GiftState, Player,
    PlayerAction,
};

fn player(id: &str) -> Player {
    Player { id: id.to_string(), name: id.to_string(), joined_at: 0 }
}

fn unopened_gift(id: &str, submitted_by: &str) -> Gift {
    Gift {
        id: id.to_string(),
        submitted_by: submitted_by.to_string(),
        product_url: format!("https://example.com/{id}"),
        hint: format!("gift-{id}"),
        image_url: None,
        title: None,
        opened_by: None,
        held_by: None,
        stolen_count: 0,
        state: GiftState::Unopened,
    }
}

fn opened_gift(id: &str, owner: &str) -> Gift {
    Gift {
        id: id.to_string(),
        submitted_by: owner.to_string(),
        product_url: format!("https://example.com/{id}"),
        hint: format!("gift-{id}"),
        image_url: None,
        title: None,
        opened_by: Some(owner.to_string()),
        held_by: Some(owner.to_string()),
        stolen_count: 0,
        state: GiftState::Opened,
    }
}

fn base_game() -> Game {
    Game {
        id: "g1".into(),
        phase: GamePhase::InProgress,
        players: vec![player("p1"), player("p2"), player("p3")],
        gifts: vec![
            unopened_gift("g1", "p1"),
            unopened_gift("g2", "p2"),
            unopened_gift("g3", "p3"),
        ],
        turn_order: vec!["p1".into(), "p2".into(), "p3".into()],
        current_turn: 0,
        active_player: Some("p1".into()),
        history: vec![],
    }
}

fn opens(player: &str, gift: &str) -> PlayerAction {
    PlayerAction::ChooseGift { player_id: player.into(), gift_id: gift.into() }
}

fn steals(player: &str, gift: &str) -> PlayerAction {
    PlayerAction::StealGift { player_id: player.into(), gift_id: gift.into() }
}

fn turn_changed(player: &str) -> GameEvent {
    GameEvent::TurnChanged { player_id: player.into() }
}

/// The state after p1 has opened g1 and p2 has opened g2.
fn two_opened() -> Game {
    let mut game = base_game();
    game.gifts[0] = opened_gift("g1", "p1");
    game.gifts[1] = opened_gift("g2", "p2");
    game.current_turn = 1;
    game.active_player = Some("p2".into());
    game
}

/// The invariants of the data model, checked on a concrete game.
fn assert_invariants(game: &Game) {
    if game.phase == GamePhase::InProgress {
        let active = game.active_player.as_ref().expect("somebody is active");
        assert!(game.turn_order.contains(active));
    }
    for gift in &game.gifts {
        assert!(gift.stolen_count <= 3);
        match gift.state {
            GiftState::Unopened => {
                assert!(gift.opened_by.is_none() && gift.held_by.is_none());
            }
            GiftState::Opened => {
                assert!(gift.opened_by.is_some() && gift.held_by.is_some());
            }
        }
    }
    for p in &game.players {
        let held = game.gifts.iter().filter(|g| g.held_by.as_ref() == Some(&p.id)).count();
        assert!(held <= 1);
    }
    let all_opened = game.gifts.iter().all(|g| g.state == GiftState::Opened);
    let each_one = game
        .players
        .iter()
        .all(|p| game.gifts.iter().filter(|g| g.held_by.as_ref() == Some(&p.id)).count() == 1);
    assert_eq!(game.phase == GamePhase::Finished, all_opened && each_one);
}

#[test]
fn open_gift_happy_path_advances_turn() {
    let mut game = base_game();
    let events = apply_action(
        &mut game,
        PlayerAction::ChooseGift { player_id: "p1".into(), gift_id: "g1".into() },
    )
    .unwrap();

    assert!(matches!(game.gifts[0].state, GiftState::Opened));
    assert_eq!(game.gifts[0].held_by.as_deref(), Some("p1"));
    assert_eq!(game.current_turn, 1);
    assert_eq!(game.active_player.as_deref(), Some("p2"));
    assert_eq!(
        events,
        vec![
            GameEvent::GiftOpened { player_id: "p1".into(), gift_id: "g1".into() },
            GameEvent::TurnChanged { player_id: "p2".into() }
        ]
    );
}

#[test]
fn steal_happy_path_sets_victim_turn() {
    let mut game = base_game();
    // Pre-open two gifts to enable steal.
    game.gifts[0] = opened_gift("g1", "p1");
    game.gifts[1] = opened_gift("g2", "p2");
    game.current_turn = 1;
    game.active_player = Some("p2".into());

    assert_eq!(game.gifts[0].held_by.as_deref(), Some("p1"));

    let events = apply_action(
        &mut game,
        PlayerAction::StealGift { player_id: "p2".into(), gift_id: "g1".into() },
    )
    .unwrap();

    assert_eq!(game.gifts[0].held_by.as_deref(), Some("p2"));
    assert_eq!(game.active_player.as_deref(), Some("p1"));
    assert_eq!(
        events,
        vec![
            GameEvent::GiftStolen { from: "p1".into(), to: "p2".into(), gift_id: "g1".into() },
            GameEvent::TurnChanged { player_id: "p1".into() }
        ]
    );
}

#[test]
fn reject_over_steal_limit() {
    let mut game = base_game();
    game.gifts[0] = Gift { stolen_count: 3, ..opened_gift("g1", "p1") };
    game.active_player = Some("p2".into());
    game.current_turn = 1;

    let err = apply_action(
        &mut game,
        PlayerAction::StealGift { player_id: "p2".into(), gift_id: "g1".into() },
    )
    .unwrap_err();

    assert_eq!(err, GameError::StealLimitReached);
}

#[test]
fn reject_immediate_steal_back() {
    let mut game = base_game();
    game.gifts[0] = opened_gift("g1", "p1");
    game.gifts[1] = opened_gift("g2", "p2");
    game.current_turn = 1;
    game.active_player = Some("p1".into());
    // Last action: p2 stole from p1
    game.history.push(GameEvent::GiftStolen {
        from: "p1".into(),
        to: "p2".into(),
        gift_id: "g1".into(),
    });

    game.gifts[0].held_by = Some("p2".into());
    game.gifts[0].stolen_count = 1;
    assert_eq!(game.gifts[0].held_by.as_deref(), Some("p2"));

    let err = apply_action(
        &mut game,
        PlayerAction::StealGift { player_id: "p1".into(), gift_id: "g1".into() },
    )
    .unwrap_err();

    assert_eq!(err, GameError::StealBackNotAllowed);
}

#[test]
fn forced_chain_advances_when_new_gift_opened() {
    let mut game = base_game();
    // A steals from B, so B acts next.
    game.gifts[0] = opened_gift("g1", "p1");
    game.gifts[1] = opened_gift("g2", "p2");
    game.current_turn = 1;
    game.active_player = Some("p2".into());

    apply_action(
        &mut game,
        PlayerAction::StealGift { player_id: "p2".into(), gift_id: "g1".into() },
    )
    .unwrap();
    // Victim is p1 now active; they open a fresh gift.
    let events = apply_action(
        &mut game,
        PlayerAction::ChooseGift { player_id: "p1".into(), gift_id: "g3".into() },
    )
    .unwrap();

    assert!(matches!(game.gifts[2].state, GiftState::Opened));
    assert_eq!(game.current_turn, 2);
    assert_eq!(game.active_player.as_deref(), Some("p3"));
    assert_eq!(events.last(), Some(&GameEvent::TurnChanged { player_id: "p3".into() }));
}

#[test]
fn rejects_wrong_turn_or_phase() {
    let mut game = base_game();
    game.phase = GamePhase::Lobby;
    let err = apply_action(
        &mut game,
        PlayerAction::ChooseGift { player_id: "p1".into(), gift_id: "g1".into() },
    )
    .unwrap_err();
    assert_eq!(err, GameError::WrongPhase);

    game.phase = GamePhase::InProgress;
    game.active_player = Some("p1".into());
    let err = apply_action(
        &mut game,
        PlayerAction::ChooseGift { player_id: "p2".into(), gift_id: "g1".into() },
    )
    .unwrap_err();
    assert_eq!(err, GameError::NotPlayersTurn);
}

#[test]
fn open_gift_sets_opener_and_history() {
    let mut game = base_game();
    let events = apply_action(&mut game, opens("p1", "g1")).unwrap();
    assert_eq!(game.gifts[0].opened_by.as_deref(), Some("p1"));
    assert_eq!(game.gifts[0].stolen_count, 0);
    assert_eq!(game.history, events);
    assert_eq!(game.phase, GamePhase::InProgress);
    assert_eq!(game.gifts[1], unopened_gift("g2", "p2"));
    assert_eq!(game.gifts[2], unopened_gift("g3", "p3"));
}

#[test]
fn steal_counts_and_keeps_the_turn() {
    let mut game = two_opened();
    let events = apply_action(&mut game, steals("p2", "g1")).unwrap();
    assert_eq!(game.gifts[0].stolen_count, 1);
    assert_eq!(game.gifts[0].opened_by.as_deref(), Some("p1"));
    assert_eq!(game.gifts[1].stolen_count, 0);
    assert_eq!(game.current_turn, 1);
    assert_eq!(game.history, events);
}

#[test]
fn steal_back_is_judged_by_the_last_entry_of_the_history_alone() {
    // After a theft the history ends with the change of turn, not with the
    // theft, so the victim may take the gift back.
    let mut game = two_opened();
    apply_action(&mut game, steals("p2", "g1")).unwrap();
    assert_eq!(game.history.last(), Some(&turn_changed("p1")));
    let events = apply_action(&mut game, steals("p1", "g1")).unwrap();
    assert_eq!(
        events,
        vec![
            GameEvent::GiftStolen { from: "p2".into(), to: "p1".into(), gift_id: "g1".into() },
            turn_changed("p2"),
        ]
    );
    assert_eq!(game.gifts[0].stolen_count, 2);
}

#[test]
fn steal_back_that_is_refused_changes_nothing() {
    let mut game = two_opened();
    game.active_player = Some("p1".into());
    game.gifts[0].held_by = Some("p2".into());
    game.gifts[0].stolen_count = 1;
    game.history.push(GameEvent::GiftStolen {
        from: "p1".into(),
        to: "p2".into(),
        gift_id: "g1".into(),
    });
    let before = game.clone();
    assert_eq!(apply_action(&mut game, steals("p1", "g1")), Err(GameError::StealBackNotAllowed));
    assert_eq!(game, before);
}

#[test]
fn steal_back_looks_at_any_gift() {
    // The last theft took g2 from p1; p1 may not take g1 from the same thief.
    let mut game = two_opened();
    game.active_player = Some("p1".into());
    game.gifts[0].held_by = Some("p2".into());
    game.gifts[1].held_by = Some("p3".into());
    game.history.push(GameEvent::GiftStolen {
        from: "p1".into(),
        to: "p2".into(),
        gift_id: "g2".into(),
    });
    assert_eq!(apply_action(&mut game, steals("p1", "g1")), Err(GameError::StealBackNotAllowed));
    // From another holder the theft goes through.
    let events = apply_action(&mut game, steals("p1", "g2")).unwrap();
    assert_eq!(events[1], turn_changed("p3"));
}

#[test]
fn steal_limit_holds_for_every_thief() {
    for thief in ["p2", "p3"] {
        let mut game = two_opened();
        game.gifts[0].stolen_count = 3;
        game.active_player = Some(thief.into());
        let before = game.clone();
        assert_eq!(apply_action(&mut game, steals(thief, "g1")), Err(GameError::StealLimitReached));
        assert_eq!(game, before);
    }
    // Two thefts so far: the third is the last that goes through.
    let mut game = two_opened();
    game.gifts[0].stolen_count = 2;
    apply_action(&mut game, steals("p2", "g1")).unwrap();
    assert_eq!(game.gifts[0].stolen_count, 3);
}

#[test]
fn every_refusal_leaves_the_game_untouched() {
    let cases: Vec<(Game, PlayerAction, GameError)> = vec![
        (
            Game { phase: GamePhase::Submissions, ..base_game() },
            opens("p1", "g1"),
            GameError::WrongPhase,
        ),
        (
            Game { phase: GamePhase::Finished, ..base_game() },
            steals("p1", "g1"),
            GameError::WrongPhase,
        ),
        (base_game(), opens("p2", "g1"), GameError::NotPlayersTurn),
        (Game { active_player: None, ..base_game() }, opens("p1", "g1"), GameError::NotPlayersTurn),
        (base_game(), opens("p1", "nope"), GameError::GiftNotFound),
        (base_game(), steals("p1", "nope"), GameError::GiftNotFound),
        (two_opened(), opens("p2", "g1"), GameError::GiftAlreadyOpened),
        (two_opened(), steals("p2", "g3"), GameError::GiftUnopened),
        (two_opened(), steals("p2", "g2"), GameError::CannotStealOwnGift),
        (
            {
                let mut g = two_opened();
                g.gifts[0].held_by = None;
                g
            },
            steals("p2", "g1"),
            GameError::InvalidAction,
        ),
    ];
    for (mut game, action, expected) in cases {
        let before = game.clone();
        assert_eq!(apply_action(&mut game, action), Err(expected));
        assert_eq!(game, before);
    }
}

#[test]
fn the_first_gift_of_an_id_is_the_one_that_counts() {
    let mut game = base_game();
    game.gifts[1].id = "g1".into();
    apply_action(&mut game, opens("p1", "g1")).unwrap();
    assert_eq!(game.gifts[0].state, GiftState::Opened);
    assert_eq!(game.gifts[1].state, GiftState::Unopened);
    assert_eq!(apply_action(&mut game, opens("p2", "g1")), Err(GameError::GiftAlreadyOpened));
}

#[test]
fn last_turn_without_completion_clears_the_active_player() {
    let mut game = base_game();
    game.gifts.push(unopened_gift("g4", "p1"));
    apply_action(&mut game, opens("p1", "g1")).unwrap();
    apply_action(&mut game, opens("p2", "g2")).unwrap();
    let events = apply_action(&mut game, opens("p3", "g3")).unwrap();
    assert_eq!(events, vec![GameEvent::GiftOpened { player_id: "p3".into(), gift_id: "g3".into() }]);
    assert_eq!(game.active_player, None);
    assert_eq!(game.current_turn, 3);
    assert_eq!(game.phase, GamePhase::InProgress);
    assert_eq!(apply_action(&mut game, opens("p1", "g4")), Err(GameError::NotPlayersTurn));
}

#[test]
fn advance_turn_counts_past_the_last_player() {
    let mut game = base_game();
    game.current_turn = 2;
    game.active_player = Some("p3".into());
    let mut events = vec![GameEvent::GiftOpened { player_id: "p3".into(), gift_id: "g3".into() }];
    advance_turn(&mut game, &mut events);
    assert_eq!(game.current_turn, 3);
    assert_eq!(game.active_player, None);
    assert_eq!(events, vec![GameEvent::GiftOpened { player_id: "p3".into(), gift_id: "g3".into() }]);
    assert_eq!(game.turn_order, base_game().turn_order);
    // Once more: the counter goes on, and still nobody is active.
    advance_turn(&mut game, &mut events);
    assert_eq!(game.current_turn, 4);
    assert_eq!(game.active_player, None);
    assert_eq!(events.len(), 1);
}

#[test]
fn advance_turn_announces_the_next_player() {
    let mut game = base_game();
    let mut events = Vec::new();
    advance_turn(&mut game, &mut events);
    assert_eq!(game.current_turn, 1);
    assert_eq!(game.active_player.as_deref(), Some("p2"));
    assert_eq!(events, vec![turn_changed("p2")]);
}

#[test]
fn turn_counter_stops_at_the_largest_number() {
    let mut game = base_game();
    game.current_turn = usize::MAX;
    let events = apply_action(&mut game, opens("p1", "g1")).unwrap();
    assert_eq!(game.current_turn, usize::MAX);
    assert_eq!(game.active_player, None);
    assert_eq!(events, vec![GameEvent::GiftOpened { player_id: "p1".into(), gift_id: "g1".into() }]);
    let mut game = base_game();
    game.current_turn = usize::MAX - 1;
    apply_action(&mut game, opens("p1", "g1")).unwrap();
    assert_eq!(game.current_turn, usize::MAX);
    assert_eq!(game.active_player, None);
}

#[test]
fn completion_finishes_the_game() {
    let mut game = base_game();
    apply_action(&mut game, opens("p1", "g1")).unwrap();
    apply_action(&mut game, opens("p2", "g2")).unwrap();
    let events = apply_action(&mut game, opens("p3", "g3")).unwrap();
    assert_eq!(
        events,
        vec![
            GameEvent::GiftOpened { player_id: "p3".into(), gift_id: "g3".into() },
            GameEvent::GameFinished,
        ]
    );
    assert_eq!(game.phase, GamePhase::Finished);
    assert_eq!(game.current_turn, 3);
    assert_eq!(game.active_player, None);
    assert_eq!(game.history.len(), 6);
    assert_eq!(game.history.last(), Some(&GameEvent::GameFinished));
}

#[test]
fn completion_by_theft_keeps_the_forced_turn() {
    let mut game = Game {
        players: vec![player("p1"), player("p2")],
        gifts: vec![opened_gift("g1", "p1"), opened_gift("g2", "p1")],
        turn_order: vec!["p1".into(), "p2".into()],
        current_turn: 1,
        active_player: Some("p2".into()),
        ..base_game()
    };
    let events = apply_action(&mut game, steals("p2", "g2")).unwrap();
    assert_eq!(
        events,
        vec![
            GameEvent::GiftStolen { from: "p1".into(), to: "p2".into(), gift_id: "g2".into() },
            turn_changed("p1"),
            GameEvent::GameFinished,
        ]
    );
    assert_eq!(game.phase, GamePhase::Finished);
    assert_eq!(game.active_player.as_deref(), Some("p1"));
    assert_eq!(game.history, events);
}

#[test]
fn finished_game_accepts_nothing() {
    let mut game = base_game();
    apply_action(&mut game, opens("p1", "g1")).unwrap();
    apply_action(&mut game, opens("p2", "g2")).unwrap();
    apply_action(&mut game, opens("p3", "g3")).unwrap();
    let before = game.clone();
    for action in [opens("p1", "g1"), steals("p1", "g2"), steals("p3", "g1"), opens("p2", "g9")] {
        assert_eq!(apply_action(&mut game, action), Err(GameError::WrongPhase));
        assert_eq!(game, before);
    }
}

#[test]
fn invariants_hold_through_a_whole_game() {
    let mut game = base_game();
    assert_invariants(&game);
    let actions = vec![
        opens("p1", "g1"),
        steals("p2", "g1"),
        opens("p1", "g2"),
        steals("p3", "g2"),
        steals("p1", "g1"),
        steals("p2", "g2"),
        opens("p3", "g3"),
    ];
    let mut seen = 0;
    for action in actions {
        let events = apply_action(&mut game, action).unwrap();
        assert_eq!(game.history.len(), seen + events.len());
        assert_eq!(&game.history[seen..], &events[..]);
        seen = game.history.len();
        assert_invariants(&game);
    }
    assert_eq!(game.phase, GamePhase::Finished);
    assert_eq!(game.gifts[0].stolen_count, 2);
    assert_eq!(game.gifts[1].stolen_count, 2);
    assert_eq!(game.gifts[2].stolen_count, 0);
}

#[test]
fn new_game_shuffles_the_players_it_was_given() {
    let names: Vec<String> = (0..20).map(|i| format!("p{i}")).collect();
    let players: Vec<Player> = names.iter().map(|n| player(n)).collect();
    let game = Game::new("g".to_string(), players.clone(), vec![unopened_gift("g1", "p0")]);
    assert_eq!(game.id, "g");
    assert_eq!(game.phase, GamePhase::InProgress);
    assert_eq!(game.players, players);
    assert_eq!(game.gifts, vec![unopened_gift("g1", "p0")]);
    assert_eq!(game.current_turn, 0);
    assert!(game.history.is_empty());
    assert_eq!(game.active_player.as_ref(), game.turn_order.first());
    let mut sorted = game.turn_order.clone();
    sorted.sort();
    let mut expected = names.clone();
    expected.sort();
    assert_eq!(sorted, expected);
    assert_ne!(game.turn_order, names);
}

#[test]
fn new_game_without_players_has_nobody_active() {
    let game = Game::new("g".to_string(), vec![], vec![]);
    assert!(game.turn_order.is_empty());
    assert_eq!(game.active_player, None);
}

#[test]
fn game_with_turn_order_starts_at_the_first() {
    let game = Game::with_turn_order(
        "g".to_string(),
        vec![player("a"), player("b")],
        vec![unopened_gift("g1", "a")],
        vec!["b".to_string(), "a".to_string()],
    );
    assert_eq!(game.turn_order, vec!["b".to_string(), "a".to_string()]);
    assert_eq!(game.active_player.as_deref(), Some("b"));
    assert_eq!(game.current_turn, 0);
    assert_eq!(game.phase, GamePhase::InProgress);
}
