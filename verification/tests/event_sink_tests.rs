use mtga_stats::cards::{CardDatabase, CardRow};
use mtga_stats::event_sink::{EventSink, SinkAction, SinkContext, PENDING_CAP};
use mtga_stats::events::{DeckCard, GameEvent, MatchPlayer, Zone};
use mtga_stats::records::DeckSnapshotRecord;
use std::collections::HashMap;

fn player(uid: &str, name: &str, seat: u8, team: u8) -> MatchPlayer {
    MatchPlayer { user_id: uid.to_string(), name: name.to_string(), seat_id: seat, team_id: team }
}

fn started(mid: &str) -> GameEvent {
    GameEvent::MatchStarted {
        match_id: mid.to_string(),
        player1: player("U1", "Alice", 1, 1),
        player2: player("U2", "Bob", 2, 2),
        format: "Ladder".to_string(),
        timestamp: 1234,
    }
}

fn with_db(saved: Option<&str>) -> SinkContext {
    SinkContext { has_db: true, saved_player_id: saved.map(|s| s.to_string()) }
}

fn no_db() -> SinkContext {
    SinkContext { has_db: false, saved_player_id: None }
}

fn cards_db() -> CardDatabase {
    let rows = vec![CardRow {
        grp_id: 300,
        is_token: true,
        types: "2".to_string(),
        name: "Goblin Token".to_string(),
        cmc: 0,
        raw_cost: String::new(),
    }];
    CardDatabase::from_rows(&rows, "cards.mtga")
}

fn counts(pairs: &[(u32, u32)]) -> HashMap<u32, u32> {
    pairs.iter().copied().collect()
}

#[test]
fn identification_asks_for_a_switch() {
    let mut sink = EventSink::new();
    let ev = GameEvent::LocalPlayerIdentified { user_id: "U1".to_string() };
    for ctx in [no_db(), with_db(None)] {
        let acts = sink.process(&ev, &ctx, &cards_db());
        assert_eq!(acts.len(), 1);
        match &acts[0] {
            SinkAction::SwitchUser { user_id } => assert_eq!(user_id, "U1"),
            other => panic!("unexpected {:?}", other),
        }
    }
}

#[test]
fn events_wait_for_a_user_and_are_replayed() {
    let mut sink = EventSink::new();
    let snap = GameEvent::DeckSnapshot {
        deck_id: "d1".to_string(),
        deck_name: "Red".to_string(),
        cards: vec![DeckCard { card_id: 1, quantity: 4 }],
    };
    assert!(sink.process(&snap, &no_db(), &cards_db()).is_empty());
    assert!(sink.process(&GameEvent::PlayedFirst { seat_id: 1 }, &no_db(), &cards_db()).is_empty());
    let acts = sink.user_switched("U1", vec![]);
    assert_eq!(acts.len(), 2);
    match &acts[0] {
        SinkAction::SetSetting { key, value } => {
            assert_eq!(key, "player_id");
            assert_eq!(value, "U1");
        },
        other => panic!("unexpected {:?}", other),
    }
    match &acts[1] {
        SinkAction::Replay { events } => {
            assert_eq!(events.len(), 2);
            assert!(matches!(events[0], GameEvent::DeckSnapshot { .. }));
            assert!(matches!(events[1], GameEvent::PlayedFirst { seat_id: 1 }));
        },
        other => panic!("unexpected {:?}", other),
    }
    // Nothing is left to replay.
    assert_eq!(sink.user_switched("U1", vec![]).len(), 1);
}

#[test]
fn pending_buffer_drops_the_oldest_at_the_cap() {
    let mut sink = EventSink::new();
    for i in 0..(PENDING_CAP as u32 + 5) {
        let ev = GameEvent::DieRollResult { seat_id: 1, roll_value: i };
        assert!(sink.process(&ev, &no_db(), &cards_db()).is_empty());
    }
    let acts = sink.user_switched("U1", vec![]);
    match &acts[1] {
        SinkAction::Replay { events } => {
            assert_eq!(events.len(), PENDING_CAP);
            assert!(matches!(events[0], GameEvent::DieRollResult { roll_value: 5, .. }));
            let last = PENDING_CAP as u32 + 4;
            assert!(matches!(events[PENDING_CAP - 1], GameEvent::DieRollResult { roll_value, .. } if roll_value == last));
        },
        other => panic!("unexpected {:?}", other),
    }
}

#[test]
fn match_start_records_the_match_and_identifies_players() {
    let mut sink = EventSink::new();
    let acts = sink.process(&started("m1"), &with_db(Some("U2")), &cards_db());
    assert_eq!(acts.len(), 2);
    match &acts[0] {
        SinkAction::InsertMatch {
            match_id,
            format,
            player_seat_id,
            player_team_id,
            opponent_name,
            opponent_id,
            player1_user_id,
            player2_user_id,
            started_at,
            ..
        } => {
            assert_eq!(match_id, "m1");
            assert_eq!(format, "Ladder");
            assert_eq!(*player_seat_id, 2);
            assert_eq!(*player_team_id, 2);
            assert_eq!(opponent_name, "Alice");
            assert_eq!(opponent_id, "U1");
            assert_eq!(player1_user_id, "U1");
            assert_eq!(player2_user_id, "U2");
            assert_eq!(*started_at, 1234);
        },
        other => panic!("unexpected {:?}", other),
    }
    match &acts[1] {
        SinkAction::Emit { event: GameEvent::PlayerIdentified { player_seat_id, opponent_seat_id, opponent } } => {
            assert_eq!(*player_seat_id, 2);
            assert_eq!(*opponent_seat_id, 1);
            assert_eq!(opponent.user_id, "U1");
        },
        other => panic!("unexpected {:?}", other),
    }
}

#[test]
fn unknown_saved_player_defaults_to_player1() {
    let mut sink = EventSink::new();
    let acts = sink.process(&started("m1"), &with_db(Some("nobody")), &cards_db());
    assert!(matches!(
        acts[1],
        SinkAction::Emit { event: GameEvent::PlayerIdentified { player_seat_id: 1, opponent_seat_id: 2, .. } }
    ));
}

fn ended(team: u8) -> GameEvent {
    GameEvent::MatchEnded {
        match_id: "m1".to_string(),
        winning_team_id: team,
        reason: "ResultReason_Game".to_string(),
        timestamp: 99,
    }
}

#[test]
fn match_result_is_win_for_our_team() {
    for (team, expected) in [(1u8, "Win"), (2u8, "Loss")] {
        let mut sink = EventSink::new();
        sink.process(&started("m1"), &with_db(Some("U1")), &cards_db());
        let acts = sink.process(&ended(team), &with_db(Some("U1")), &cards_db());
        assert_eq!(acts.len(), 1);
        match &acts[0] {
            SinkAction::FinishMatch { match_id, result, ended_at } => {
                assert_eq!(match_id, "m1");
                assert_eq!(result, expected);
                assert_eq!(*ended_at, 99);
            },
            other => panic!("unexpected {:?}", other),
        }
        // No match is current any more: games are not recorded.
        let g = GameEvent::GameEnded { winning_team_id: 1, game_number: 1, sideboard_next: false };
        assert!(sink.process(&g, &with_db(Some("U1")), &cards_db()).is_empty());
    }
}

#[test]
fn games_die_rolls_and_play_order_are_recorded() {
    let ctx = with_db(Some("U1"));
    let mut sink = EventSink::new();
    sink.process(&started("m1"), &ctx, &cards_db());
    let g = GameEvent::GameEnded { winning_team_id: 2, game_number: 1, sideboard_next: true };
    let acts = sink.process(&g, &ctx, &cards_db());
    assert!(matches!(&acts[0], SinkAction::InsertGame { game_number: 1, winning_team_id: 2, .. }));
    assert!(sink.process(&GameEvent::DieRollResult { seat_id: 1, roll_value: 15 }, &ctx, &cards_db()).is_empty());
    let acts = sink.process(&GameEvent::DieRollResult { seat_id: 2, roll_value: 3 }, &ctx, &cards_db());
    assert_eq!(acts.len(), 2);
    assert!(matches!(&acts[0], SinkAction::SetDieRoll { won: true, .. }));
    assert!(matches!(&acts[1], SinkAction::SetPlayedFirst { played_first: true, .. }));
    let acts = sink.process(&GameEvent::PlayedFirst { seat_id: 2 }, &ctx, &cards_db());
    assert!(matches!(&acts[0], SinkAction::SetPlayedFirst { played_first: false, .. }));
}

fn onto_battlefield(card: u32, owner: u8, face_down: bool) -> GameEvent {
    GameEvent::ZoneChanged {
        instance_id: 1,
        card_id: card,
        from_zone: Zone::Hand,
        to_zone: Zone::Battlefield,
        owner_seat_id: owner,
        face_down,
    }
}

#[test]
fn opponent_cards_are_recorded_per_game() {
    let ctx = with_db(Some("U1"));
    let mut sink = EventSink::new();
    sink.process(&started("m1"), &ctx, &cards_db());
    let acts = sink.process(&onto_battlefield(500, 2, false), &ctx, &cards_db());
    assert!(matches!(&acts[0], SinkAction::RecordOpponentCard { game_number: 1, card_id: 500, .. }));
    // Ours, face down, or a token: not recorded.
    assert!(sink.process(&onto_battlefield(500, 1, false), &ctx, &cards_db()).is_empty());
    assert!(sink.process(&onto_battlefield(500, 2, true), &ctx, &cards_db()).is_empty());
    assert!(sink.process(&onto_battlefield(300, 2, false), &ctx, &cards_db()).is_empty());
    let g = GameEvent::GameEnded { winning_team_id: 1, game_number: 1, sideboard_next: true };
    sink.process(&g, &ctx, &cards_db());
    let acts = sink.process(&onto_battlefield(501, 2, false), &ctx, &cards_db());
    assert!(matches!(&acts[0], SinkAction::RecordOpponentCard { game_number: 2, card_id: 501, .. }));
}

#[test]
fn loaded_deck_is_matched_to_a_snapshot_once() {
    let ctx = with_db(Some("U1"));
    let mut sink = EventSink::new();
    let snaps = vec![
        DeckSnapshotRecord { deck_id: "other".to_string(), deck_name: "Other".to_string(), cards: counts(&[(9, 1)]) },
        DeckSnapshotRecord { deck_id: "d1".to_string(), deck_name: "Brawl".to_string(), cards: counts(&[(1, 4), (77, 1)]) },
    ];
    sink.user_switched("U1", snaps);
    let loaded = GameEvent::DeckLoaded { cards: vec![DeckCard { card_id: 1, quantity: 4 }], commander: Some(77) };
    // Before the match: remembered only.
    assert!(sink.process(&loaded, &ctx, &cards_db()).is_empty());
    let acts = sink.process(&started("m1"), &ctx, &cards_db());
    assert_eq!(acts.len(), 5);
    match &acts[1] {
        SinkAction::SetMatchDeckCards { match_id, cards } => {
            assert_eq!(match_id, "m1");
            assert_eq!(cards, &counts(&[(1, 4), (77, 1)]));
        },
        other => panic!("unexpected {:?}", other),
    }
    match &acts[2] {
        SinkAction::SetMatchDeck { match_id, deck_id, deck_name } => {
            assert_eq!(match_id, "m1");
            assert_eq!(deck_id, "d1");
            assert_eq!(deck_name, "Brawl");
        },
        other => panic!("unexpected {:?}", other),
    }
    assert!(matches!(&acts[3], SinkAction::Emit { event: GameEvent::PlayerIdentified { .. } }));
    assert!(matches!(&acts[4], SinkAction::Emit { event: GameEvent::CommanderRevealed { card_id: 77, seat_id: 1 } }));
    // Loaded again within the match: stored, but not labelled twice.
    let acts = sink.process(&loaded, &ctx, &cards_db());
    assert_eq!(acts.len(), 1);
    assert!(matches!(&acts[0], SinkAction::SetMatchDeckCards { .. }));
}

#[test]
fn snapshot_is_stored_and_offered_for_correlation() {
    let ctx = with_db(Some("U1"));
    let mut sink = EventSink::new();
    let snap = GameEvent::DeckSnapshot {
        deck_id: "d1".to_string(),
        deck_name: "Red".to_string(),
        cards: vec![DeckCard { card_id: 1, quantity: 4 }, DeckCard { card_id: 2, quantity: 2 }],
    };
    let acts = sink.process(&snap, &ctx, &cards_db());
    assert_eq!(acts.len(), 2);
    match &acts[0] {
        SinkAction::UpsertDeckSnapshot { deck_id, deck_name, cards } => {
            assert_eq!(deck_id, "d1");
            assert_eq!(deck_name, "Red");
            assert_eq!(cards, &counts(&[(1, 4), (2, 2)]));
        },
        other => panic!("unexpected {:?}", other),
    }
    assert!(matches!(&acts[1], SinkAction::CorrelateUncorrelated { .. }));
    // A match with this composition is then labelled.
    let loaded = GameEvent::DeckLoaded {
        cards: vec![DeckCard { card_id: 2, quantity: 2 }, DeckCard { card_id: 1, quantity: 4 }],
        commander: None,
    };
    sink.process(&started("m1"), &ctx, &cards_db());
    let acts = sink.process(&loaded, &ctx, &cards_db());
    assert_eq!(acts.len(), 2);
    assert!(matches!(&acts[1], SinkAction::SetMatchDeck { .. }));
}

#[test]
fn retroactive_correlation_labels_matching_matches() {
    let sink = EventSink::new();
    let target = counts(&[(1, 4), (2, 2)]);
    let candidates = vec![
        ("m3".to_string(), counts(&[(1, 4), (2, 2)])),
        ("m2".to_string(), counts(&[(1, 4)])),
        ("m1".to_string(), counts(&[(2, 2), (1, 4)])),
    ];
    let acts = sink.retroactively_correlate("d1", "Red", &target, &candidates);
    let ids: Vec<String> = acts
        .iter()
        .map(|a| match a {
            SinkAction::SetMatchDeck { match_id, deck_id, deck_name } => {
                assert_eq!(deck_id, "d1");
                assert_eq!(deck_name, "Red");
                match_id.clone()
            },
            other => panic!("unexpected {:?}", other),
        })
        .collect();
    assert_eq!(ids, vec!["m3".to_string(), "m1".to_string()]);
}

#[test]
fn a_new_snapshot_replaces_the_one_with_its_id() {
    let ctx = with_db(Some("U1"));
    let mut sink = EventSink::new();
    let first = GameEvent::DeckSnapshot {
        deck_id: "d1".to_string(),
        deck_name: "Old".to_string(),
        cards: vec![DeckCard { card_id: 1, quantity: 4 }],
    };
    let second = GameEvent::DeckSnapshot {
        deck_id: "d1".to_string(),
        deck_name: "New".to_string(),
        cards: vec![DeckCard { card_id: 2, quantity: 4 }],
    };
    sink.process(&first, &ctx, &cards_db());
    sink.process(&second, &ctx, &cards_db());
    sink.process(&started("m1"), &ctx, &cards_db());
    let old_deck = GameEvent::DeckLoaded { cards: vec![DeckCard { card_id: 1, quantity: 4 }], commander: None };
    assert_eq!(sink.process(&old_deck, &ctx, &cards_db()).len(), 1);
    let new_deck = GameEvent::DeckLoaded { cards: vec![DeckCard { card_id: 2, quantity: 4 }], commander: None };
    let acts = sink.process(&new_deck, &ctx, &cards_db());
    assert_eq!(acts.len(), 2);
    match &acts[1] {
        SinkAction::SetMatchDeck { deck_id, deck_name, .. } => {
            assert_eq!(deck_id, "d1");
            assert_eq!(deck_name, "New");
        },
        other => panic!("unexpected {:?}", other),
    }
}

#[test]
fn switching_keeps_one_snapshot_per_deck_id() {
    let ctx = with_db(Some("U1"));
    let mut sink = EventSink::new();
    let snaps = vec![
        DeckSnapshotRecord { deck_id: "d1".to_string(), deck_name: "First".to_string(), cards: counts(&[(1, 4)]) },
        DeckSnapshotRecord { deck_id: "d1".to_string(), deck_name: "Second".to_string(), cards: counts(&[(2, 4)]) },
    ];
    sink.user_switched("U1", snaps);
    sink.process(&started("m1"), &ctx, &cards_db());
    let old_deck = GameEvent::DeckLoaded { cards: vec![DeckCard { card_id: 1, quantity: 4 }], commander: None };
    assert_eq!(sink.process(&old_deck, &ctx, &cards_db()).len(), 1);
    let new_deck = GameEvent::DeckLoaded { cards: vec![DeckCard { card_id: 2, quantity: 4 }], commander: None };
    let acts = sink.process(&new_deck, &ctx, &cards_db());
    assert!(matches!(&acts[1], SinkAction::SetMatchDeck { deck_name, .. } if deck_name == "Second"));
}
