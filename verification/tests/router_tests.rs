use mtga_stats::events::GameEvent;
use mtga_stats::router::{classify, extract_json, extract_local_user_id, run, ChunkType, Router};
use mtga_stats::segmenter::Chunk;

#[test]
fn user_id_from_either_direction_marker() {
    assert_eq!(
        extract_local_user_id("1/2/2025 10:00:00 AM: Match to ABC123: GreToClientEvent"),
        Some("ABC123".to_string())
    );
    assert_eq!(
        extract_local_user_id("1/2/2025 10:00:00 AM: XYZ789 to Match: ClientToGreMessage"),
        Some("XYZ789".to_string())
    );
    assert_eq!(extract_local_user_id("Match to  : nothing"), None);
    assert_eq!(extract_local_user_id("Match to ABC"), None);
    assert_eq!(extract_local_user_id("no markers here"), None);
    assert_eq!(extract_local_user_id(" to Match: x"), None);
}

#[test]
fn json_body_starts_at_first_brace() {
    assert_eq!(extract_json("header {\"a\":1}"), Some("{\"a\":1}".to_string()));
    assert_eq!(extract_json("{}"), Some("{}".to_string()));
    assert_eq!(extract_json("no json"), None);
}

#[test]
fn chunks_are_classified_by_their_first_telltale_key() {
    assert_eq!(classify("{\"matchGameRoomStateChangedEvent\":{}}"), ChunkType::MatchRoomState);
    assert_eq!(classify("{\"greToClientEvent\":{}}"), ChunkType::GreToClient);
    assert_eq!(classify("{\"Courses\":[]}"), ChunkType::CourseData);
    assert_eq!(classify("{\"Courses2\":[]}"), ChunkType::Other);
    assert_eq!(
        classify("{\"greToClientEvent\":{},\"matchGameRoomStateChangedEvent\":{}}"),
        ChunkType::MatchRoomState
    );
}

fn chunk(s: &str) -> Chunk {
    Chunk { content: s.to_string() }
}

#[test]
fn local_user_announced_only_when_it_changes() {
    let mut r = Router::new();
    let es = r.route(&chunk("t: Match to U1: GreToClientEvent\n{\"x\":1}"));
    assert_eq!(es.len(), 1);
    match &es[0] {
        GameEvent::LocalPlayerIdentified { user_id } => assert_eq!(user_id, "U1"),
        other => panic!("unexpected {:?}", other),
    }
    assert!(r.route(&chunk("t: U1 to Match: ClientToGre\n{}")).is_empty());
    let es = r.route(&chunk("t: Match to U2: GreToClientEvent"));
    assert_eq!(es.len(), 1);
    assert!(r.route(&chunk("t: Match to U2: again")).is_empty());
}

#[test]
fn match_start_resets_the_game_parser() {
    let full = r#"{"greToClientEvent":{"greToClientMessages":[{"type":"GREMessageType_GameStateMessage","gameStateMessage":{"type":"GameStateType_Full","zones":[{"zoneId":26,"type":"ZoneType_Command","ownerSeatId":0}],"gameObjects":[{"instanceId":300,"grpId":5000,"zoneId":26,"ownerSeatId":2}]}}]}}"#;
    let started = r#"{"matchGameRoomStateChangedEvent":{"gameRoomInfo":{"stateType":"MatchGameRoomStateType_Playing","gameRoomConfig":{"matchId":"m-2","reservedPlayers":[{"userId":"a","playerName":"A","systemSeatId":1,"teamId":1},{"userId":"b","playerName":"B","systemSeatId":2,"teamId":2}]}}}}"#;
    let chunks = vec![chunk(full), chunk(full), chunk(started), chunk(full)];
    let es = run(&chunks);
    assert_eq!(es.len(), 3);
    assert!(matches!(es[0], GameEvent::CommanderRevealed { card_id: 5000, seat_id: 2 }));
    assert!(matches!(es[1], GameEvent::MatchStarted { .. }));
    // The commander is announced again in the new match.
    assert!(matches!(es[2], GameEvent::CommanderRevealed { card_id: 5000, seat_id: 2 }));
}

#[test]
fn course_data_chunk_gives_snapshots() {
    let text = "header\n{\"Courses\":[{\"CourseDeckSummary\":{\"DeckId\":\"d\",\"Name\":\"N\"},\"CourseDeck\":{\"MainDeck\":[{\"cardId\":1,\"quantity\":2}]}}]}";
    let es = run(&vec![chunk(text), chunk("no json at all")]);
    assert_eq!(es.len(), 1);
    assert!(matches!(es[0], GameEvent::DeckSnapshot { .. }));
}
