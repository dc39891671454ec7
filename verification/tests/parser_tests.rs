use mtga_stats::events::{DeckCard, GameEvent, Zone};
use mtga_stats::parser::course_data;
use mtga_stats::parser::gre_message::GreParser;
use mtga_stats::parser::match_state;

const STARTED: &str = r#"{"timestamp":"638500000000","matchGameRoomStateChangedEvent":{"gameRoomInfo":{"stateType":"MatchGameRoomStateType_Playing","gameRoomConfig":{"matchId":"m-1","reservedPlayers":[{"userId":"U1","playerName":"Alice","systemSeatId":1,"teamId":1,"eventId":"Ladder"},{"userId":"U2","playerName":"Bob","systemSeatId":2,"teamId":2,"eventId":"Ladder"}]}}}}"#;

const ENDED: &str = r#"{"timestamp":"99","matchGameRoomStateChangedEvent":{"gameRoomInfo":{"stateType":"MatchGameRoomStateType_MatchCompleted","gameRoomConfig":{"matchId":"m-1"},"finalMatchResult":{"resultList":[{"scope":"MatchScope_Game","winningTeamId":1},{"scope":"MatchScope_Match","winningTeamId":2,"reason":"ResultReason_Concede"}]}}}}"#;

#[test]
fn match_start_names_both_players() {
    let es = match_state::parse(STARTED);
    assert_eq!(es.len(), 1);
    match &es[0] {
        GameEvent::MatchStarted { match_id, player1, player2, format, timestamp } => {
            assert_eq!(match_id, "m-1");
            assert_eq!(player1.user_id, "U1");
            assert_eq!(player1.name, "Alice");
            assert_eq!(player1.seat_id, 1);
            assert_eq!(player1.team_id, 1);
            assert_eq!(player2.user_id, "U2");
            assert_eq!(player2.seat_id, 2);
            assert_eq!(format, "Ladder");
            assert_eq!(*timestamp, 638500000000);
        },
        other => panic!("unexpected {:?}", other),
    }
}

#[test]
fn match_end_takes_the_match_scope_result() {
    let es = match_state::parse(ENDED);
    assert_eq!(es.len(), 1);
    match &es[0] {
        GameEvent::MatchEnded { match_id, winning_team_id, reason, timestamp } => {
            assert_eq!(match_id, "m-1");
            assert_eq!(*winning_team_id, 2);
            assert_eq!(reason, "ResultReason_Concede");
            assert_eq!(*timestamp, 99);
        },
        other => panic!("unexpected {:?}", other),
    }
}

#[test]
fn room_state_defaults_and_refusals() {
    // Missing eventId: format Unknown; missing timestamp: 0.
    let no_event = r#"{"matchGameRoomStateChangedEvent":{"gameRoomInfo":{"stateType":"MatchGameRoomStateType_Playing","gameRoomConfig":{"matchId":"m","reservedPlayers":[{"userId":"a","playerName":"A","systemSeatId":1,"teamId":1},{"userId":"b","playerName":"B","systemSeatId":2,"teamId":2}]}}}}"#;
    match &match_state::parse(no_event)[0] {
        GameEvent::MatchStarted { format, timestamp, .. } => {
            assert_eq!(format, "Unknown");
            assert_eq!(*timestamp, 0);
        },
        other => panic!("unexpected {:?}", other),
    }
    // One player only: nothing.
    let one = r#"{"matchGameRoomStateChangedEvent":{"gameRoomInfo":{"stateType":"MatchGameRoomStateType_Playing","gameRoomConfig":{"matchId":"m","reservedPlayers":[{"userId":"a","playerName":"A","systemSeatId":1,"teamId":1}]}}}}"#;
    assert!(match_state::parse(one).is_empty());
    // Another state type: nothing.
    let other = r#"{"matchGameRoomStateChangedEvent":{"gameRoomInfo":{"stateType":"MatchGameRoomStateType_Waiting"}}}"#;
    assert!(match_state::parse(other).is_empty());
    // Not JSON: nothing.
    assert!(match_state::parse("{not json").is_empty());
}

#[test]
fn course_data_gives_deck_snapshots() {
    let text = r#"{"Courses":[{"CourseDeckSummary":{"DeckId":"d1","Name":"Mono Red"},"CourseDeck":{"MainDeck":[{"cardId":100,"quantity":4},{"cardId":200,"quantity":20}],"CommandZone":[{"cardId":900,"quantity":1}]}},{"CourseDeckSummary":{"DeckId":"d2"},"CourseDeck":{"MainDeck":[]}},{"CourseDeckSummary":{"DeckId":"d3","Name":"Empty"},"CourseDeck":{"MainDeck":[{"cardId":5}]}}]}"#;
    let es = course_data::parse(text);
    assert_eq!(es.len(), 2);
    match &es[0] {
        GameEvent::DeckSnapshot { deck_id, deck_name, cards } => {
            assert_eq!(deck_id, "d1");
            assert_eq!(deck_name, "Mono Red");
            assert_eq!(
                cards,
                &vec![
                    DeckCard { card_id: 100, quantity: 4 },
                    DeckCard { card_id: 200, quantity: 20 },
                    DeckCard { card_id: 900, quantity: 1 },
                ]
            );
        },
        other => panic!("unexpected {:?}", other),
    }
    match &es[1] {
        GameEvent::DeckSnapshot { deck_id, cards, .. } => {
            assert_eq!(deck_id, "d3");
            assert!(cards.is_empty());
        },
        other => panic!("unexpected {:?}", other),
    }
    assert!(course_data::parse(r#"{"Other":1}"#).is_empty());
    assert!(course_data::parse("nope").is_empty());
}

fn gre(msgs: &str) -> String {
    format!(r#"{{"greToClientEvent":{{"greToClientMessages":[{}]}}}}"#, msgs)
}

#[test]
fn connect_response_counts_the_deck() {
    let text = gre(
        r#"{"type":"GREMessageType_ConnectResp","connectResp":{"deckMessage":{"deckCards":[10,20,10,30,10],"commanderCards":[77]}}}"#,
    );
    let mut p = GreParser::new();
    let es = p.parse(&text);
    assert_eq!(es.len(), 1);
    match &es[0] {
        GameEvent::DeckLoaded { cards, commander } => {
            let mut sorted = cards.clone();
            sorted.sort_by_key(|c| c.card_id);
            assert_eq!(
                sorted,
                vec![
                    DeckCard { card_id: 10, quantity: 3 },
                    DeckCard { card_id: 20, quantity: 1 },
                    DeckCard { card_id: 30, quantity: 1 },
                ]
            );
            assert_eq!(*commander, Some(77));
        },
        other => panic!("unexpected {:?}", other),
    }
}

fn full_state() -> String {
    gre(
        r#"{"type":"GREMessageType_GameStateMessage","gameStateMessage":{"type":"GameStateType_Full","zones":[{"zoneId":26,"type":"ZoneType_Command","ownerSeatId":0},{"zoneId":27,"type":"ZoneType_Stack","ownerSeatId":0},{"zoneId":28,"type":"ZoneType_Battlefield","ownerSeatId":0},{"zoneId":33,"type":"ZoneType_Graveyard","ownerSeatId":2},{"zoneId":29,"type":"ZoneType_Exile","ownerSeatId":0}],"gameObjects":[{"instanceId":300,"grpId":5000,"zoneId":26,"ownerSeatId":2,"visibility":"Visibility_Public"}]}}"#,
    )
}

fn transfer(iid: u32, src: u32, dst: u32) -> String {
    gre(&format!(
        r#"{{"type":"GREMessageType_GameStateMessage","gameStateMessage":{{"type":"GameStateType_Diff","annotations":[{{"type":["AnnotationType_ZoneTransfer"],"affectedIds":[{}],"details":[{{"key":"zone_src","valueInt32":[{}]}},{{"key":"zone_dest","valueInt32":[{}]}}]}}]}}}}"#,
        iid, src, dst
    ))
}

#[test]
fn commander_revealed_once_and_tax_grows() {
    let mut p = GreParser::new();
    let es = p.parse(&full_state());
    assert_eq!(es.len(), 1);
    assert!(matches!(es[0], GameEvent::CommanderRevealed { card_id: 5000, seat_id: 2 }));
    // The same snapshot again announces nothing new.
    assert!(p.parse(&full_state()).is_empty());

    let es = p.parse(&transfer(300, 26, 27));
    assert_eq!(es.len(), 2);
    match &es[0] {
        GameEvent::ZoneChanged { instance_id, card_id, from_zone, to_zone, owner_seat_id, face_down } => {
            assert_eq!(*instance_id, 300);
            assert_eq!(*card_id, 5000);
            assert_eq!(*from_zone, Zone::Command);
            assert_eq!(*to_zone, Zone::Stack);
            assert_eq!(*owner_seat_id, 2);
            assert!(!*face_down);
        },
        other => panic!("unexpected {:?}", other),
    }
    assert!(matches!(
        es[1],
        GameEvent::CommanderCast { card_id: 5000, seat_id: 2, cast_count: 1, tax: 2 }
    ));

    // Dies, returns to the command zone, is cast again.
    let es = p.parse(&transfer(300, 27, 33));
    assert_eq!(es.len(), 1);
    let es = p.parse(&transfer(300, 33, 26));
    assert_eq!(es.len(), 2);
    assert!(matches!(es[1], GameEvent::CommanderReturned { card_id: 5000, seat_id: 2 }));
    let es = p.parse(&transfer(300, 26, 27));
    assert!(matches!(
        es[1],
        GameEvent::CommanderCast { card_id: 5000, seat_id: 2, cast_count: 2, tax: 4 }
    ));

    // A reset forgets the casts.
    p.reset();
    p.parse(&full_state());
    let es = p.parse(&transfer(300, 26, 27));
    assert!(matches!(es[1], GameEvent::CommanderCast { cast_count: 1, tax: 2, .. }));
}

#[test]
fn transfer_of_unknown_objects_reports_nothing() {
    let mut p = GreParser::new();
    p.parse(&full_state());
    assert!(p.parse(&transfer(999, 26, 27)).is_empty());
    assert!(p.parse(&transfer(300, 26, 12345)).is_empty());
}

#[test]
fn hidden_card_exiled_is_face_down() {
    let mut p = GreParser::new();
    p.parse(&full_state());
    let diff = gre(
        r#"{"type":"GREMessageType_GameStateMessage","gameStateMessage":{"type":"GameStateType_Diff","gameObjects":[{"instanceId":400,"grpId":6000,"zoneId":28,"ownerSeatId":1,"visibility":"Visibility_Private"}],"annotations":[{"type":["AnnotationType_ZoneTransfer"],"affectedIds":[400],"details":[{"key":"zone_src","valueInt32":[28]},{"key":"zone_dest","valueInt32":[29]}]}]}}"#,
    );
    let es = p.parse(&diff);
    assert_eq!(es.len(), 1);
    match &es[0] {
        GameEvent::ZoneChanged { to_zone, face_down, owner_seat_id, .. } => {
            assert_eq!(*to_zone, Zone::Exile);
            assert!(*face_down);
            assert_eq!(*owner_seat_id, 1);
        },
        other => panic!("unexpected {:?}", other),
    }
}

#[test]
fn shuffle_forgets_old_ids() {
    let mut p = GreParser::new();
    p.parse(&full_state());
    let shuffle = gre(
        r#"{"type":"GREMessageType_GameStateMessage","gameStateMessage":{"type":"GameStateType_Diff","annotations":[{"type":["AnnotationType_Shuffle"],"affectedIds":[2],"details":[{"key":"OldIds","valueInt32":[300]}]}]}}"#,
    );
    let es = p.parse(&shuffle);
    assert_eq!(es.len(), 1);
    assert!(matches!(es[0], GameEvent::LibraryShuffle { seat_id: 2 }));
    assert!(p.parse(&transfer(300, 26, 27)).is_empty());
}

fn intermission(prompt: u64, winner: u64) -> String {
    gre(&format!(
        r#"{{"type":"GREMessageType_IntermissionReq","intermissionReq":{{"intermissionPrompt":{{"promptId":{},"parameters":[{{"parameterName":"Other","numberValue":5}},{{"parameterName":"WinningTeamId","numberValue":{}}}]}}}}}}"#,
        prompt, winner
    ))
}

#[test]
fn games_are_numbered_through_sideboarding() {
    let mut p = GreParser::new();
    let es = p.parse(&intermission(25, 1));
    assert!(matches!(
        es[0],
        GameEvent::GameEnded { winning_team_id: 1, game_number: 1, sideboard_next: true }
    ));
    let es = p.parse(&intermission(25, 2));
    assert!(matches!(
        es[0],
        GameEvent::GameEnded { winning_team_id: 2, game_number: 2, sideboard_next: true }
    ));
    let es = p.parse(&intermission(27, 2));
    assert!(matches!(
        es[0],
        GameEvent::GameEnded { winning_team_id: 2, game_number: 3, sideboard_next: false }
    ));
    let es = p.parse(&intermission(27, 1));
    assert!(matches!(es[0], GameEvent::GameEnded { game_number: 3, .. }));
}

#[test]
fn die_rolls_and_back_to_back_documents() {
    let rolls = gre(
        r#"{"type":"GREMessageType_DieRollResultsResp","dieRollResultsResp":{"playerDieRolls":[{"systemSeatId":1,"rollValue":14},{"systemSeatId":2},{"systemSeatId":2,"rollValue":6}]}}"#,
    );
    let two = format!("{}\n{}", rolls, intermission(27, 1));
    let mut p = GreParser::new();
    let es = p.parse(&two);
    assert_eq!(es.len(), 3);
    assert!(matches!(es[0], GameEvent::DieRollResult { seat_id: 1, roll_value: 14 }));
    assert!(matches!(es[1], GameEvent::DieRollResult { seat_id: 2, roll_value: 6 }));
    assert!(matches!(es[2], GameEvent::GameEnded { .. }));
    // A broken second document keeps the events of the first.
    let broken = format!("{}{{oops", rolls);
    assert_eq!(GreParser::new().parse(&broken).len(), 2);
    // A document without GRE messages reports nothing.
    assert!(GreParser::new().parse(r#"{"other":true}"#).is_empty());
}

#[test]
fn submitted_deck_is_loaded() {
    let text = gre(
        r#"{"type":"GREMessageType_SubmitDeckReq","submitDeckReq":{"deck":{"deckCards":[1,1]}}}"#,
    );
    let es = GreParser::new().parse(&text);
    match &es[0] {
        GameEvent::DeckLoaded { cards, commander } => {
            assert_eq!(cards, &vec![DeckCard { card_id: 1, quantity: 2 }]);
            assert_eq!(*commander, None);
        },
        other => panic!("unexpected {:?}", other),
    }
}

#[test]
fn zone_names() {
    assert_eq!(Zone::from_str("ZoneType_Library"), Zone::Library);
    assert_eq!(Zone::from_str("ZoneType_Hand"), Zone::Hand);
    assert_eq!(Zone::from_str("ZoneType_Limbo"), Zone::Limbo);
    assert_eq!(Zone::from_str("ZoneType_Sideboard"), Zone::Unknown);
}

#[test]
fn full_state_syncs_each_seat_with_a_library() {
    let text = gre(
        r#"{"type":"GREMessageType_GameStateMessage","gameStateMessage":{"type":"GameStateType_Full","zones":[{"zoneId":31,"type":"ZoneType_Hand","ownerSeatId":1},{"zoneId":32,"type":"ZoneType_Library","ownerSeatId":1,"objectInstanceIds":[500,501]},{"zoneId":28,"type":"ZoneType_Battlefield","ownerSeatId":0},{"zoneId":35,"type":"ZoneType_Hand","ownerSeatId":2},{"zoneId":36,"type":"ZoneType_Library","ownerSeatId":2,"objectInstanceIds":[600]},{"zoneId":27,"type":"ZoneType_Stack","ownerSeatId":0}],"gameObjects":[{"instanceId":100,"grpId":1000,"zoneId":31,"ownerSeatId":1},{"instanceId":101,"grpId":1001,"zoneId":31,"ownerSeatId":1},{"instanceId":102,"grpId":1002,"zoneId":28,"ownerSeatId":1},{"instanceId":200,"grpId":2000,"zoneId":28,"ownerSeatId":2},{"instanceId":201,"grpId":2001,"zoneId":27,"ownerSeatId":2},{"instanceId":500,"grpId":7000,"zoneId":32,"ownerSeatId":1}]}}"#,
    );
    let es = GreParser::new().parse(&text);
    assert_eq!(es.len(), 2);
    match &es[0] {
        GameEvent::ZoneStateSync { seat_id, hand, battlefield, graveyard, exile, stack, top_of_library } => {
            assert_eq!(*seat_id, 1);
            assert_eq!(hand, &vec![1000, 1001]);
            assert_eq!(battlefield, &vec![1002]);
            assert!(graveyard.is_empty());
            assert!(exile.is_empty());
            assert!(stack.is_empty());
            assert_eq!(*top_of_library, Some(7000));
        },
        other => panic!("unexpected {:?}", other),
    }
    match &es[1] {
        GameEvent::ZoneStateSync { seat_id, hand, battlefield, stack, top_of_library, .. } => {
            assert_eq!(*seat_id, 2);
            assert!(hand.is_empty());
            assert_eq!(battlefield, &vec![2000]);
            assert_eq!(stack, &vec![2001]);
            assert_eq!(*top_of_library, None);
        },
        other => panic!("unexpected {:?}", other),
    }
}

fn turn(kind: &str, number: u64, active: u64) -> String {
    gre(&format!(
        r#"{{"type":"GREMessageType_GameStateMessage","gameStateMessage":{{"type":"{}","turnInfo":{{"turnNumber":{},"activePlayer":{}}}}}}}"#,
        kind, number, active
    ))
}

#[test]
fn played_first_reported_once_per_match() {
    let mut p = GreParser::new();
    assert!(p.parse(&turn("GameStateType_Diff", 0, 1)).is_empty());
    let es = p.parse(&turn("GameStateType_Full", 1, 2));
    assert_eq!(es.len(), 1);
    assert!(matches!(es[0], GameEvent::PlayedFirst { seat_id: 2 }));
    assert!(p.parse(&turn("GameStateType_Diff", 1, 2)).is_empty());
    assert!(p.parse(&turn("GameStateType_Diff", 2, 1)).is_empty());
    // Game 2 starts after a sideboard phase: not reported again.
    p.parse(&intermission(25, 1));
    assert!(p.parse(&turn("GameStateType_Diff", 1, 1)).is_empty());
    // A new match.
    p.reset();
    let es = p.parse(&turn("GameStateType_Diff", 1, 1));
    assert!(matches!(es[..], [GameEvent::PlayedFirst { seat_id: 1 }]));
}
