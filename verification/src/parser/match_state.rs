//! `matchGameRoomStateChangedEvent` blocks: match start and match end.

use vstd::prelude::*;
use crate::events::{GameEvent, GameEventView, MatchPlayer, MatchPlayerView, events_view};
use crate::json::{
    JsonValue, array_of, field, json_document, parse_document, str_of, u64_of, str_opt_view,
};
use crate::text::{parse_u64, parse_u64_exec, str_eq, string_from_chars, chars_of};

verus! {

/// The player that a `reservedPlayers` entry describes.
pub open spec fn player_of(v: JsonValue) -> Option<MatchPlayerView> {
    match (
        str_of(v.spec_get("userId"@)),
        str_of(v.spec_get("playerName"@)),
        u64_of(v.spec_get("systemSeatId"@)),
        u64_of(v.spec_get("teamId"@)),
    ) {
        (Some(user_id), Some(name), Some(seat), Some(team)) => Some(
            MatchPlayerView { user_id, name, seat_id: seat as u8, team_id: team as u8 },
        ),
        _ => None,
    }
}

/// The events of a room that has started playing.
pub open spec fn started_events(room_info: JsonValue, timestamp: u64) -> Option<
    Seq<GameEventView>,
> {
    let config = room_info.spec_get("gameRoomConfig"@);
    match (str_of(field(config, "matchId"@)), array_of(field(config, "reservedPlayers"@))) {
        (Some(match_id), Some(players)) => {
            if players.len() < 2 {
                None
            } else {
                let format = match str_of(players[0].spec_get("eventId"@)) {
                    Some(f) => f,
                    None => "Unknown"@,
                };
                match (player_of(players[0]), player_of(players[1])) {
                    (Some(player1), Some(player2)) => Some(
                        seq![
                            GameEventView::MatchStarted {
                                match_id,
                                player1,
                                player2,
                                format,
                                timestamp,
                            },
                        ],
                    ),
                    _ => None,
                }
            }
        },
        _ => None,
    }
}

/// A `resultList` entry whose scope is the whole match.
pub open spec fn is_match_scope(r: JsonValue) -> bool {
    str_of(r.spec_get("scope"@)) == Some("MatchScope_Match"@)
}

/// The first entry at or after `i` whose scope is the whole match.
pub open spec fn match_result_from(list: Seq<JsonValue>, i: int) -> Option<JsonValue>
    decreases list.len() - i,
{
    if i < 0 || i >= list.len() {
        None
    } else if is_match_scope(list[i]) {
        Some(list[i])
    } else {
        match_result_from(list, i + 1)
    }
}

/// The events of a room whose match has completed.
pub open spec fn ended_events(room_info: JsonValue, timestamp: u64) -> Option<
    Seq<GameEventView>,
> {
    let config = room_info.spec_get("gameRoomConfig"@);
    match str_of(field(config, "matchId"@)) {
        Some(match_id) => match array_of(
            field(room_info.spec_get("finalMatchResult"@), "resultList"@),
        ) {
            Some(list) => match match_result_from(list, 0) {
                Some(result) => match u64_of(result.spec_get("winningTeamId"@)) {
                    Some(team) => {
                        let reason = match str_of(result.spec_get("reason"@)) {
                            Some(r) => r,
                            None => "Unknown"@,
                        };
                        Some(
                            seq![
                                GameEventView::MatchEnded {
                                    match_id,
                                    winning_team_id: team as u8,
                                    reason,
                                    timestamp,
                                },
                            ],
                        )
                    },
                    None => None,
                },
                None => None,
            },
            None => None,
        },
        None => None,
    }
}

/// The `timestamp` of the block: its decimal text, or 0.
pub open spec fn timestamp_of(v: JsonValue) -> u64 {
    match str_of(v.spec_get("timestamp"@)) {
        Some(t) => match parse_u64(t) {
            Some(n) => n,
            None => 0,
        },
        None => 0,
    }
}

/// The events of a room-state block, or `None` where it lacks what they need.
pub open spec fn room_state_events_opt(v: JsonValue) -> Option<Seq<GameEventView>> {
    let room_info = field(v.spec_get("matchGameRoomStateChangedEvent"@), "gameRoomInfo"@);
    match room_info {
        Some(info) => match str_of(info.spec_get("stateType"@)) {
            Some(state) => if state == "MatchGameRoomStateType_Playing"@ {
                started_events(info, timestamp_of(v))
            } else if state == "MatchGameRoomStateType_MatchCompleted"@ {
                ended_events(info, timestamp_of(v))
            } else {
                Some(Seq::empty())
            },
            None => None,
        },
        None => None,
    }
}

/// The events of a room-state block; none where it lacks what they need.
pub open spec fn room_state_events(v: JsonValue) -> Seq<GameEventView> {
    match room_state_events_opt(v) {
        Some(es) => es,
        None => Seq::empty(),
    }
}

/// The events of the room-state block written in `content`.
pub open spec fn room_state_text_events(content: Seq<char>) -> Seq<GameEventView> {
    match json_document(content) {
        Some(v) => room_state_events(v),
        None => Seq::empty(),
    }
}

pub open spec fn player_opt_view(o: Option<MatchPlayer>) -> Option<MatchPlayerView> {
    match o {
        Some(p) => Some(p@),
        None => None,
    }
}

pub open spec fn events_opt_view(o: Option<Vec<GameEvent>>) -> Option<Seq<GameEventView>> {
    match o {
        Some(es) => Some(events_view(es@)),
        None => None,
    }
}

fn to_string(s: &str) -> (r: String)
    ensures
        r@ == s@,
{
    string_from_chars(&chars_of(s))
}

fn extract_player(v: &JsonValue) -> (r: Option<MatchPlayer>)
    ensures
        player_opt_view(r) == player_of(*v),
{
    let user_id = match v.get_str("userId") {
        Some(s) => to_string(s),
        None => return None,
    };
    let name = match v.get_str("playerName") {
        Some(s) => to_string(s),
        None => return None,
    };
    let seat = match v.get_u64("systemSeatId") {
        Some(n) => n,
        None => return None,
    };
    let team = match v.get_u64("teamId") {
        Some(n) => n,
        None => return None,
    };
    Some(MatchPlayer { user_id, name, seat_id: seat as u8, team_id: team as u8 })
}

fn parse_started(room_info: &JsonValue, timestamp: u64) -> (r: Option<Vec<GameEvent>>)
    ensures
        events_opt_view(r) == started_events(*room_info, timestamp),
{
    let config = match room_info.get("gameRoomConfig") {
        Some(c) => c,
        None => return None,
    };
    let match_id = match config.get_str("matchId") {
        Some(s) => to_string(s),
        None => return None,
    };
    let players = match config.get_array("reservedPlayers") {
        Some(p) => p,
        None => return None,
    };
    if players.len() < 2 {
        return None;
    }
    let format = match players[0].get_str("eventId") {
        Some(f) => to_string(f),
        None => to_string("Unknown"),
    };
    let player1 = match extract_player(&players[0]) {
        Some(p) => p,
        None => return None,
    };
    let player2 = match extract_player(&players[1]) {
        Some(p) => p,
        None => return None,
    };
    let e = GameEvent::MatchStarted { match_id, player1, player2, format, timestamp };
    let mut out: Vec<GameEvent> = Vec::new();
    out.push(e);
    assert(events_view(out@) =~= seq![e@]);
    Some(out)
}

fn find_match_result(list: &Vec<JsonValue>) -> (r: Option<&JsonValue>)
    ensures
        match r {
            Some(x) => match_result_from(list@, 0) == Some(*x),
            None => match_result_from(list@, 0) is None,
        },
{
    let mut i: usize = 0;
    while i < list.len()
        invariant
            i <= list.len(),
            match_result_from(list@, 0) == match_result_from(list@, i as int),
        decreases list.len() - i,
    {
        let scope = list[i].get_str("scope");
        let is_match = match scope {
            Some(s) => str_eq(s, "MatchScope_Match"),
            None => false,
        };
        assert(is_match == is_match_scope(list@[i as int]));
        if is_match {
            return Some(&list[i]);
        }
        i = i + 1;
    }
    None
}

fn parse_ended(room_info: &JsonValue, timestamp: u64) -> (r: Option<Vec<GameEvent>>)
    ensures
        events_opt_view(r) == ended_events(*room_info, timestamp),
{
    let config = match room_info.get("gameRoomConfig") {
        Some(c) => c,
        None => return None,
    };
    let match_id = match config.get_str("matchId") {
        Some(s) => to_string(s),
        None => return None,
    };
    let final_result = match room_info.get("finalMatchResult") {
        Some(f) => f,
        None => return None,
    };
    let list = match final_result.get_array("resultList") {
        Some(l) => l,
        None => return None,
    };
    let result = match find_match_result(list) {
        Some(r) => r,
        None => return None,
    };
    let team = match result.get_u64("winningTeamId") {
        Some(t) => t,
        None => return None,
    };
    let reason = match result.get_str("reason") {
        Some(s) => to_string(s),
        None => to_string("Unknown"),
    };
    let e = GameEvent::MatchEnded { match_id, winning_team_id: team as u8, reason, timestamp };
    let mut out: Vec<GameEvent> = Vec::new();
    out.push(e);
    assert(events_view(out@) =~= seq![e@]);
    Some(out)
}

fn timestamp_exec(v: &JsonValue) -> (r: u64)
    ensures
        r == timestamp_of(*v),
{
    match v.get_str("timestamp") {
        Some(t) => match parse_u64_exec(t) {
            Some(n) => n,
            None => 0,
        },
        None => 0,
    }
}

fn try_parse_value(v: &JsonValue) -> (r: Option<Vec<GameEvent>>)
    ensures
        events_opt_view(r) == room_state_events_opt(*v),
{
    let room_info = match v.get("matchGameRoomStateChangedEvent") {
        Some(e) => match e.get("gameRoomInfo") {
            Some(i) => i,
            None => return None,
        },
        None => return None,
    };
    let state = match room_info.get_str("stateType") {
        Some(s) => s,
        None => return None,
    };
    let timestamp = timestamp_exec(v);
    if str_eq(state, "MatchGameRoomStateType_Playing") {
        parse_started(room_info, timestamp)
    } else if str_eq(state, "MatchGameRoomStateType_MatchCompleted") {
        parse_ended(room_info, timestamp)
    } else {
        let out: Vec<GameEvent> = Vec::new();
        assert(events_view(out@) =~= Seq::<GameEventView>::empty());
        Some(out)
    }
}

/// The events of a parsed room-state block.
pub fn parse_value(v: &JsonValue) -> (r: Vec<GameEvent>)
    ensures
        events_view(r@) == room_state_events(*v),
{
    match try_parse_value(v) {
        Some(es) => es,
        None => {
            let out: Vec<GameEvent> = Vec::new();
            assert(events_view(out@) =~= Seq::<GameEventView>::empty());
            out
        },
    }
}

/// The events of the room-state block written in `content`: a
/// `MatchStarted` when the room starts playing, a `MatchEnded` when the match
/// completes, and none for other states or for text that lacks what they need.
pub fn parse(content: &str) -> (r: Vec<GameEvent>)
    ensures
        events_view(r@) == room_state_text_events(content@),
{
    match parse_document(content) {
        Some(v) => parse_value(&v),
        None => {
            let out: Vec<GameEvent> = Vec::new();
            assert(events_view(out@) =~= Seq::<GameEventView>::empty());
            out
        },
    }
}

} // verus!
