//! The game events that the parsers produce and the event sink consumes.

use vstd::prelude::*;
use crate::text::{chars_of, chars_eq, copy_string};

verus! {

#[derive(Debug)]
pub struct MatchPlayer {
    pub user_id: String,
    pub name: String,
    pub seat_id: u8,
    pub team_id: u8,
}

pub struct MatchPlayerView {
    pub user_id: Seq<char>,
    pub name: Seq<char>,
    pub seat_id: u8,
    pub team_id: u8,
}

impl View for MatchPlayer {
    type V = MatchPlayerView;

    open spec fn view(&self) -> MatchPlayerView {
        MatchPlayerView {
            user_id: self.user_id@,
            name: self.name@,
            seat_id: self.seat_id,
            team_id: self.team_id,
        }
    }
}

impl MatchPlayer {
    pub fn copy(&self) -> (r: MatchPlayer)
        ensures
            r@ == self@,
    {
        MatchPlayer {
            user_id: copy_string(&self.user_id),
            name: copy_string(&self.name),
            seat_id: self.seat_id,
            team_id: self.team_id,
        }
    }
}

#[derive(Clone, Copy, Debug, PartialEq, Eq, Structural)]
pub struct DeckCard {
    pub card_id: u32,
    pub quantity: u32,
}

#[derive(Clone, Copy, Debug, PartialEq, Eq, Structural)]
pub enum Zone {
    Library,
    Hand,
    Battlefield,
    Graveyard,
    Exile,
    Stack,
    Command,
    Limbo,
    Unknown,
}

impl Zone {
    /// The zone that MTGA's `ZoneType_*` name denotes; `Unknown` for any other text.
    pub open spec fn of_name(s: Seq<char>) -> Zone {
        if s == "ZoneType_Library"@ {
            Zone::Library
        } else if s == "ZoneType_Hand"@ {
            Zone::Hand
        } else if s == "ZoneType_Battlefield"@ {
            Zone::Battlefield
        } else if s == "ZoneType_Graveyard"@ {
            Zone::Graveyard
        } else if s == "ZoneType_Exile"@ {
            Zone::Exile
        } else if s == "ZoneType_Stack"@ {
            Zone::Stack
        } else if s == "ZoneType_Command"@ {
            Zone::Command
        } else if s == "ZoneType_Limbo"@ {
            Zone::Limbo
        } else {
            Zone::Unknown
        }
    }

    pub fn from_str(s: &str) -> (r: Zone)
        ensures
            r == Zone::of_name(s@),
    {
        let cs = chars_of(s);
        if chars_eq(&cs, &chars_of("ZoneType_Library")) {
            Zone::Library
        } else if chars_eq(&cs, &chars_of("ZoneType_Hand")) {
            Zone::Hand
        } else if chars_eq(&cs, &chars_of("ZoneType_Battlefield")) {
            Zone::Battlefield
        } else if chars_eq(&cs, &chars_of("ZoneType_Graveyard")) {
            Zone::Graveyard
        } else if chars_eq(&cs, &chars_of("ZoneType_Exile")) {
            Zone::Exile
        } else if chars_eq(&cs, &chars_of("ZoneType_Stack")) {
            Zone::Stack
        } else if chars_eq(&cs, &chars_of("ZoneType_Command")) {
            Zone::Command
        } else if chars_eq(&cs, &chars_of("ZoneType_Limbo")) {
            Zone::Limbo
        } else {
            Zone::Unknown
        }
    }
}

#[derive(Debug)]
pub enum GameEvent {
    MatchStarted {
        match_id: String,
        player1: MatchPlayer,
        player2: MatchPlayer,
        format: String,
        timestamp: u64,
    },
    /// Synthesized by the event sink right after MatchStarted: which seat is
    /// the local player and which the opponent.
    PlayerIdentified { player_seat_id: u8, opponent_seat_id: u8, opponent: MatchPlayer },
    MatchEnded { match_id: String, winning_team_id: u8, reason: String, timestamp: u64 },
    /// Deck submitted for the current match.
    DeckLoaded { cards: Vec<DeckCard>, commander: Option<u32> },
    /// A card moved between zones.
    ZoneChanged {
        instance_id: u32,
        card_id: u32,
        from_zone: Zone,
        to_zone: Zone,
        owner_seat_id: u8,
        face_down: bool,
    },
    /// A full deck from a CourseData block.
    DeckSnapshot { deck_id: String, deck_name: String, cards: Vec<DeckCard> },
    /// One game of a match ended; `sideboard_next` when more games follow.
    GameEnded { winning_team_id: u8, game_number: u8, sideboard_next: bool },
    /// One player's die roll at match start.
    DieRollResult { seat_id: u8, roll_value: u32 },
    /// A commander seen in the Command zone.
    CommanderRevealed { card_id: u32, seat_id: u8 },
    /// A commander cast from the command zone; `tax` is the extra cost of the next cast.
    CommanderCast { card_id: u32, seat_id: u8, cast_count: u8, tax: u8 },
    /// A commander moved back to the command zone.
    CommanderReturned { card_id: u32, seat_id: u8 },
    /// A player's library was shuffled.
    LibraryShuffle { seat_id: u8 },
    /// Turn 1 of game 1 has begun with `seat_id` as the active player: the
    /// seat that plays first. Reported once per match, from the game state's
    /// `turnInfo`.
    PlayedFirst { seat_id: u8 },
    /// After each full game state, for each seat with a library: the grpIds
    /// of its cards in hand, on the battlefield, in the graveyard, in exile
    /// and on the stack, and the top of its library when that card is known.
    ZoneStateSync {
        seat_id: u8,
        hand: Vec<u32>,
        battlefield: Vec<u32>,
        graveyard: Vec<u32>,
        exile: Vec<u32>,
        stack: Vec<u32>,
        top_of_library: Option<u32>,
    },
    /// The local MTGA user, from a log header line.
    LocalPlayerIdentified { user_id: String },
}

/// A game event with its strings and lists as sequences.
pub enum GameEventView {
    MatchStarted {
        match_id: Seq<char>,
        player1: MatchPlayerView,
        player2: MatchPlayerView,
        format: Seq<char>,
        timestamp: u64,
    },
    PlayerIdentified { player_seat_id: u8, opponent_seat_id: u8, opponent: MatchPlayerView },
    MatchEnded { match_id: Seq<char>, winning_team_id: u8, reason: Seq<char>, timestamp: u64 },
    DeckLoaded { cards: Seq<DeckCard>, commander: Option<u32> },
    ZoneChanged {
        instance_id: u32,
        card_id: u32,
        from_zone: Zone,
        to_zone: Zone,
        owner_seat_id: u8,
        face_down: bool,
    },
    DeckSnapshot { deck_id: Seq<char>, deck_name: Seq<char>, cards: Seq<DeckCard> },
    GameEnded { winning_team_id: u8, game_number: u8, sideboard_next: bool },
    DieRollResult { seat_id: u8, roll_value: u32 },
    CommanderRevealed { card_id: u32, seat_id: u8 },
    CommanderCast { card_id: u32, seat_id: u8, cast_count: u8, tax: u8 },
    CommanderReturned { card_id: u32, seat_id: u8 },
    LibraryShuffle { seat_id: u8 },
    PlayedFirst { seat_id: u8 },
    ZoneStateSync {
        seat_id: u8,
        hand: Seq<u32>,
        battlefield: Seq<u32>,
        graveyard: Seq<u32>,
        exile: Seq<u32>,
        stack: Seq<u32>,
        top_of_library: Option<u32>,
    },
    LocalPlayerIdentified { user_id: Seq<char> },
}

impl View for GameEvent {
    type V = GameEventView;

    open spec fn view(&self) -> GameEventView {
        match self {
            GameEvent::MatchStarted { match_id, player1, player2, format, timestamp } => {
                GameEventView::MatchStarted {
                    match_id: match_id@,
                    player1: player1@,
                    player2: player2@,
                    format: format@,
                    timestamp: *timestamp,
                }
            },
            GameEvent::PlayerIdentified { player_seat_id, opponent_seat_id, opponent } => {
                GameEventView::PlayerIdentified {
                    player_seat_id: *player_seat_id,
                    opponent_seat_id: *opponent_seat_id,
                    opponent: opponent@,
                }
            },
            GameEvent::MatchEnded { match_id, winning_team_id, reason, timestamp } => {
                GameEventView::MatchEnded {
                    match_id: match_id@,
                    winning_team_id: *winning_team_id,
                    reason: reason@,
                    timestamp: *timestamp,
                }
            },
            GameEvent::DeckLoaded { cards, commander } => {
                GameEventView::DeckLoaded { cards: cards@, commander: *commander }
            },
            GameEvent::ZoneChanged {
                instance_id,
                card_id,
                from_zone,
                to_zone,
                owner_seat_id,
                face_down,
            } => GameEventView::ZoneChanged {
                instance_id: *instance_id,
                card_id: *card_id,
                from_zone: *from_zone,
                to_zone: *to_zone,
                owner_seat_id: *owner_seat_id,
                face_down: *face_down,
            },
            GameEvent::DeckSnapshot { deck_id, deck_name, cards } => {
                GameEventView::DeckSnapshot {
                    deck_id: deck_id@,
                    deck_name: deck_name@,
                    cards: cards@,
                }
            },
            GameEvent::GameEnded { winning_team_id, game_number, sideboard_next } => {
                GameEventView::GameEnded {
                    winning_team_id: *winning_team_id,
                    game_number: *game_number,
                    sideboard_next: *sideboard_next,
                }
            },
            GameEvent::DieRollResult { seat_id, roll_value } => {
                GameEventView::DieRollResult { seat_id: *seat_id, roll_value: *roll_value }
            },
            GameEvent::CommanderRevealed { card_id, seat_id } => {
                GameEventView::CommanderRevealed { card_id: *card_id, seat_id: *seat_id }
            },
            GameEvent::CommanderCast { card_id, seat_id, cast_count, tax } => {
                GameEventView::CommanderCast {
                    card_id: *card_id,
                    seat_id: *seat_id,
                    cast_count: *cast_count,
                    tax: *tax,
                }
            },
            GameEvent::CommanderReturned { card_id, seat_id } => {
                GameEventView::CommanderReturned { card_id: *card_id, seat_id: *seat_id }
            },
            GameEvent::LibraryShuffle { seat_id } => GameEventView::LibraryShuffle {
                seat_id: *seat_id,
            },
            GameEvent::PlayedFirst { seat_id } => GameEventView::PlayedFirst { seat_id: *seat_id },
            GameEvent::ZoneStateSync {
                seat_id,
                hand,
                battlefield,
                graveyard,
                exile,
                stack,
                top_of_library,
            } => GameEventView::ZoneStateSync {
                seat_id: *seat_id,
                hand: hand@,
                battlefield: battlefield@,
                graveyard: graveyard@,
                exile: exile@,
                stack: stack@,
                top_of_library: *top_of_library,
            },
            GameEvent::LocalPlayerIdentified { user_id } => {
                GameEventView::LocalPlayerIdentified { user_id: user_id@ }
            },
        }
    }
}

/// The views of a list of events.
pub open spec fn events_view(es: Seq<GameEvent>) -> Seq<GameEventView> {
    es.map_values(|e: GameEvent| e@)
}

/// Appends `es` to `out`.
pub fn append_events(out: &mut Vec<GameEvent>, es: Vec<GameEvent>)
    ensures
        events_view(final(out)@) == events_view(old(out)@) + events_view(es@),
{
    let ghost before = out@;
    let ghost added = es@;
    let mut es = es;
    out.append(&mut es);
    assert(events_view(out@) =~= events_view(before) + events_view(added));
}

/// A copy of a list of plain values.
pub fn copy_vec<T: Copy>(v: &Vec<T>) -> (r: Vec<T>)
    ensures
        r@ == v@,
{
    let mut r: Vec<T> = Vec::new();
    let mut i: usize = 0;
    while i < v.len()
        invariant
            i <= v.len(),
            r@ == v@.subrange(0, i as int),
        decreases v.len() - i,
    {
        r.push(v[i]);
        i = i + 1;
        assert(r@ =~= v@.subrange(0, i as int));
    }
    assert(v@.subrange(0, v@.len() as int) =~= v@);
    r
}

impl GameEvent {
    pub fn copy(&self) -> (r: GameEvent)
        ensures
            r@ == self@,
    {
        match self {
            GameEvent::MatchStarted { match_id, player1, player2, format, timestamp } => {
                GameEvent::MatchStarted {
                    match_id: copy_string(match_id),
                    player1: player1.copy(),
                    player2: player2.copy(),
                    format: copy_string(format),
                    timestamp: *timestamp,
                }
            },
            GameEvent::PlayerIdentified { player_seat_id, opponent_seat_id, opponent } => {
                GameEvent::PlayerIdentified {
                    player_seat_id: *player_seat_id,
                    opponent_seat_id: *opponent_seat_id,
                    opponent: opponent.copy(),
                }
            },
            GameEvent::MatchEnded { match_id, winning_team_id, reason, timestamp } => {
                GameEvent::MatchEnded {
                    match_id: copy_string(match_id),
                    winning_team_id: *winning_team_id,
                    reason: copy_string(reason),
                    timestamp: *timestamp,
                }
            },
            GameEvent::DeckLoaded { cards, commander } => {
                GameEvent::DeckLoaded { cards: copy_vec(cards), commander: *commander }
            },
            GameEvent::ZoneChanged {
                instance_id,
                card_id,
                from_zone,
                to_zone,
                owner_seat_id,
                face_down,
            } => GameEvent::ZoneChanged {
                instance_id: *instance_id,
                card_id: *card_id,
                from_zone: *from_zone,
                to_zone: *to_zone,
                owner_seat_id: *owner_seat_id,
                face_down: *face_down,
            },
            GameEvent::DeckSnapshot { deck_id, deck_name, cards } => GameEvent::DeckSnapshot {
                deck_id: copy_string(deck_id),
                deck_name: copy_string(deck_name),
                cards: copy_vec(cards),
            },
            GameEvent::GameEnded { winning_team_id, game_number, sideboard_next } => {
                GameEvent::GameEnded {
                    winning_team_id: *winning_team_id,
                    game_number: *game_number,
                    sideboard_next: *sideboard_next,
                }
            },
            GameEvent::DieRollResult { seat_id, roll_value } => GameEvent::DieRollResult {
                seat_id: *seat_id,
                roll_value: *roll_value,
            },
            GameEvent::CommanderRevealed { card_id, seat_id } => GameEvent::CommanderRevealed {
                card_id: *card_id,
                seat_id: *seat_id,
            },
            GameEvent::CommanderCast { card_id, seat_id, cast_count, tax } => {
                GameEvent::CommanderCast {
                    card_id: *card_id,
                    seat_id: *seat_id,
                    cast_count: *cast_count,
                    tax: *tax,
                }
            },
            GameEvent::CommanderReturned { card_id, seat_id } => GameEvent::CommanderReturned {
                card_id: *card_id,
                seat_id: *seat_id,
            },
            GameEvent::LibraryShuffle { seat_id } => GameEvent::LibraryShuffle {
                seat_id: *seat_id,
            },
            GameEvent::PlayedFirst { seat_id } => GameEvent::PlayedFirst { seat_id: *seat_id },
            GameEvent::ZoneStateSync {
                seat_id,
                hand,
                battlefield,
                graveyard,
                exile,
                stack,
                top_of_library,
            } => GameEvent::ZoneStateSync {
                seat_id: *seat_id,
                hand: copy_vec(hand),
                battlefield: copy_vec(battlefield),
                graveyard: copy_vec(graveyard),
                exile: copy_vec(exile),
                stack: copy_vec(stack),
                top_of_library: *top_of_library,
            },
            GameEvent::LocalPlayerIdentified { user_id } => GameEvent::LocalPlayerIdentified {
                user_id: copy_string(user_id),
            },
        }
    }
}

} // verus!
