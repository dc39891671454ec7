//! The event sink's decisions: which stats-database writes each game event
//! calls for, which follow-up events it synthesizes, and what it remembers
//! of the current match. The caller performs the writes (`SinkAction`s) in
//! the order given and hands back what they need (the outcome of a user
//! switch, the matches still without a deck).

use vstd::prelude::*;
use std::collections::HashMap;
use crate::cards::CardDatabase;
use crate::events::{DeckCard, GameEvent, GameEventView, MatchPlayer, MatchPlayerView, Zone};
use crate::records::{DeckSnapshotRecord, DeckSnapshotView, counts_equal, snapshots_view};
use crate::text::{copy_string, str_eq};

verus! {

broadcast use vstd::std_specs::hash::group_hash_axioms;

/// Events buffered while no user is active, at most.
pub const PENDING_CAP: usize = 1024;

/// A write to the active user's stats database, a user switch, a replay of
/// buffered events, or an event to pass on to the frontend.
#[derive(Debug)]
pub enum SinkAction {
    /// Switch the stats database to this user; then report the outcome
    /// with `EventSink::user_switched`.
    SwitchUser { user_id: String },
    SetSetting { key: String, value: String },
    InsertMatch {
        match_id: String,
        format: String,
        player_seat_id: u8,
        player_team_id: u8,
        opponent_name: String,
        opponent_id: String,
        player1_user_id: String,
        player1_name: String,
        player2_user_id: String,
        player2_name: String,
        started_at: i64,
    },
    SetMatchDeckCards { match_id: String, cards: HashMap<u32, u32> },
    SetMatchDeck { match_id: String, deck_id: String, deck_name: String },
    FinishMatch { match_id: String, result: String, ended_at: i64 },
    InsertGame { match_id: String, game_number: u8, winning_team_id: u8 },
    SetDieRoll { match_id: String, won: bool },
    SetPlayedFirst { match_id: String, played_first: bool },
    RecordOpponentCard { match_id: String, game_number: u8, card_id: u32 },
    UpsertDeckSnapshot { deck_id: String, deck_name: String, cards: HashMap<u32, u32> },
    /// Label the recorded matches whose deck has these cards: read the
    /// matches still without a deck and apply `EventSink::retroactively_correlate`.
    CorrelateUncorrelated { deck_id: String, deck_name: String, cards: HashMap<u32, u32> },
    /// Process these events again, now that a user is active; their `Emit`s
    /// are not passed on (the frontend saw the events already).
    Replay { events: Vec<GameEvent> },
    /// Pass this synthesized event on to the frontend.
    Emit { event: GameEvent },
}

pub enum SinkActionView {
    SwitchUser { user_id: Seq<char> },
    SetSetting { key: Seq<char>, value: Seq<char> },
    InsertMatch {
        match_id: Seq<char>,
        format: Seq<char>,
        player_seat_id: u8,
        player_team_id: u8,
        opponent_name: Seq<char>,
        opponent_id: Seq<char>,
        player1_user_id: Seq<char>,
        player1_name: Seq<char>,
        player2_user_id: Seq<char>,
        player2_name: Seq<char>,
        started_at: i64,
    },
    SetMatchDeckCards { match_id: Seq<char>, cards: Map<u32, u32> },
    SetMatchDeck { match_id: Seq<char>, deck_id: Seq<char>, deck_name: Seq<char> },
    FinishMatch { match_id: Seq<char>, result: Seq<char>, ended_at: i64 },
    InsertGame { match_id: Seq<char>, game_number: u8, winning_team_id: u8 },
    SetDieRoll { match_id: Seq<char>, won: bool },
    SetPlayedFirst { match_id: Seq<char>, played_first: bool },
    RecordOpponentCard { match_id: Seq<char>, game_number: u8, card_id: u32 },
    UpsertDeckSnapshot { deck_id: Seq<char>, deck_name: Seq<char>, cards: Map<u32, u32> },
    CorrelateUncorrelated { deck_id: Seq<char>, deck_name: Seq<char>, cards: Map<u32, u32> },
    Replay { events: Seq<GameEventView> },
    Emit { event: GameEventView },
}

impl View for SinkAction {
    type V = SinkActionView;

    open spec fn view(&self) -> SinkActionView {
        match self {
            SinkAction::SwitchUser { user_id } => SinkActionView::SwitchUser { user_id: user_id@ },
            SinkAction::SetSetting { key, value } => SinkActionView::SetSetting {
                key: key@,
                value: value@,
            },
            SinkAction::InsertMatch {
                match_id,
                format,
                player_seat_id,
                player_team_id,
                opponent_name,
                opponent_id,
                player1_user_id,
                player1_name,
                player2_user_id,
                player2_name,
                started_at,
            } => SinkActionView::InsertMatch {
                match_id: match_id@,
                format: format@,
                player_seat_id: *player_seat_id,
                player_team_id: *player_team_id,
                opponent_name: opponent_name@,
                opponent_id: opponent_id@,
                player1_user_id: player1_user_id@,
                player1_name: player1_name@,
                player2_user_id: player2_user_id@,
                player2_name: player2_name@,
                started_at: *started_at,
            },
            SinkAction::SetMatchDeckCards { match_id, cards } => {
                SinkActionView::SetMatchDeckCards { match_id: match_id@, cards: cards@ }
            },
            SinkAction::SetMatchDeck { match_id, deck_id, deck_name } => {
                SinkActionView::SetMatchDeck {
                    match_id: match_id@,
                    deck_id: deck_id@,
                    deck_name: deck_name@,
                }
            },
            SinkAction::FinishMatch { match_id, result, ended_at } => {
                SinkActionView::FinishMatch {
                    match_id: match_id@,
                    result: result@,
                    ended_at: *ended_at,
                }
            },
            SinkAction::InsertGame { match_id, game_number, winning_team_id } => {
                SinkActionView::InsertGame {
                    match_id: match_id@,
                    game_number: *game_number,
                    winning_team_id: *winning_team_id,
                }
            },
            SinkAction::SetDieRoll { match_id, won } => SinkActionView::SetDieRoll {
                match_id: match_id@,
                won: *won,
            },
            SinkAction::SetPlayedFirst { match_id, played_first } => {
                SinkActionView::SetPlayedFirst { match_id: match_id@, played_first: *played_first }
            },
            SinkAction::RecordOpponentCard { match_id, game_number, card_id } => {
                SinkActionView::RecordOpponentCard {
                    match_id: match_id@,
                    game_number: *game_number,
                    card_id: *card_id,
                }
            },
            SinkAction::UpsertDeckSnapshot { deck_id, deck_name, cards } => {
                SinkActionView::UpsertDeckSnapshot {
                    deck_id: deck_id@,
                    deck_name: deck_name@,
                    cards: cards@,
                }
            },
            SinkAction::CorrelateUncorrelated { deck_id, deck_name, cards } => {
                SinkActionView::CorrelateUncorrelated {
                    deck_id: deck_id@,
                    deck_name: deck_name@,
                    cards: cards@,
                }
            },
            SinkAction::Replay { events } => SinkActionView::Replay {
                events: events@.map_values(|e: GameEvent| e@),
            },
            SinkAction::Emit { event } => SinkActionView::Emit { event: event@ },
        }
    }
}

pub open spec fn actions_view(a: Seq<SinkAction>) -> Seq<SinkActionView> {
    a.map_values(|x: SinkAction| x@)
}

/// What the sink remembers.
pub struct SinkModel {
    pub current_match_id: Option<Seq<char>>,
    pub player_seat_id: u8,
    pub player_team_id: u8,
    pub opponent_seat_id: u8,
    pub current_game_number: u8,
    pub die_rolls: Map<u8, u32>,
    pub deck_snapshots: Seq<DeckSnapshotView>,
    pub last_loaded_deck: Option<Map<u32, u32>>,
    pub last_loaded_commander: Option<u32>,
    pub deck_identified: bool,
    pub pending: Seq<GameEventView>,
}

impl SinkModel {
    pub open spec fn initial() -> SinkModel {
        SinkModel {
            current_match_id: None,
            player_seat_id: 0,
            player_team_id: 0,
            opponent_seat_id: 0,
            current_game_number: 1,
            die_rolls: Map::empty(),
            deck_snapshots: Seq::empty(),
            last_loaded_deck: None,
            last_loaded_commander: None,
            deck_identified: false,
            pending: Seq::empty(),
        }
    }
}

/// The composition of a deck list: grpId → quantity; a card listed twice
/// keeps its last quantity.
pub open spec fn counts_of(cards: Seq<DeckCard>) -> Map<u32, u32>
    decreases cards.len(),
{
    if cards.len() == 0 {
        Map::empty()
    } else {
        counts_of(cards.drop_last()).insert(cards.last().card_id, cards.last().quantity)
    }
}

/// The composition of a loaded deck: its cards, and the commander once
/// when it is not among them.
pub open spec fn loaded_deck(cards: Seq<DeckCard>, commander: Option<u32>) -> Map<u32, u32> {
    let d = counts_of(cards);
    match commander {
        Some(c) => if d.contains_key(c) {
            d
        } else {
            d.insert(c, 1)
        },
        None => d,
    }
}

/// The first snapshot at or after `i` whose cards are `deck`.
pub open spec fn matching_snapshot_from(snaps: Seq<DeckSnapshotView>, deck: Map<u32, u32>, i: int) -> Option<int>
    decreases snaps.len() - i,
{
    if i < 0 || i >= snaps.len() {
        None
    } else if snaps[i].cards == deck {
        Some(i)
    } else {
        matching_snapshot_from(snaps, deck, i + 1)
    }
}

/// The first snapshot at or after `i` whose id is `id`.
pub open spec fn snapshot_position_from(snaps: Seq<DeckSnapshotView>, id: Seq<char>, i: int) -> Option<int>
    decreases snaps.len() - i,
{
    if i < 0 || i >= snaps.len() {
        None
    } else if snaps[i].deck_id == id {
        Some(i)
    } else {
        snapshot_position_from(snaps, id, i + 1)
    }
}

/// The snapshots with `s` in place of the one with its id, or added.
pub open spec fn upsert_snapshot(snaps: Seq<DeckSnapshotView>, s: DeckSnapshotView) -> Seq<DeckSnapshotView> {
    match snapshot_position_from(snaps, s.deck_id, 0) {
        Some(k) => snaps.update(k, s),
        None => snaps.push(s),
    }
}

/// Labels the match with the snapshot whose cards are the loaded deck,
/// once per match.
pub open spec fn correlate(st: SinkModel, match_id: Seq<char>) -> (SinkModel, Seq<SinkActionView>) {
    if st.deck_identified {
        (st, Seq::empty())
    } else {
        match st.last_loaded_deck {
            Some(deck) => match matching_snapshot_from(st.deck_snapshots, deck, 0) {
                Some(k) => (
                    SinkModel { deck_identified: true, ..st },
                    seq![
                        SinkActionView::SetMatchDeck {
                            match_id,
                            deck_id: st.deck_snapshots[k].deck_id,
                            deck_name: st.deck_snapshots[k].deck_name,
                        },
                    ],
                ),
                None => (st, Seq::empty()),
            },
            None => (st, Seq::empty()),
        }
    }
}

/// `(me, opponent)`: the player whose user id is the saved player id,
/// else player1.
pub open spec fn sides(
    saved: Option<Seq<char>>,
    p1: MatchPlayerView,
    p2: MatchPlayerView,
) -> (MatchPlayerView, MatchPlayerView) {
    match saved {
        Some(id) => if p1.user_id == id {
            (p1, p2)
        } else if p2.user_id == id {
            (p2, p1)
        } else {
            (p1, p2)
        },
        None => (p1, p2),
    }
}

/// `x + 1` on a `u8`, wrapping as a release build does.
pub open spec fn next_game(x: u8) -> u8 {
    if x == 255 {
        0
    } else {
        (x + 1) as u8
    }
}

/// The pending events with `ev` added, the oldest dropped at the cap.
pub open spec fn buffered(pending: Seq<GameEventView>, ev: GameEventView) -> Seq<GameEventView> {
    (if pending.len() >= PENDING_CAP {
        pending.drop_first()
    } else {
        pending
    }).push(ev)
}

/// A match started: remember the seats and teams, record the match and its
/// deck, and synthesize `PlayerIdentified` (and our commander, if known).
pub open spec fn match_started(
    st: SinkModel,
    match_id: Seq<char>,
    p1: MatchPlayerView,
    p2: MatchPlayerView,
    format: Seq<char>,
    timestamp: u64,
    saved: Option<Seq<char>>,
) -> (SinkModel, Seq<SinkActionView>) {
    let (me, opp) = sides(saved, p1, p2);
    let s1 = SinkModel {
        current_match_id: Some(match_id),
        player_seat_id: me.seat_id,
        player_team_id: me.team_id,
        opponent_seat_id: opp.seat_id,
        current_game_number: 1,
        die_rolls: Map::empty(),
        deck_identified: false,
        ..st
    };
    let insert = SinkActionView::InsertMatch {
        match_id,
        format,
        player_seat_id: me.seat_id,
        player_team_id: me.team_id,
        opponent_name: opp.name,
        opponent_id: opp.user_id,
        player1_user_id: p1.user_id,
        player1_name: p1.name,
        player2_user_id: p2.user_id,
        player2_name: p2.name,
        started_at: timestamp as i64,
    };
    let a1 = match s1.last_loaded_deck {
        Some(d) => seq![insert, SinkActionView::SetMatchDeckCards { match_id, cards: d }],
        None => seq![insert],
    };
    let (s2, a2) = correlate(s1, match_id);
    let ident = SinkActionView::Emit {
        event: GameEventView::PlayerIdentified {
            player_seat_id: me.seat_id,
            opponent_seat_id: opp.seat_id,
            opponent: opp,
        },
    };
    let a3 = match s2.last_loaded_commander {
        Some(c) => seq![
            ident,
            SinkActionView::Emit {
                event: GameEventView::CommanderRevealed { card_id: c, seat_id: me.seat_id },
            },
        ],
        None => seq![ident],
    };
    (s2, a1 + a2 + a3)
}

/// What one event does while a user's database is active.
pub open spec fn event_step(
    st: SinkModel,
    ev: GameEventView,
    saved: Option<Seq<char>>,
    tokens: Set<u32>,
) -> (SinkModel, Seq<SinkActionView>) {
    match ev {
        GameEventView::MatchStarted { match_id, player1, player2, format, timestamp } => {
            match_started(st, match_id, player1, player2, format, timestamp, saved)
        },
        GameEventView::MatchEnded { match_id, winning_team_id, timestamp, .. } => {
            let result = if winning_team_id == st.player_team_id {
                "Win"@
            } else {
                "Loss"@
            };
            (
                SinkModel { current_match_id: None, ..st },
                seq![
                    SinkActionView::FinishMatch { match_id, result, ended_at: timestamp as i64 },
                ],
            )
        },
        GameEventView::GameEnded { winning_team_id, game_number, .. } => (
            SinkModel { current_game_number: next_game(game_number), ..st },
            match st.current_match_id {
                Some(mid) => seq![
                    SinkActionView::InsertGame { match_id: mid, game_number, winning_team_id },
                ],
                None => Seq::empty(),
            },
        ),
        GameEventView::DieRollResult { seat_id, roll_value } => {
            let rolls = st.die_rolls.insert(seat_id, roll_value);
            let s1 = SinkModel { die_rolls: rolls, ..st };
            match st.current_match_id {
                Some(mid) => if rolls.len() >= 2 {
                    let mine = if rolls.contains_key(st.player_seat_id) {
                        rolls[st.player_seat_id]
                    } else {
                        0
                    };
                    let theirs = if rolls.contains_key(st.opponent_seat_id) {
                        rolls[st.opponent_seat_id]
                    } else {
                        0
                    };
                    let won = mine > theirs;
                    (
                        s1,
                        seq![
                            SinkActionView::SetDieRoll { match_id: mid, won },
                            SinkActionView::SetPlayedFirst { match_id: mid, played_first: won },
                        ],
                    )
                } else {
                    (s1, Seq::empty())
                },
                None => (s1, Seq::empty()),
            }
        },
        GameEventView::ZoneChanged { card_id, to_zone, owner_seat_id, face_down, .. } => {
            match st.current_match_id {
                Some(mid) => if to_zone == Zone::Battlefield && owner_seat_id == st.opponent_seat_id
                    && !face_down && !tokens.contains(card_id) {
                    (
                        st,
                        seq![
                            SinkActionView::RecordOpponentCard {
                                match_id: mid,
                                game_number: st.current_game_number,
                                card_id,
                            },
                        ],
                    )
                } else {
                    (st, Seq::empty())
                },
                None => (st, Seq::empty()),
            }
        },
        GameEventView::DeckSnapshot { deck_id, deck_name, cards } => {
            let qty = counts_of(cards);
            (
                SinkModel {
                    deck_snapshots: upsert_snapshot(
                        st.deck_snapshots,
                        DeckSnapshotView { deck_id, deck_name, cards: qty },
                    ),
                    ..st
                },
                seq![
                    SinkActionView::UpsertDeckSnapshot { deck_id, deck_name, cards: qty },
                    SinkActionView::CorrelateUncorrelated { deck_id, deck_name, cards: qty },
                ],
            )
        },
        GameEventView::DeckLoaded { cards, commander } => {
            let deck = loaded_deck(cards, commander);
            let s1 = SinkModel {
                last_loaded_deck: Some(deck),
                last_loaded_commander: commander,
                ..st
            };
            match st.current_match_id {
                Some(mid) => {
                    let (s2, a2) = correlate(s1, mid);
                    (s2, seq![SinkActionView::SetMatchDeckCards { match_id: mid, cards: deck }] + a2)
                },
                None => (s1, Seq::empty()),
            }
        },
        GameEventView::PlayedFirst { seat_id } => match st.current_match_id {
            Some(mid) => (
                st,
                seq![
                    SinkActionView::SetPlayedFirst {
                        match_id: mid,
                        played_first: seat_id == st.player_seat_id,
                    },
                ],
            ),
            None => (st, Seq::empty()),
        },
        _ => (st, Seq::empty()),
    }
}

/// What one event does: a local-user identification asks for a user
/// switch; any other event is buffered while no user's database is active,
/// and handled by `event_step` otherwise.
pub open spec fn process_step(
    st: SinkModel,
    ev: GameEventView,
    has_db: bool,
    saved: Option<Seq<char>>,
    tokens: Set<u32>,
) -> (SinkModel, Seq<SinkActionView>) {
    match ev {
        GameEventView::LocalPlayerIdentified { user_id } => (
            st,
            seq![SinkActionView::SwitchUser { user_id }],
        ),
        _ => if !has_db {
            (SinkModel { pending: buffered(st.pending, ev), ..st }, Seq::empty())
        } else {
            event_step(st, ev, saved, tokens)
        },
    }
}

/// The snapshots with each of `news` upserted in turn: one per deck id, a
/// later snapshot of an id replacing an earlier one.
pub open spec fn upserts_fold(snaps: Seq<DeckSnapshotView>, news: Seq<DeckSnapshotView>) -> Seq<
    DeckSnapshotView,
>
    decreases news.len(),
{
    if news.len() == 0 {
        snaps
    } else {
        upsert_snapshot(upserts_fold(snaps, news.drop_last()), news.last())
    }
}

/// A switch to user `user_id` took place: load that user's snapshots (one
/// per deck id), remember the user as the player, forget the match in
/// progress, and replay what was buffered.
pub open spec fn switched_step(
    st: SinkModel,
    user_id: Seq<char>,
    snapshots: Seq<DeckSnapshotView>,
) -> (SinkModel, Seq<SinkActionView>) {
    (
        SinkModel {
            deck_snapshots: upserts_fold(Seq::empty(), snapshots),
            current_match_id: None,
            last_loaded_deck: None,
            last_loaded_commander: None,
            deck_identified: false,
            pending: Seq::empty(),
            ..st
        },
        seq![SinkActionView::SetSetting { key: "player_id"@, value: user_id }] + if st.pending.len()
            > 0 {
            seq![SinkActionView::Replay { events: st.pending }]
        } else {
            Seq::empty()
        },
    )
}

/// The uncorrelated matches (id, composition) whose composition is `cards`,
/// in order.
pub open spec fn matching_matches(
    candidates: Seq<(Seq<char>, Map<u32, u32>)>,
    cards: Map<u32, u32>,
) -> Seq<Seq<char>>
    decreases candidates.len(),
{
    if candidates.len() == 0 {
        Seq::empty()
    } else {
        let rest = matching_matches(candidates.drop_last(), cards);
        if candidates.last().1 == cards {
            rest.push(candidates.last().0)
        } else {
            rest
        }
    }
}

pub struct EventSink {
    current_match_id: Option<String>,
    player_seat_id: u8,
    player_team_id: u8,
    opponent_seat_id: u8,
    current_game_number: u8,
    die_rolls: HashMap<u8, u32>,
    deck_snapshots: Vec<DeckSnapshotRecord>,
    last_loaded_deck: Option<HashMap<u32, u32>>,
    last_loaded_commander: Option<u32>,
    deck_identified: bool,
    pending: Vec<GameEvent>,
}

pub open spec fn opt_string_view(o: Option<String>) -> Option<Seq<char>> {
    match o {
        Some(s) => Some(s@),
        None => None,
    }
}

pub open spec fn opt_counts_view(o: Option<HashMap<u32, u32>>) -> Option<Map<u32, u32>> {
    match o {
        Some(m) => Some(m@),
        None => None,
    }
}

impl View for EventSink {
    type V = SinkModel;

    closed spec fn view(&self) -> SinkModel {
        SinkModel {
            current_match_id: opt_string_view(self.current_match_id),
            player_seat_id: self.player_seat_id,
            player_team_id: self.player_team_id,
            opponent_seat_id: self.opponent_seat_id,
            current_game_number: self.current_game_number,
            die_rolls: self.die_rolls@,
            deck_snapshots: snapshots_view(self.deck_snapshots@),
            last_loaded_deck: opt_counts_view(self.last_loaded_deck),
            last_loaded_commander: self.last_loaded_commander,
            deck_identified: self.deck_identified,
            pending: self.pending@.map_values(|e: GameEvent| e@),
        }
    }
}

/// What the app knows when it hands the sink an event.
pub struct SinkContext {
    /// A user's stats database is active.
    pub has_db: bool,
    /// The active database's non-empty `player_id` setting.
    pub saved_player_id: Option<String>,
}

fn counts_from_cards(cards: &Vec<DeckCard>) -> (r: HashMap<u32, u32>)
    ensures
        r@ == counts_of(cards@),
{
    let mut m: HashMap<u32, u32> = HashMap::new();
    let mut i: usize = 0;
    while i < cards.len()
        invariant
            i <= cards.len(),
            m@ == counts_of(cards@.take(i as int)),
        decreases cards.len() - i,
    {
        proof {
            assert(cards@.take(i + 1).drop_last() =~= cards@.take(i as int));
        }
        m.insert(cards[i].card_id, cards[i].quantity);
        i = i + 1;
    }
    assert(cards@.take(cards@.len() as int) =~= cards@);
    m
}

fn no_actions() -> (r: Vec<SinkAction>)
    ensures
        actions_view(r@) == Seq::<SinkActionView>::empty(),
{
    let r: Vec<SinkAction> = Vec::new();
    assert(actions_view(r@) =~= Seq::<SinkActionView>::empty());
    r
}

fn push_action(out: &mut Vec<SinkAction>, a: SinkAction)
    ensures
        actions_view(final(out)@) == actions_view(old(out)@).push(a@),
{
    let ghost before = out@;
    out.push(a);
    assert(actions_view(out@) =~= actions_view(before).push(a@));
}

fn append_actions(out: &mut Vec<SinkAction>, more: Vec<SinkAction>)
    ensures
        actions_view(final(out)@) == actions_view(old(out)@) + actions_view(more@),
{
    let ghost before = out@;
    let ghost added = more@;
    let mut more = more;
    out.append(&mut more);
    assert(actions_view(out@) =~= actions_view(before) + actions_view(added));
}

fn copy_counts(m: &HashMap<u32, u32>) -> (r: HashMap<u32, u32>)
    ensures
        r@ == m@,
{
    m.clone()
}

impl EventSink {
    pub fn new() -> (r: EventSink)
        ensures
            r@ == SinkModel::initial(),
    {
        let r = EventSink {
            current_match_id: None,
            player_seat_id: 0,
            player_team_id: 0,
            opponent_seat_id: 0,
            current_game_number: 1,
            die_rolls: HashMap::new(),
            deck_snapshots: Vec::new(),
            last_loaded_deck: None,
            last_loaded_commander: None,
            deck_identified: false,
            pending: Vec::new(),
        };
        assert(r@.deck_snapshots =~= Seq::<DeckSnapshotView>::empty());
        assert(r@.pending =~= Seq::<GameEventView>::empty());
        r
    }

    fn matching_snapshot(&self, deck: &HashMap<u32, u32>) -> (r: Option<usize>)
        ensures
            match r {
                Some(k) => k < self.deck_snapshots.len() && matching_snapshot_from(
                    self@.deck_snapshots,
                    deck@,
                    0,
                ) == Some(k as int),
                None => matching_snapshot_from(self@.deck_snapshots, deck@, 0) is None,
            },
    {
        let mut i: usize = 0;
        while i < self.deck_snapshots.len()
            invariant
                i <= self.deck_snapshots.len(),
                matching_snapshot_from(self@.deck_snapshots, deck@, 0) == matching_snapshot_from(
                    self@.deck_snapshots,
                    deck@,
                    i as int,
                ),
            decreases self.deck_snapshots.len() - i,
        {
            if counts_equal(&self.deck_snapshots[i].cards, deck) {
                return Some(i);
            }
            i = i + 1;
        }
        None
    }

    fn try_correlate_deck(&mut self, match_id: &String) -> (r: Vec<SinkAction>)
        ensures
            (final(self)@, actions_view(r@)) == correlate(old(self)@, match_id@),
    {
        if self.deck_identified {
            return no_actions();
        }
        let found = match &self.last_loaded_deck {
            Some(deck) => self.matching_snapshot(deck),
            None => return no_actions(),
        };
        match found {
            Some(k) => {
                let a = SinkAction::SetMatchDeck {
                    match_id: copy_string(match_id),
                    deck_id: copy_string(&self.deck_snapshots[k].deck_id),
                    deck_name: copy_string(&self.deck_snapshots[k].deck_name),
                };
                self.deck_identified = true;
                let mut out = no_actions();
                push_action(&mut out, a);
                out
            },
            None => no_actions(),
        }
    }

    fn upsert_snapshot(&mut self, s: DeckSnapshotRecord)
        ensures
            final(self)@ == (SinkModel {
                deck_snapshots: upsert_snapshot(old(self)@.deck_snapshots, s@),
                ..old(self)@
            }),
    {
        let ghost before = self@;
        let mut i: usize = 0;
        while i < self.deck_snapshots.len()
            invariant
                i <= self.deck_snapshots.len(),
                self@ == before,
                before == old(self)@,
                snapshot_position_from(before.deck_snapshots, s@.deck_id, 0)
                    == snapshot_position_from(before.deck_snapshots, s@.deck_id, i as int),
            decreases self.deck_snapshots.len() - i,
        {
            if str_eq(self.deck_snapshots[i].deck_id.as_str(), s.deck_id.as_str()) {
                assert(before.deck_snapshots[i as int].deck_id == s@.deck_id);
                assert(snapshot_position_from(before.deck_snapshots, s@.deck_id, i as int) == Some(
                    i as int,
                ));
                let ghost sv = s@;
                self.deck_snapshots.set(i, s);
                assert(self@.deck_snapshots =~= before.deck_snapshots.update(i as int, sv));
                return;
            }
            i = i + 1;
        }
        let ghost sv = s@;
        self.deck_snapshots.push(s);
        assert(self@.deck_snapshots =~= before.deck_snapshots.push(sv));
    }

    fn on_match_started(
        &mut self,
        match_id: &String,
        player1: &MatchPlayer,
        player2: &MatchPlayer,
        format: &String,
        timestamp: u64,
        saved: &Option<String>,
    ) -> (r: Vec<SinkAction>)
        ensures
            (final(self)@, actions_view(r@)) == match_started(
                old(self)@,
                match_id@,
                player1@,
                player2@,
                format@,
                timestamp,
                opt_string_view(*saved),
            ),
    {
        let first_is_me = match saved {
            Some(id) => if str_eq(player1.user_id.as_str(), id.as_str()) {
                true
            } else if str_eq(player2.user_id.as_str(), id.as_str()) {
                false
            } else {
                true
            },
            None => true,
        };
        let (me, opp) = if first_is_me {
            (player1, player2)
        } else {
            (player2, player1)
        };
        assert((me@, opp@) == sides(opt_string_view(*saved), player1@, player2@));
        self.current_match_id = Some(copy_string(match_id));
        self.player_seat_id = me.seat_id;
        self.player_team_id = me.team_id;
        self.opponent_seat_id = opp.seat_id;
        self.current_game_number = 1;
        self.die_rolls = HashMap::new();
        self.deck_identified = false;
        let mut out = no_actions();
        push_action(
            &mut out,
            SinkAction::InsertMatch {
                match_id: copy_string(match_id),
                format: copy_string(format),
                player_seat_id: me.seat_id,
                player_team_id: me.team_id,
                opponent_name: copy_string(&opp.name),
                opponent_id: copy_string(&opp.user_id),
                player1_user_id: copy_string(&player1.user_id),
                player1_name: copy_string(&player1.name),
                player2_user_id: copy_string(&player2.user_id),
                player2_name: copy_string(&player2.name),
                started_at: timestamp as i64,
            },
        );
        match &self.last_loaded_deck {
            Some(d) => {
                let cards = copy_counts(d);
                push_action(
                    &mut out,
                    SinkAction::SetMatchDeckCards { match_id: copy_string(match_id), cards },
                );
            },
            None => {},
        }
        let more = self.try_correlate_deck(match_id);
        append_actions(&mut out, more);
        push_action(
            &mut out,
            SinkAction::Emit {
                event: GameEvent::PlayerIdentified {
                    player_seat_id: me.seat_id,
                    opponent_seat_id: opp.seat_id,
                    opponent: opp.copy(),
                },
            },
        );
        match self.last_loaded_commander {
            Some(c) => {
                push_action(
                    &mut out,
                    SinkAction::Emit {
                        event: GameEvent::CommanderRevealed { card_id: c, seat_id: me.seat_id },
                    },
                );
            },
            None => {},
        }
        proof {
            let ghost s1 = SinkModel {
                current_match_id: Some(match_id@),
                player_seat_id: me.seat_id,
                player_team_id: me.team_id,
                opponent_seat_id: opp.seat_id,
                current_game_number: 1,
                die_rolls: Map::empty(),
                deck_identified: false,
                ..old(self)@
            };
            assert(s1.last_loaded_deck == old(self)@.last_loaded_deck);
        }
        out
    }

    fn on_event(&mut self, event: &GameEvent, saved: &Option<String>, cards: &CardDatabase) -> (r: Vec<SinkAction>)
        ensures
            (final(self)@, actions_view(r@)) == event_step(
                old(self)@,
                event@,
                opt_string_view(*saved),
                cards@.tokens,
            ),
    {
        match event {
            GameEvent::MatchStarted { match_id, player1, player2, format, timestamp } => {
                self.on_match_started(match_id, player1, player2, format, *timestamp, saved)
            },
            GameEvent::MatchEnded { match_id, winning_team_id, timestamp, .. } => {
                let result = if *winning_team_id == self.player_team_id {
                    "Win".to_owned()
                } else {
                    "Loss".to_owned()
                };
                self.current_match_id = None;
                let mut out = no_actions();
                push_action(
                    &mut out,
                    SinkAction::FinishMatch {
                        match_id: copy_string(match_id),
                        result,
                        ended_at: *timestamp as i64,
                    },
                );
                out
            },
            GameEvent::GameEnded { winning_team_id, game_number, .. } => {
                let mut out = no_actions();
                match &self.current_match_id {
                    Some(mid) => {
                        push_action(
                            &mut out,
                            SinkAction::InsertGame {
                                match_id: copy_string(mid),
                                game_number: *game_number,
                                winning_team_id: *winning_team_id,
                            },
                        );
                    },
                    None => {},
                }
                self.current_game_number = if *game_number == 255 {
                    0
                } else {
                    *game_number + 1
                };
                out
            },
            GameEvent::DieRollResult { seat_id, roll_value } => {
                self.die_rolls.insert(*seat_id, *roll_value);
                let mut out = no_actions();
                if self.die_rolls.len() >= 2 {
                    match &self.current_match_id {
                        Some(mid) => {
                            let mine = match self.die_rolls.get(&self.player_seat_id) {
                                Some(r) => *r,
                                None => 0,
                            };
                            let theirs = match self.die_rolls.get(&self.opponent_seat_id) {
                                Some(r) => *r,
                                None => 0,
                            };
                            let won = mine > theirs;
                            push_action(
                                &mut out,
                                SinkAction::SetDieRoll { match_id: copy_string(mid), won },
                            );
                            push_action(
                                &mut out,
                                SinkAction::SetPlayedFirst {
                                    match_id: copy_string(mid),
                                    played_first: won,
                                },
                            );
                        },
                        None => {},
                    }
                }
                out
            },
            GameEvent::ZoneChanged { card_id, to_zone, owner_seat_id, face_down, .. } => {
                let mut out = no_actions();
                match &self.current_match_id {
                    Some(mid) => {
                        if matches!(to_zone, Zone::Battlefield) && *owner_seat_id
                            == self.opponent_seat_id && !*face_down && !cards.is_token(*card_id) {
                            push_action(
                                &mut out,
                                SinkAction::RecordOpponentCard {
                                    match_id: copy_string(mid),
                                    game_number: self.current_game_number,
                                    card_id: *card_id,
                                },
                            );
                        }
                    },
                    None => {},
                }
                out
            },
            GameEvent::DeckSnapshot { deck_id, deck_name, cards } => {
                let qty = counts_from_cards(cards);
                let mut out = no_actions();
                push_action(
                    &mut out,
                    SinkAction::UpsertDeckSnapshot {
                        deck_id: copy_string(deck_id),
                        deck_name: copy_string(deck_name),
                        cards: copy_counts(&qty),
                    },
                );
                push_action(
                    &mut out,
                    SinkAction::CorrelateUncorrelated {
                        deck_id: copy_string(deck_id),
                        deck_name: copy_string(deck_name),
                        cards: copy_counts(&qty),
                    },
                );
                self.upsert_snapshot(
                    DeckSnapshotRecord {
                        deck_id: copy_string(deck_id),
                        deck_name: copy_string(deck_name),
                        cards: qty,
                    },
                );
                out
            },
            GameEvent::DeckLoaded { cards, commander } => {
                let mut deck = counts_from_cards(cards);
                match commander {
                    Some(c) => {
                        if !deck.contains_key(c) {
                            deck.insert(*c, 1);
                        }
                    },
                    None => {},
                }
                self.last_loaded_deck = Some(copy_counts(&deck));
                self.last_loaded_commander = *commander;
                match &self.current_match_id {
                    Some(mid) => {
                        let mid = copy_string(mid);
                        let mut out = no_actions();
                        push_action(
                            &mut out,
                            SinkAction::SetMatchDeckCards { match_id: copy_string(&mid), cards: deck },
                        );
                        let more = self.try_correlate_deck(&mid);
                        append_actions(&mut out, more);
                        out
                    },
                    None => no_actions(),
                }
            },
            GameEvent::PlayedFirst { seat_id } => {
                let mut out = no_actions();
                match &self.current_match_id {
                    Some(mid) => {
                        push_action(
                            &mut out,
                            SinkAction::SetPlayedFirst {
                                match_id: copy_string(mid),
                                played_first: *seat_id == self.player_seat_id,
                            },
                        );
                    },
                    None => {},
                }
                out
            },
            _ => no_actions(),
        }
    }

    /// The actions one event calls for. `LocalPlayerIdentified` asks for a
    /// user switch; any other event is buffered while no user's database is
    /// active (the oldest dropped beyond `PENDING_CAP`).
    pub fn process(&mut self, event: &GameEvent, ctx: &SinkContext, cards: &CardDatabase) -> (r: Vec<SinkAction>)
        ensures
            (final(self)@, actions_view(r@)) == process_step(
                old(self)@,
                event@,
                ctx.has_db,
                opt_string_view(ctx.saved_player_id),
                cards@.tokens,
            ),
    {
        match event {
            GameEvent::LocalPlayerIdentified { user_id } => {
                let mut out = no_actions();
                push_action(&mut out, SinkAction::SwitchUser { user_id: copy_string(user_id) });
                return out;
            },
            _ => {},
        }
        if !ctx.has_db {
            let ghost before = self@;
            if self.pending.len() >= PENDING_CAP {
                self.pending.remove(0);
            }
            let copy = event.copy();
            self.pending.push(copy);
            assert(self@.pending =~= buffered(before.pending, event@));
            return no_actions();
        }
        self.on_event(event, &ctx.saved_player_id, cards)
    }

    /// The switch to user `user_id` took place; `snapshots` are that user's
    /// deck snapshots.
    pub fn user_switched(&mut self, user_id: &str, snapshots: Vec<DeckSnapshotRecord>) -> (r: Vec<
        SinkAction,
    >)
        ensures
            (final(self)@, actions_view(r@)) == switched_step(
                old(self)@,
                user_id@,
                snapshots_view(snapshots@),
            ),
    {
        let ghost old_pending = self@.pending;
        self.deck_snapshots = Vec::new();
        let ghost sv = snapshots_view(snapshots@);
        let ghost s0 = self@;
        assert(s0.deck_snapshots =~= Seq::<DeckSnapshotView>::empty());
        let mut i: usize = 0;
        while i < snapshots.len()
            invariant
                i <= snapshots.len(),
                sv == snapshots_view(snapshots@),
                self@ == (SinkModel {
                    deck_snapshots: upserts_fold(Seq::empty(), sv.take(i as int)),
                    ..s0
                }),
            decreases snapshots.len() - i,
        {
            proof {
                assert(sv.take(i + 1).drop_last() =~= sv.take(i as int));
                assert(sv.take(i + 1).last() == snapshots@[i as int]@);
            }
            self.upsert_snapshot(snapshots[i].copy());
            i = i + 1;
        }
        assert(sv.take(sv.len() as int) =~= sv);
        self.current_match_id = None;
        self.last_loaded_deck = None;
        self.last_loaded_commander = None;
        self.deck_identified = false;
        let mut pending: Vec<GameEvent> = Vec::new();
        std::mem::swap(&mut pending, &mut self.pending);
        assert(self@.pending =~= Seq::<GameEventView>::empty());
        let mut out = no_actions();
        push_action(
            &mut out,
            SinkAction::SetSetting { key: "player_id".to_owned(), value: user_id.to_owned() },
        );
        if pending.len() > 0 {
            push_action(&mut out, SinkAction::Replay { events: pending });
        }
        out
    }

    /// The recorded matches to label with a deck snapshot: among those still
    /// without a deck (id, composition), each whose composition is the
    /// snapshot's cards gets a `SetMatchDeck`, in order.
    pub fn retroactively_correlate(
        &self,
        deck_id: &str,
        deck_name: &str,
        snapshot_cards: &HashMap<u32, u32>,
        candidates: &Vec<(String, HashMap<u32, u32>)>,
    ) -> (r: Vec<SinkAction>)
        ensures
            actions_view(r@) == matching_matches(
                candidates@.map_values(|c: (String, HashMap<u32, u32>)| (c.0@, c.1@)),
                snapshot_cards@,
            ).map_values(
                |m: Seq<char>| SinkActionView::SetMatchDeck {
                    match_id: m,
                    deck_id: deck_id@,
                    deck_name: deck_name@,
                },
            ),
    {
        let ghost cv = candidates@.map_values(|c: (String, HashMap<u32, u32>)| (c.0@, c.1@));
        let ghost f = |m: Seq<char>| SinkActionView::SetMatchDeck {
            match_id: m,
            deck_id: deck_id@,
            deck_name: deck_name@,
        };
        let mut out = no_actions();
        let mut i: usize = 0;
        while i < candidates.len()
            invariant
                i <= candidates.len(),
                cv == candidates@.map_values(|c: (String, HashMap<u32, u32>)| (c.0@, c.1@)),
                f == (|m: Seq<char>| SinkActionView::SetMatchDeck {
                    match_id: m,
                    deck_id: deck_id@,
                    deck_name: deck_name@,
                }),
                actions_view(out@) == matching_matches(cv.take(i as int), snapshot_cards@).map_values(f),
            decreases candidates.len() - i,
        {
            proof {
                assert(cv.take(i + 1).drop_last() =~= cv.take(i as int));
            }
            let ghost prev = matching_matches(cv.take(i as int), snapshot_cards@);
            let c = &candidates[i];
            if counts_equal(&c.1, snapshot_cards) {
                push_action(
                    &mut out,
                    SinkAction::SetMatchDeck {
                        match_id: copy_string(&c.0),
                        deck_id: deck_id.to_owned(),
                        deck_name: deck_name.to_owned(),
                    },
                );
                assert(prev.push(c.0@).map_values(f) =~= prev.map_values(f).push(f(c.0@)));
            }
            i = i + 1;
        }
        assert(cv.take(cv.len() as int) =~= cv);
        out
    }
}

} // verus!

verus! {

/// Law: the buffer of events held while no user is active never grows
/// beyond `PENDING_CAP`; an event buffered is the newest one held.
pub proof fn law_pending_bounded(
    st: SinkModel,
    ev: GameEventView,
    has_db: bool,
    saved: Option<Seq<char>>,
    tokens: Set<u32>,
)
    requires
        st.pending.len() <= PENDING_CAP,
    ensures
        ({
            let (s1, acts) = process_step(st, ev, has_db, saved, tokens);
            &&& s1.pending.len() <= PENDING_CAP
            &&& (!has_db && !(ev is LocalPlayerIdentified)) ==> {
                &&& s1.pending.last() == ev
                &&& acts.len() == 0
            }
        }),
{
}

/// Law: a local-user identification only asks for a switch to that user,
/// whether or not a user is active, and changes nothing else.
pub proof fn law_identification_switches(
    st: SinkModel,
    user_id: Seq<char>,
    has_db: bool,
    saved: Option<Seq<char>>,
    tokens: Set<u32>,
)
    ensures
        process_step(st, GameEventView::LocalPlayerIdentified { user_id }, has_db, saved, tokens)
            == (st, seq![SinkActionView::SwitchUser { user_id }]),
{
}

/// Law: after a switch nothing stays buffered, and what was buffered is
/// replayed, in order, right after the new player id is saved.
pub proof fn law_switch_replays_pending(
    st: SinkModel,
    user_id: Seq<char>,
    snapshots: Seq<DeckSnapshotView>,
)
    ensures
        ({
            let (s1, acts) = switched_step(st, user_id, snapshots);
            &&& s1.pending.len() == 0
            &&& s1.deck_snapshots == upserts_fold(Seq::empty(), snapshots)
            &&& s1.current_match_id is None
            &&& acts[0] == SinkActionView::SetSetting { key: "player_id"@, value: user_id }
            &&& st.pending.len() > 0 ==> acts.len() == 2 && acts[1]
                == SinkActionView::Replay { events: st.pending }
            &&& st.pending.len() == 0 ==> acts.len() == 1
        }),
{
}

/// Law: a match ends in a win exactly when the winning team is ours, and no
/// match is current afterwards.
pub proof fn law_match_result(
    st: SinkModel,
    match_id: Seq<char>,
    winning_team_id: u8,
    reason: Seq<char>,
    timestamp: u64,
    saved: Option<Seq<char>>,
    tokens: Set<u32>,
)
    ensures
        ({
            let ev = GameEventView::MatchEnded { match_id, winning_team_id, reason, timestamp };
            let (s1, acts) = event_step(st, ev, saved, tokens);
            &&& s1.current_match_id is None
            &&& acts.len() == 1
            &&& acts[0] is FinishMatch
            &&& acts[0]->FinishMatch_match_id == match_id
            &&& (acts[0]->result == "Win"@) == (winning_team_id == st.player_team_id)
        }),
{
    reveal_strlit("Win");
    reveal_strlit("Loss");
    assert("Win"@.len() != "Loss"@.len());
}

/// Law: a match is labelled with a deck at most once, only with a snapshot
/// whose cards are exactly the loaded deck, and whenever such a snapshot
/// is known and the match has no deck yet.
pub proof fn law_correlation_sound_and_once(st: SinkModel, match_id: Seq<char>)
    ensures
        ({
            let (s1, acts) = correlate(st, match_id);
            &&& acts.len() <= 1
            &&& acts.len() == 1 ==> {
                &&& !st.deck_identified
                &&& s1.deck_identified
                &&& st.last_loaded_deck is Some
                &&& exists|k: int|
                    0 <= k < st.deck_snapshots.len() && #[trigger] st.deck_snapshots[k].cards
                        == st.last_loaded_deck->0 && acts[0] == SinkActionView::SetMatchDeck {
                        match_id,
                        deck_id: st.deck_snapshots[k].deck_id,
                        deck_name: st.deck_snapshots[k].deck_name,
                    }
                &&& correlate(s1, match_id).1.len() == 0
            }
            &&& (!st.deck_identified && st.last_loaded_deck is Some && exists|k: int|
                0 <= k < st.deck_snapshots.len() && #[trigger] st.deck_snapshots[k].cards
                    == st.last_loaded_deck->0) ==> acts.len() == 1
        }),
{
    match st.last_loaded_deck {
        Some(deck) => {
            lemma_matching_snapshot_from(st.deck_snapshots, deck, 0);
        },
        None => {},
    }
}

proof fn lemma_matching_snapshot_from(snaps: Seq<DeckSnapshotView>, deck: Map<u32, u32>, i: int)
    requires
        0 <= i,
    ensures
        matching_snapshot_from(snaps, deck, i) matches Some(k) ==> i <= k < snaps.len()
            && snaps[k].cards == deck,
        matching_snapshot_from(snaps, deck, i) is None ==> forall|j: int|
            i <= j < snaps.len() ==> snaps[j].cards != deck,
    decreases snaps.len() - i,
{
    if i < snaps.len() && snaps[i].cards != deck {
        lemma_matching_snapshot_from(snaps, deck, i + 1);
    }
}

/// Law: a match start names us and the opponent to the frontend: the first
/// event passed on is `PlayerIdentified`, with our seat taken from the
/// player whose id is the saved player id (player1 when neither is).
pub proof fn law_match_start_identifies_players(
    st: SinkModel,
    match_id: Seq<char>,
    p1: MatchPlayerView,
    p2: MatchPlayerView,
    format: Seq<char>,
    timestamp: u64,
    saved: Option<Seq<char>>,
)
    ensures
        ({
            let (s1, acts) = match_started(st, match_id, p1, p2, format, timestamp, saved);
            let (me, opp) = sides(saved, p1, p2);
            &&& s1.current_match_id == Some(match_id)
            &&& s1.current_game_number == 1
            &&& s1.player_seat_id == me.seat_id
            &&& s1.opponent_seat_id == opp.seat_id
            &&& acts[0] is InsertMatch
            &&& exists|i: int|
                0 <= i < acts.len() && #[trigger] acts[i] == SinkActionView::Emit {
                    event: GameEventView::PlayerIdentified {
                        player_seat_id: me.seat_id,
                        opponent_seat_id: opp.seat_id,
                        opponent: opp,
                    },
                }
            &&& (saved == Some(p2.user_id) && p1.user_id != p2.user_id) ==> me == p2
            &&& saved != Some(p2.user_id) ==> me == p1
        }),
{
    let (me, opp) = sides(saved, p1, p2);
    let s1 = SinkModel {
        current_match_id: Some(match_id),
        player_seat_id: me.seat_id,
        player_team_id: me.team_id,
        opponent_seat_id: opp.seat_id,
        current_game_number: 1,
        die_rolls: Map::empty(),
        deck_identified: false,
        ..st
    };
    let (s2, a2) = correlate(s1, match_id);
    let (r, acts) = match_started(st, match_id, p1, p2, format, timestamp, saved);
    let a1len: int = if s1.last_loaded_deck is Some { 2 } else { 1 };
    assert(acts[a1len + a2.len()] == SinkActionView::Emit {
        event: GameEventView::PlayerIdentified {
            player_seat_id: me.seat_id,
            opponent_seat_id: opp.seat_id,
            opponent: opp,
        },
    });
}

/// No two snapshots share a deck id.
pub open spec fn distinct_snapshot_ids(snaps: Seq<DeckSnapshotView>) -> bool {
    forall|i: int, j: int|
        0 <= i < j < snaps.len() ==> (#[trigger] snaps[i]).deck_id != (#[trigger] snaps[j]).deck_id
}

proof fn lemma_snapshot_position_from(snaps: Seq<DeckSnapshotView>, id: Seq<char>, i: int)
    requires
        0 <= i,
    ensures
        match snapshot_position_from(snaps, id, i) {
            Some(k) => i <= k < snaps.len() && snaps[k].deck_id == id,
            None => forall|j: int| i <= j < snaps.len() ==> snaps[j].deck_id != id,
        },
    decreases snaps.len() - i,
{
    if i < snaps.len() && snaps[i].deck_id != id {
        lemma_snapshot_position_from(snaps, id, i + 1);
    }
}

/// Law: the sink keeps one snapshot per deck id: a snapshot replaces the
/// one with its id, or is added when there is none, and the others stay.
pub proof fn law_upsert_keeps_one_snapshot_per_deck(
    snaps: Seq<DeckSnapshotView>,
    s: DeckSnapshotView,
)
    requires
        distinct_snapshot_ids(snaps),
    ensures
        distinct_snapshot_ids(upsert_snapshot(snaps, s)),
        upsert_snapshot(snaps, s).contains(s),
        forall|i: int|
            0 <= i < snaps.len() && (#[trigger] snaps[i]).deck_id != s.deck_id
                ==> upsert_snapshot(snaps, s).contains(snaps[i]),
{
    lemma_snapshot_position_from(snaps, s.deck_id, 0);
    let r = upsert_snapshot(snaps, s);
    match snapshot_position_from(snaps, s.deck_id, 0) {
        Some(k) => {
            assert(r[k] == s);
            assert forall|i: int|
                0 <= i < snaps.len() && (#[trigger] snaps[i]).deck_id != s.deck_id implies r.contains(
                snaps[i],
            ) by {
                assert(r[i] == snaps[i]);
            }
        },
        None => {
            assert(r[snaps.len() as int] == s);
            assert forall|i: int, j: int| 0 <= i < j < r.len() implies (#[trigger] r[i]).deck_id
                != (#[trigger] r[j]).deck_id by {
                assert(r[i] == snaps[i]);
                if j < snaps.len() {
                    assert(r[j] == snaps[j]);
                }
            }
            assert forall|i: int|
                0 <= i < snaps.len() && (#[trigger] snaps[i]).deck_id != s.deck_id implies r.contains(
                snaps[i],
            ) by {
                assert(r[i] == snaps[i]);
            }
        },
    }
}

/// Law: retroactive correlation labels exactly the candidate matches whose
/// stored composition is the snapshot's cards.
pub proof fn law_retroactive_labels_exactly_matching(
    candidates: Seq<(Seq<char>, Map<u32, u32>)>,
    cards: Map<u32, u32>,
    m: Seq<char>,
)
    ensures
        matching_matches(candidates, cards).contains(m) <==> exists|i: int|
            0 <= i < candidates.len() && #[trigger] candidates[i] == (m, cards),
    decreases candidates.len(),
{
    if candidates.len() > 0 {
        let prev = candidates.drop_last();
        law_retroactive_labels_exactly_matching(prev, cards, m);
        let rest = matching_matches(prev, cards);
        let last = candidates.last();
        if exists|i: int| 0 <= i < prev.len() && #[trigger] prev[i] == (m, cards) {
            let i = choose|i: int| 0 <= i < prev.len() && #[trigger] prev[i] == (m, cards);
            assert(candidates[i] == prev[i]);
        }
        if exists|i: int| 0 <= i < candidates.len() && #[trigger] candidates[i] == (m, cards) {
            let i = choose|i: int| 0 <= i < candidates.len() && #[trigger] candidates[i] == (m, cards);
            if i < prev.len() {
                assert(prev[i] == candidates[i]);
            } else {
                assert(last == (m, cards));
                assert(rest.push(m)[rest.len() as int] == m);
            }
        }
        if last.1 == cards {
            if rest.push(last.0).contains(m) {
                let j = choose|j: int| 0 <= j < rest.push(last.0).len() && rest.push(last.0)[j] == m;
                if j < rest.len() {
                    assert(rest[j] == m);
                } else {
                    assert(candidates[candidates.len() - 1] == (m, cards));
                }
            }
            if rest.contains(m) {
                let j = choose|j: int| 0 <= j < rest.len() && rest[j] == m;
                assert(rest.push(last.0)[j] == m);
            }
        }
    }
}

/// Law: once both players' die rolls are in during a match, we won the roll
/// (and are taken to play first) exactly when our roll is the higher one.
pub proof fn law_die_roll_decides_play_order(
    st: SinkModel,
    mid: Seq<char>,
    ours: u32,
    theirs: u32,
    saved: Option<Seq<char>>,
    tokens: Set<u32>,
)
    requires
        st.current_match_id == Some(mid),
        st.player_seat_id != st.opponent_seat_id,
        st.die_rolls == Map::<u8, u32>::empty().insert(st.opponent_seat_id, theirs),
    ensures
        event_step(
            st,
            GameEventView::DieRollResult { seat_id: st.player_seat_id, roll_value: ours },
            saved,
            tokens,
        ).1 == seq![
            SinkActionView::SetDieRoll { match_id: mid, won: ours > theirs },
            SinkActionView::SetPlayedFirst { match_id: mid, played_first: ours > theirs },
        ],
{
    let rolls = st.die_rolls.insert(st.player_seat_id, ours);
    assert(rolls.len() == 2) by {
        assert(st.die_rolls.dom() =~= Set::<u8>::empty().insert(st.opponent_seat_id));
        assert(rolls.dom() =~= st.die_rolls.dom().insert(st.player_seat_id));
    }
}

/// The state and actions after a sequence of events, one `process_step`
/// each, with the same database context throughout.
pub open spec fn process_fold(
    st: SinkModel,
    es: Seq<GameEventView>,
    has_db: bool,
    saved: Option<Seq<char>>,
    tokens: Set<u32>,
) -> (SinkModel, Seq<SinkActionView>)
    decreases es.len(),
{
    if es.len() == 0 {
        (st, Seq::empty())
    } else {
        let (s1, a1) = process_fold(st, es.drop_last(), has_db, saved, tokens);
        let (s2, a2) = process_step(s1, es.last(), has_db, saved, tokens);
        (s2, a1 + a2)
    }
}

/// The latest `PENDING_CAP` events of `es`, in order.
pub open spec fn latest_events(es: Seq<GameEventView>) -> Seq<GameEventView> {
    if es.len() > PENDING_CAP {
        es.skip(es.len() - PENDING_CAP)
    } else {
        es
    }
}

/// Law: while no user is active, events (other than a local-user
/// identification) only wait: they give no action and change nothing but
/// the buffer, which then holds exactly the latest `PENDING_CAP` of what it
/// held and of the new events, in order. The switch to a user then leaves
/// the sink as a switch without buffered events would, and hands the
/// buffered events back, in order, to be processed for that user.
pub proof fn law_buffered_then_replayed(
    st: SinkModel,
    es: Seq<GameEventView>,
    user_id: Seq<char>,
    snapshots: Seq<DeckSnapshotView>,
    saved: Option<Seq<char>>,
    tokens: Set<u32>,
)
    requires
        st.pending.len() <= PENDING_CAP,
        forall|i: int| 0 <= i < es.len() ==> !(#[trigger] es[i] is LocalPlayerIdentified),
    ensures
        ({
            let (s1, acts) = process_fold(st, es, false, saved, tokens);
            let (s2, acts2) = switched_step(s1, user_id, snapshots);
            let kept = latest_events(st.pending + es);
            &&& acts.len() == 0
            &&& s1 == (SinkModel { pending: kept, ..st })
            &&& kept.len() <= PENDING_CAP
            &&& s2 == switched_step(st, user_id, snapshots).0
            &&& acts2 == seq![SinkActionView::SetSetting { key: "player_id"@, value: user_id }] + (
            if kept.len() > 0 {
                seq![SinkActionView::Replay { events: kept }]
            } else {
                Seq::empty()
            })
        }),
    decreases es.len(),
{
    if es.len() > 0 {
        let prev = es.drop_last();
        assert forall|i: int| 0 <= i < prev.len() implies !(#[trigger] prev[i] is LocalPlayerIdentified) by {
            assert(prev[i] == es[i]);
        }
        law_buffered_then_replayed(st, prev, user_id, snapshots, saved, tokens);
        let (p1, pa) = process_fold(st, prev, false, saved, tokens);
        let e = es.last();
        assert(!(es[es.len() - 1] is LocalPlayerIdentified));
        let all_prev = st.pending + prev;
        let all = st.pending + es;
        assert(all =~= all_prev.push(e));
        let p = latest_events(all_prev);
        assert(p1.pending == p);
        if all_prev.len() < PENDING_CAP {
            assert(p =~= all_prev);
            assert(buffered(p, e) =~= all);
            assert(latest_events(all) =~= all);
        } else {
            assert(p.len() == PENDING_CAP);
            assert(buffered(p, e) =~= latest_events(all));
        }
        let (s1, acts) = process_fold(st, es, false, saved, tokens);
        assert(acts =~= pa + Seq::<SinkActionView>::empty());
        assert(s1 == (SinkModel { pending: latest_events(all), ..st }));
    } else {
        assert(st.pending + es =~= st.pending);
        assert(latest_events(st.pending + es) =~= st.pending);
    }
    let (s1, acts) = process_fold(st, es, false, saved, tokens);
    assert(switched_step(s1, user_id, snapshots).0 == switched_step(st, user_id, snapshots).0);
}

proof fn lemma_upserts_fold_distinct(snaps: Seq<DeckSnapshotView>, news: Seq<DeckSnapshotView>)
    requires
        distinct_snapshot_ids(snaps),
    ensures
        distinct_snapshot_ids(upserts_fold(snaps, news)),
    decreases news.len(),
{
    if news.len() > 0 {
        lemma_upserts_fold_distinct(snaps, news.drop_last());
        law_upsert_keeps_one_snapshot_per_deck(upserts_fold(snaps, news.drop_last()), news.last());
    }
}

/// Law: the sink never holds two snapshots with one deck id: a switch
/// loads one per id, and no event adds a second.
pub proof fn law_snapshot_ids_stay_distinct(
    st: SinkModel,
    ev: GameEventView,
    has_db: bool,
    saved: Option<Seq<char>>,
    tokens: Set<u32>,
    user_id: Seq<char>,
    snapshots: Seq<DeckSnapshotView>,
)
    ensures
        distinct_snapshot_ids(switched_step(st, user_id, snapshots).0.deck_snapshots),
        distinct_snapshot_ids(st.deck_snapshots) ==> distinct_snapshot_ids(
            process_step(st, ev, has_db, saved, tokens).0.deck_snapshots,
        ),
{
    lemma_upserts_fold_distinct(Seq::empty(), snapshots);
    if distinct_snapshot_ids(st.deck_snapshots) {
        match ev {
            GameEventView::DeckSnapshot { deck_id, deck_name, cards } => {
                law_upsert_keeps_one_snapshot_per_deck(
                    st.deck_snapshots,
                    DeckSnapshotView { deck_id, deck_name, cards: counts_of(cards) },
                );
            },
            GameEventView::MatchStarted { match_id, player1, player2, format, timestamp } => {
                let (me, opp) = sides(saved, player1, player2);
                let s1 = SinkModel {
                    current_match_id: Some(match_id),
                    player_seat_id: me.seat_id,
                    player_team_id: me.team_id,
                    opponent_seat_id: opp.seat_id,
                    current_game_number: 1,
                    die_rolls: Map::empty(),
                    deck_identified: false,
                    ..st
                };
                assert(correlate(s1, match_id).0.deck_snapshots == st.deck_snapshots);
            },
            _ => {},
        }
    }
}

/// Law: a die roll that completes both seats' rolls during a match, in
/// whichever order they arrive, records that we won the roll, and play
/// first, exactly when our seat's roll is higher than the opponent seat's,
/// both as known once the new roll is taken in.
pub proof fn law_die_roll_any_order(
    st: SinkModel,
    mid: Seq<char>,
    seat: u8,
    roll: u32,
    saved: Option<Seq<char>>,
    tokens: Set<u32>,
)
    requires
        st.current_match_id == Some(mid),
        st.player_seat_id != st.opponent_seat_id,
        st.die_rolls.dom().finite(),
        st.die_rolls.insert(seat, roll).contains_key(st.player_seat_id),
        st.die_rolls.insert(seat, roll).contains_key(st.opponent_seat_id),
    ensures
        ({
            let rolls = st.die_rolls.insert(seat, roll);
            let won = rolls[st.player_seat_id] > rolls[st.opponent_seat_id];
            &&& event_step(
                st,
                GameEventView::DieRollResult { seat_id: seat, roll_value: roll },
                saved,
                tokens,
            ).1 == seq![
                SinkActionView::SetDieRoll { match_id: mid, won },
                SinkActionView::SetPlayedFirst { match_id: mid, played_first: won },
            ]
            &&& seat == st.opponent_seat_id ==> won == (rolls[st.player_seat_id] > roll)
            &&& seat == st.player_seat_id ==> won == (roll > rolls[st.opponent_seat_id])
        }),
{
    let rolls = st.die_rolls.insert(seat, roll);
    let two = Set::<u8>::empty().insert(st.player_seat_id).insert(st.opponent_seat_id);
    assert(two.len() == 2);
    assert(two.subset_of(rolls.dom()));
    vstd::set_lib::lemma_len_subset(two, rolls.dom());
}

/// Law: when the log tells who played first during a match, the match is
/// recorded as played first exactly when that seat is ours, the seat we
/// were given at match start.
pub proof fn law_played_first_is_our_seat(
    st: SinkModel,
    mid: Seq<char>,
    seat: u8,
    saved: Option<Seq<char>>,
    tokens: Set<u32>,
)
    requires
        st.current_match_id == Some(mid),
    ensures
        event_step(st, GameEventView::PlayedFirst { seat_id: seat }, saved, tokens).1 == seq![
            SinkActionView::SetPlayedFirst { match_id: mid, played_first: seat == st.player_seat_id },
        ],
{
}

/// Law: after a match start, `PlayedFirst` for a seat is recorded as our
/// going first exactly when the seat is that of the player whose id is the
/// saved player id (player1's when neither is).
pub proof fn law_played_first_after_match_start(
    st: SinkModel,
    match_id: Seq<char>,
    p1: MatchPlayerView,
    p2: MatchPlayerView,
    format: Seq<char>,
    timestamp: u64,
    saved: Option<Seq<char>>,
    seat: u8,
    tokens: Set<u32>,
)
    ensures
        ({
            let s1 = match_started(st, match_id, p1, p2, format, timestamp, saved).0;
            let ours = if saved == Some(p1.user_id) {
                p1.seat_id
            } else if saved == Some(p2.user_id) {
                p2.seat_id
            } else {
                p1.seat_id
            };
            event_step(s1, GameEventView::PlayedFirst { seat_id: seat }, saved, tokens).1 == seq![
                SinkActionView::SetPlayedFirst { match_id, played_first: seat == ours },
            ]
        }),
{
    let (me, opp) = sides(saved, p1, p2);
    let s0 = SinkModel {
        current_match_id: Some(match_id),
        player_seat_id: me.seat_id,
        player_team_id: me.team_id,
        opponent_seat_id: opp.seat_id,
        current_game_number: 1,
        die_rolls: Map::empty(),
        deck_identified: false,
        ..st
    };
    assert(correlate(s0, match_id).0.current_match_id == Some(match_id));
    assert(correlate(s0, match_id).0.player_seat_id == me.seat_id);
}

} // verus!
