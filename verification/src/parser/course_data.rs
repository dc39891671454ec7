//! `Courses` blocks: the player's decks, one snapshot per course.

use vstd::prelude::*;
use crate::events::{DeckCard, GameEvent, GameEventView, events_view};
use crate::json::{JsonValue, array_of, field, json_document, parse_document, str_of, u64_of};
use crate::text::{chars_of, string_from_chars};

verus! {

/// The card that a deck list entry describes.
pub open spec fn deck_card_of(v: JsonValue) -> Option<DeckCard> {
    match (u64_of(v.spec_get("cardId"@)), u64_of(v.spec_get("quantity"@))) {
        (Some(id), Some(q)) => Some(DeckCard { card_id: id as u32, quantity: q as u32 }),
        _ => None,
    }
}

/// The cards of a deck list, skipping entries that do not describe one.
pub open spec fn deck_cards_of(list: Seq<JsonValue>) -> Seq<DeckCard> {
    list.filter_map(|v: JsonValue| deck_card_of(v))
}

/// The snapshot that one course describes: its main deck followed by its
/// command zone.
pub open spec fn course_snapshot(course: JsonValue) -> Option<GameEventView> {
    let summary = course.spec_get("CourseDeckSummary"@);
    let deck = course.spec_get("CourseDeck"@);
    match (
        str_of(field(summary, "DeckId"@)),
        str_of(field(summary, "Name"@)),
        array_of(field(deck, "MainDeck"@)),
    ) {
        (Some(deck_id), Some(deck_name), Some(main)) => {
            let command = match array_of(field(deck, "CommandZone"@)) {
                Some(c) => c,
                None => Seq::empty(),
            };
            Some(
                GameEventView::DeckSnapshot {
                    deck_id,
                    deck_name,
                    cards: deck_cards_of(main) + deck_cards_of(command),
                },
            )
        },
        _ => None,
    }
}

/// The snapshots of a list of courses, skipping courses that lack what a
/// snapshot needs.
pub open spec fn snapshots_of(courses: Seq<JsonValue>) -> Seq<GameEventView> {
    courses.filter_map(|c: JsonValue| course_snapshot(c))
}

/// The snapshots of a parsed `Courses` block, or `None` when it has no list
/// of courses.
pub open spec fn course_events_opt(v: JsonValue) -> Option<Seq<GameEventView>> {
    match array_of(v.spec_get("Courses"@)) {
        Some(courses) => Some(snapshots_of(courses)),
        None => None,
    }
}

/// The snapshots of a parsed `Courses` block.
pub open spec fn course_events(v: JsonValue) -> Seq<GameEventView> {
    match course_events_opt(v) {
        Some(es) => es,
        None => Seq::empty(),
    }
}

/// The snapshots of the `Courses` block written in `content`.
pub open spec fn course_text_events(content: Seq<char>) -> Seq<GameEventView> {
    match json_document(content) {
        Some(v) => course_events(v),
        None => Seq::empty(),
    }
}

fn parse_deck_card(v: &JsonValue) -> (r: Option<DeckCard>)
    ensures
        r == deck_card_of(*v),
{
    let id = match v.get_u64("cardId") {
        Some(n) => n,
        None => return None,
    };
    let q = match v.get_u64("quantity") {
        Some(n) => n,
        None => return None,
    };
    Some(DeckCard { card_id: id as u32, quantity: q as u32 })
}

/// Appends the cards of `list` to `out`.
fn push_deck_cards(list: &Vec<JsonValue>, out: &mut Vec<DeckCard>)
    ensures
        final(out)@ == old(out)@ + deck_cards_of(list@),
{
    let ghost start = out@;
    let mut i: usize = 0;
    while i < list.len()
        invariant
            i <= list.len(),
            out@ == start + deck_cards_of(list@.take(i as int)),
        decreases list.len() - i,
    {
        proof {
            assert(list@.take(i + 1).drop_last() =~= list@.take(i as int));
        }
        match parse_deck_card(&list[i]) {
            Some(c) => {
                out.push(c);
            },
            None => {},
        }
        i = i + 1;
        assert(out@ =~= start + deck_cards_of(list@.take(i as int)));
    }
    assert(list@.take(list@.len() as int) =~= list@);
}

fn to_string(s: &str) -> (r: String)
    ensures
        r@ == s@,
{
    string_from_chars(&chars_of(s))
}

fn parse_course(course: &JsonValue) -> (r: Option<GameEvent>)
    ensures
        match r {
            Some(e) => course_snapshot(*course) == Some(e@),
            None => course_snapshot(*course) is None,
        },
{
    let summary = match course.get("CourseDeckSummary") {
        Some(s) => s,
        None => return None,
    };
    let deck_id = match summary.get_str("DeckId") {
        Some(s) => to_string(s),
        None => return None,
    };
    let deck_name = match summary.get_str("Name") {
        Some(s) => to_string(s),
        None => return None,
    };
    let deck = match course.get("CourseDeck") {
        Some(d) => d,
        None => return None,
    };
    let main = match deck.get_array("MainDeck") {
        Some(m) => m,
        None => return None,
    };
    let mut cards: Vec<DeckCard> = Vec::new();
    push_deck_cards(main, &mut cards);
    match deck.get_array("CommandZone") {
        Some(c) => push_deck_cards(c, &mut cards),
        None => {
            assert(deck_cards_of(Seq::<JsonValue>::empty()) =~= Seq::<DeckCard>::empty());
        },
    }
    assert(cards@ =~= Seq::<DeckCard>::empty() + deck_cards_of(main@) + deck_cards_of(
        match array_of(field(course.spec_get("CourseDeck"@), "CommandZone"@)) {
            Some(c) => c,
            None => Seq::empty(),
        },
    ));
    Some(GameEvent::DeckSnapshot { deck_id, deck_name, cards })
}

/// The snapshots of a parsed `Courses` block: one `DeckSnapshot` per course
/// that names its deck and lists its main deck, in the order of the courses.
pub fn parse_value(v: &JsonValue) -> (r: Vec<GameEvent>)
    ensures
        events_view(r@) == course_events(*v),
{
    let mut out: Vec<GameEvent> = Vec::new();
    let courses = match v.get_array("Courses") {
        Some(c) => c,
        None => {
            assert(events_view(out@) =~= Seq::<GameEventView>::empty());
            return out;
        },
    };
    let mut i: usize = 0;
    while i < courses.len()
        invariant
            i <= courses.len(),
            events_view(out@) == snapshots_of(courses@.take(i as int)),
        decreases courses.len() - i,
    {
        proof {
            assert(courses@.take(i + 1).drop_last() =~= courses@.take(i as int));
        }
        let ghost prev = out@;
        assert(courses@.take(i + 1).last() == courses@[i as int]);
        match parse_course(&courses[i]) {
            Some(e) => {
                out.push(e);
                assert(events_view(out@) =~= events_view(prev).push(e@));
                assert(course_snapshot(courses@[i as int]) == Some(e@));
                assert(snapshots_of(courses@.take(i + 1)) == snapshots_of(courses@.take(i as int)).push(e@));
            },
            None => {
                assert(course_snapshot(courses@[i as int]) is None);
                assert(snapshots_of(courses@.take(i + 1)) == snapshots_of(courses@.take(i as int)));
            },
        }
        i = i + 1;
    }
    assert(courses@.take(courses@.len() as int) =~= courses@);
    out
}

/// The snapshots of the `Courses` block written in `content`; none when the
/// text is not JSON or has no list of courses.
pub fn parse(content: &str) -> (r: Vec<GameEvent>)
    ensures
        events_view(r@) == course_text_events(content@),
{
    match parse_document(content) {
        Some(v) => parse_value(&v),
        None => {
            let out: Vec<GameEvent> = Vec::new();
            assert(events_view(out@) =~= Seq::<GameEventView>::empty());
            out
        },
    }
}

} // verus!
