//! The records the stats database keeps, and the comparison of deck
//! compositions (card id → quantity).

use vstd::prelude::*;
use std::collections::HashMap;
use crate::text::copy_string;
use vstd::std_specs::iter::IteratorSpec;

verus! {

broadcast use vstd::std_specs::hash::group_hash_axioms;

/// Wins and losses of one deck.
#[derive(Debug)]
pub struct DeckWL {
    pub deck_name: String,
    pub wins: u32,
    pub losses: u32,
}

/// One recorded match, as the history lists it.
#[derive(Debug)]
pub struct MatchRecord {
    pub match_id: String,
    pub format: String,
    pub opponent_name: String,
    pub deck_id: Option<String>,
    pub deck_name: Option<String>,
    pub result: Option<String>,
    pub won_die_roll: Option<bool>,
    pub played_first: Option<bool>,
    pub started_at: i64,
}

/// A deck snapshot: its id, its name and its cards (grpId → quantity, the
/// commander included).
#[derive(Debug)]
pub struct DeckSnapshotRecord {
    pub deck_id: String,
    pub deck_name: String,
    pub cards: HashMap<u32, u32>,
}

pub struct DeckSnapshotView {
    pub deck_id: Seq<char>,
    pub deck_name: Seq<char>,
    pub cards: Map<u32, u32>,
}

impl View for DeckSnapshotRecord {
    type V = DeckSnapshotView;

    open spec fn view(&self) -> DeckSnapshotView {
        DeckSnapshotView { deck_id: self.deck_id@, deck_name: self.deck_name@, cards: self.cards@ }
    }
}

impl DeckSnapshotRecord {
    pub fn copy(&self) -> (r: DeckSnapshotRecord)
        ensures
            r@ == self@,
    {
        DeckSnapshotRecord {
            deck_id: copy_string(&self.deck_id),
            deck_name: copy_string(&self.deck_name),
            cards: self.cards.clone(),
        }
    }
}

pub open spec fn snapshots_view(s: Seq<DeckSnapshotRecord>) -> Seq<DeckSnapshotView> {
    s.map_values(|r: DeckSnapshotRecord| r@)
}

/// Whether two deck compositions hold the same cards in the same numbers.
pub fn counts_equal(a: &HashMap<u32, u32>, b: &HashMap<u32, u32>) -> (r: bool)
    ensures
        r == (a@ == b@),
{
    if a.len() != b.len() {
        return false;
    }
    let ghost all = vstd::std_specs::hash::spec_hash_map_iter(a).remaining();
    let ghost mut seen: Seq<(&u32, &u32)> = Seq::empty();
    for (k, v) in it: a.iter()
        invariant
            a@.len() == b@.len(),
            all == vstd::std_specs::hash::spec_hash_map_iter(a).remaining(),
            it.seq() == all,
            seen == all.take(it.index()),
            forall|j: int|
                0 <= j < seen.len() ==> #[trigger] b@.contains_key(*seen[j].0) && b@[*seen[j].0]
                    == *seen[j].1,
    {
        match b.get(k) {
            Some(w) => {
                if *w != *v {
                    return false;
                }
            },
            None => {
                return false;
            },
        }
        proof {
            seen = seen.push((k, v));
        }
    }
    proof {
        assert(seen == all);
        assert forall|k: u32| a@.contains_key(k) implies b@.contains_key(k) && b@[k] == a@[k] by {
            assert(all.contains((&k, &a@[k])));
            let j = choose|j: int| 0 <= j < all.len() && all[j] == (&k, &a@[k]);
            assert(b@.contains_key(*seen[j].0));
        }
        vstd::set_lib::lemma_subset_equality(a@.dom(), b@.dom());
        assert(a@ =~= b@);
    }
    true
}

/// The card-count map (grpId → quantity) that `serde_json::from_str` reads
/// from a JSON text, or `None` where the text is not such a map.
pub uninterp spec fn card_counts_json(text: Seq<char>) -> Option<Map<u32, u32>>;

/// `serde_json::to_string` of a card-count map. The text is a JSON object
/// keyed by the card ids as strings; the order of its entries follows the
/// map's iteration order and is not stated. What the contract claims is the
/// serde_json round trip: reading the text back gives the same map.
#[verifier::external_body]
fn counts_to_json(cards: &HashMap<u32, u32>) -> (r: String)
    ensures
        card_counts_json(r@) == Some(cards@),
{
    match serde_json::to_string(cards) {
        Ok(text) => text,
        Err(_) => String::from("{}"),
    }
}

/// `serde_json::from_str::<HashMap<u32, u32>>`, the error dropped.
#[verifier::external_body]
fn counts_from_json(text: &str) -> (r: Option<HashMap<u32, u32>>)
    ensures
        match r {
            Some(m) => card_counts_json(text@) == Some(m@),
            None => card_counts_json(text@) is None,
        },
{
    serde_json::from_str::<HashMap<u32, u32>>(text).ok()
}

/// The JSON text a deck composition is stored as.
pub fn deck_cards_json(cards: &HashMap<u32, u32>) -> (r: String)
    ensures
        card_counts_json(r@) == Some(cards@),
{
    counts_to_json(cards)
}

/// The composition stored as `text`, or an empty one where the text does
/// not hold a card-count map.
pub open spec fn stored_counts(text: Seq<char>) -> Map<u32, u32> {
    match card_counts_json(text) {
        Some(m) => m,
        None => Map::empty(),
    }
}

/// The deck composition stored as JSON text; empty where the text is not
/// a card-count map.
pub fn deck_cards_from_json(text: &str) -> (r: HashMap<u32, u32>)
    ensures
        r@ == stored_counts(text@),
{
    match counts_from_json(text) {
        Some(m) => m,
        None => {
            let m: HashMap<u32, u32> = HashMap::new();
            assert(m@ =~= Map::empty());
            m
        },
    }
}

/// Law: a deck composition stored as JSON text is read back unchanged, so
/// a match's stored deck can later be compared with a snapshot.
pub proof fn law_stored_deck_read_back(text: Seq<char>, cards: Map<u32, u32>)
    requires
        card_counts_json(text) == Some(cards),
    ensures
        stored_counts(text) == cards,
{
}

/// The two players of a recorded match, as the stats database lists them.
pub struct PlayerRow {
    pub player1_user_id: String,
    pub player1_name: String,
    pub player2_user_id: String,
    pub player2_name: String,
}

pub struct PlayerRowView {
    pub player1_user_id: Seq<char>,
    pub player1_name: Seq<char>,
    pub player2_user_id: Seq<char>,
    pub player2_name: Seq<char>,
}

impl View for PlayerRow {
    type V = PlayerRowView;

    open spec fn view(&self) -> PlayerRowView {
        PlayerRowView {
            player1_user_id: self.player1_user_id@,
            player1_name: self.player1_name@,
            player2_user_id: self.player2_user_id@,
            player2_name: self.player2_name@,
        }
    }
}

pub open spec fn rows_view(rows: Seq<PlayerRow>) -> Seq<PlayerRowView> {
    rows.map_values(|r: PlayerRow| r@)
}

pub open spec fn players_view(v: Seq<(String, String)>) -> Seq<(Seq<char>, Seq<char>)> {
    v.map_values(|p: (String, String)| (p.0@, p.1@))
}

/// Some listed player has this user id.
pub open spec fn lists_user(out: Seq<(Seq<char>, Seq<char>)>, uid: Seq<char>) -> bool {
    exists|i: int| 0 <= i < out.len() && #[trigger] out[i].0 == uid
}

/// The list with the player added unless their user id is listed already.
pub open spec fn add_player(out: Seq<(Seq<char>, Seq<char>)>, uid: Seq<char>, name: Seq<char>) -> Seq<
    (Seq<char>, Seq<char>),
> {
    if lists_user(out, uid) {
        out
    } else {
        out.push((uid, name))
    }
}

/// The distinct players of the rows (user id, name), in the order first
/// seen: player1 before player2 within a row.
pub open spec fn players_of(rows: Seq<PlayerRowView>) -> Seq<(Seq<char>, Seq<char>)>
    decreases rows.len(),
{
    if rows.len() == 0 {
        Seq::empty()
    } else {
        let r = rows.last();
        add_player(
            add_player(players_of(rows.drop_last()), r.player1_user_id, r.player1_name),
            r.player2_user_id,
            r.player2_name,
        )
    }
}

fn add_player_exec(out: &mut Vec<(String, String)>, uid: &String, name: &String)
    ensures
        players_view(final(out)@) == add_player(players_view(old(out)@), uid@, name@),
{
    let ghost before = players_view(out@);
    let mut i: usize = 0;
    while i < out.len()
        invariant
            i <= out.len(),
            before == players_view(out@),
            forall|j: int| 0 <= j < i ==> before[j].0 != uid@,
        decreases out.len() - i,
    {
        if crate::text::str_eq(out[i].0.as_str(), uid.as_str()) {
            assert(before[i as int].0 == uid@);
            return;
        }
        i = i + 1;
    }
    out.push((copy_string(uid), copy_string(name)));
    assert(players_view(out@) =~= before.push((uid@, name@)));
}

/// The distinct players of recent matches (newest first): user id and
/// name, in the order first seen.
pub fn recent_players(rows: &Vec<PlayerRow>) -> (r: Vec<(String, String)>)
    ensures
        players_view(r@) == players_of(rows_view(rows@)),
{
    let ghost rv = rows_view(rows@);
    let mut out: Vec<(String, String)> = Vec::new();
    assert(players_view(out@) =~= Seq::<(Seq<char>, Seq<char>)>::empty());
    let mut i: usize = 0;
    while i < rows.len()
        invariant
            i <= rows.len(),
            rv == rows_view(rows@),
            players_view(out@) == players_of(rv.take(i as int)),
        decreases rows.len() - i,
    {
        proof {
            assert(rv.take(i + 1).drop_last() =~= rv.take(i as int));
        }
        let row = &rows[i];
        add_player_exec(&mut out, &row.player1_user_id, &row.player1_name);
        add_player_exec(&mut out, &row.player2_user_id, &row.player2_name);
        i = i + 1;
    }
    assert(rv.take(rv.len() as int) =~= rv);
    out
}

/// The user plays in the match of this row.
pub open spec fn plays_in(row: PlayerRowView, uid: Seq<char>) -> bool {
    row.player1_user_id == uid || row.player2_user_id == uid
}

/// The user plays in every one of the rows' matches.
pub open spec fn in_all_rows(rows: Seq<PlayerRowView>, uid: Seq<char>) -> bool {
    forall|i: int| 0 <= i < rows.len() ==> plays_in(#[trigger] rows[i], uid)
}

/// The players among `ps` that play in every one of the rows' matches.
pub open spec fn in_every(ps: Seq<(Seq<char>, Seq<char>)>, rows: Seq<PlayerRowView>) -> Seq<
    (Seq<char>, Seq<char>),
>
    decreases ps.len(),
{
    if ps.len() == 0 {
        Seq::empty()
    } else {
        let rest = in_every(ps.drop_last(), rows);
        if in_all_rows(rows, ps.last().0) {
            rest.push(ps.last())
        } else {
            rest
        }
    }
}

/// The local player inferred from recent matches: the one player present
/// in every match, when there are at least two matches, at least two
/// distinct players, and exactly one such player.
pub open spec fn inferred_user(rows: Seq<PlayerRowView>) -> Option<(Seq<char>, Seq<char>)> {
    let ps = players_of(rows);
    if rows.len() < 2 || ps.len() < 2 {
        None
    } else {
        let every = in_every(ps, rows);
        if every.len() == 1 {
            Some(every[0])
        } else {
            None
        }
    }
}

fn plays_in_all(rows: &Vec<PlayerRow>, uid: &String) -> (r: bool)
    ensures
        r == in_all_rows(rows_view(rows@), uid@),
{
    let ghost rv = rows_view(rows@);
    let mut i: usize = 0;
    while i < rows.len()
        invariant
            i <= rows.len(),
            rv == rows_view(rows@),
            forall|j: int| 0 <= j < i ==> plays_in(#[trigger] rv[j], uid@),
        decreases rows.len() - i,
    {
        let row = &rows[i];
        if !crate::text::str_eq(row.player1_user_id.as_str(), uid.as_str())
            && !crate::text::str_eq(row.player2_user_id.as_str(), uid.as_str()) {
            assert(!plays_in(rv[i as int], uid@));
            return false;
        }
        assert(plays_in(rv[i as int], uid@));
        i = i + 1;
    }
    true
}

pub open spec fn opt_pair_view(o: Option<(String, String)>) -> Option<(Seq<char>, Seq<char>)> {
    match o {
        Some(p) => Some((p.0@, p.1@)),
        None => None,
    }
}

/// The local player (user id, name) inferred from recent matches, newest
/// first; `None` when ambiguous.
pub fn infer_local_user(rows: &Vec<PlayerRow>) -> (r: Option<(String, String)>)
    ensures
        opt_pair_view(r) == inferred_user(rows_view(rows@)),
{
    let ghost rv = rows_view(rows@);
    let ps = recent_players(rows);
    if rows.len() < 2 || ps.len() < 2 {
        return None;
    }
    let ghost pv = players_view(ps@);
    let mut every: Vec<(String, String)> = Vec::new();
    assert(players_view(every@) =~= Seq::<(Seq<char>, Seq<char>)>::empty());
    let mut i: usize = 0;
    while i < ps.len()
        invariant
            i <= ps.len(),
            pv == players_view(ps@),
            rv == rows_view(rows@),
            players_view(every@) == in_every(pv.take(i as int), rv),
        decreases ps.len() - i,
    {
        proof {
            assert(pv.take(i + 1).drop_last() =~= pv.take(i as int));
        }
        if plays_in_all(rows, &ps[i].0) {
            let ghost before = players_view(every@);
            every.push((copy_string(&ps[i].0), copy_string(&ps[i].1)));
            assert(players_view(every@) =~= before.push(pv[i as int]));
        }
        i = i + 1;
    }
    assert(pv.take(pv.len() as int) =~= pv);
    if every.len() == 1 {
        Some((copy_string(&every[0].0), copy_string(&every[0].1)))
    } else {
        None
    }
}

} // verus!

verus! {

proof fn lemma_in_every_members(ps: Seq<(Seq<char>, Seq<char>)>, rows: Seq<PlayerRowView>)
    ensures
        forall|p: (Seq<char>, Seq<char>)|
            #[trigger] in_every(ps, rows).contains(p) <==> (ps.contains(p) && in_all_rows(rows, p.0)),
    decreases ps.len(),
{
    if ps.len() > 0 {
        let prev = ps.drop_last();
        let rest = in_every(prev, rows);
        lemma_in_every_members(prev, rows);
        let r = in_every(ps, rows);
        assert forall|p: (Seq<char>, Seq<char>)|
            #[trigger] r.contains(p) <==> (ps.contains(p) && in_all_rows(rows, p.0)) by {
            if r.contains(p) {
                let i = choose|i: int| 0 <= i < r.len() && r[i] == p;
                if i < rest.len() {
                    assert(rest[i] == p);
                    assert(rest.contains(p));
                    let k = choose|k: int| 0 <= k < prev.len() && prev[k] == p;
                    assert(ps[k] == p);
                } else {
                    assert(ps[ps.len() - 1] == p);
                }
            }
            if ps.contains(p) && in_all_rows(rows, p.0) {
                let k = choose|k: int| 0 <= k < ps.len() && ps[k] == p;
                if k < prev.len() {
                    assert(prev[k] == p);
                    assert(prev.contains(p));
                    assert(rest.contains(p));
                    let i = choose|i: int| 0 <= i < rest.len() && rest[i] == p;
                    if in_all_rows(rows, ps.last().0) {
                        assert(r == rest.push(ps.last()));
                    } else {
                        assert(r == rest);
                    }
                    assert(r[i] == p);
                } else {
                    assert(r[r.len() - 1] == p);
                }
            }
        }
    }
}

/// Law: the inferred local player plays in every one of the matches it was
/// inferred from, and is the only recent player who does.
pub proof fn law_inferred_user_in_every_match(rows: Seq<PlayerRowView>)
    ensures
        inferred_user(rows) matches Some(p) ==> {
            &&& rows.len() >= 2
            &&& players_of(rows).contains(p)
            &&& in_all_rows(rows, p.0)
            &&& forall|q: (Seq<char>, Seq<char>)|
                #[trigger] players_of(rows).contains(q) && q.0 != p.0 ==> !in_all_rows(rows, q.0)
        },
{
    let ps = players_of(rows);
    lemma_in_every_members(ps, rows);
    if inferred_user(rows) is Some {
        let every = in_every(ps, rows);
        let p = every[0];
        assert(every.contains(p));
        assert forall|q: (Seq<char>, Seq<char>)|
            #[trigger] ps.contains(q) && q.0 != p.0 implies !in_all_rows(rows, q.0) by {
            if in_all_rows(rows, q.0) {
                assert(every.contains(q));
                let i = choose|i: int| 0 <= i < every.len() && every[i] == q;
                assert(i == 0);
            }
        }
    }
}

/// Law: the recent players list each user id once, and every player of
/// every row is listed.
pub proof fn law_recent_players_distinct(rows: Seq<PlayerRowView>)
    ensures
        forall|i: int, j: int|
            0 <= i < j < players_of(rows).len() ==> (#[trigger] players_of(rows)[i]).0
                != (#[trigger] players_of(rows)[j]).0,
        forall|k: int|
            0 <= k < rows.len() ==> lists_user(players_of(rows), (#[trigger] rows[k]).player1_user_id)
                && lists_user(players_of(rows), rows[k].player2_user_id),
    decreases rows.len(),
{
    if rows.len() > 0 {
        let prev = rows.drop_last();
        law_recent_players_distinct(prev);
        let r = rows.last();
        let p0 = players_of(prev);
        let p1 = add_player(p0, r.player1_user_id, r.player1_name);
        let p2 = add_player(p1, r.player2_user_id, r.player2_name);
        assert(players_of(rows) == p2);
        lemma_add_player(p0, r.player1_user_id, r.player1_name);
        lemma_add_player(p1, r.player2_user_id, r.player2_name);
        assert forall|k: int| 0 <= k < rows.len() implies lists_user(
            p2,
            (#[trigger] rows[k]).player1_user_id,
        ) && lists_user(p2, rows[k].player2_user_id) by {
            if k < prev.len() {
                assert(rows[k] == prev[k]);
            }
        }
    }
}

proof fn lemma_add_player(out: Seq<(Seq<char>, Seq<char>)>, uid: Seq<char>, name: Seq<char>)
    requires
        forall|i: int, j: int|
            0 <= i < j < out.len() ==> (#[trigger] out[i]).0 != (#[trigger] out[j]).0,
    ensures
        forall|i: int, j: int|
            0 <= i < j < add_player(out, uid, name).len() ==> (#[trigger] add_player(
                out,
                uid,
                name,
            )[i]).0 != (#[trigger] add_player(out, uid, name)[j]).0,
        lists_user(add_player(out, uid, name), uid),
        forall|u: Seq<char>| lists_user(out, u) ==> #[trigger] lists_user(add_player(out, uid, name), u),
{
    let r = add_player(out, uid, name);
    if !lists_user(out, uid) {
        assert(r[out.len() as int].0 == uid);
        assert forall|u: Seq<char>| lists_user(out, u) implies #[trigger] lists_user(r, u) by {
            let i = choose|i: int| 0 <= i < out.len() && #[trigger] out[i].0 == u;
            assert(r[i] == out[i]);
        }
        assert forall|i: int, j: int| 0 <= i < j < r.len() implies (#[trigger] r[i]).0 != (#[trigger] r[j]).0 by {
            if j == out.len() {
                assert(r[i] == out[i]);
            } else {
                assert(r[i] == out[i]);
                assert(r[j] == out[j]);
            }
        }
    }
}

} // verus!
