//! The card database: names, token and land flags, mana values and mana
//! costs by card id (grpId), as read from MTGA's local card database.

use vstd::prelude::*;
use std::collections::{HashMap, HashSet};
use crate::text::{chars_of, copy_string, push_char, split_char, string_from_range, trim, trim_bounds};

verus! {

broadcast use vstd::std_specs::hash::group_hash_axioms;

/// `x + 1` on a `u32`, wrapping as a release build does.
pub open spec fn wrapping_inc(x: u32) -> u32 {
    if x == u32::MAX {
        0
    } else {
        (x + 1) as u32
    }
}

/// The state of the tag stripper after one char: the tag depth and the
/// text kept so far.
pub open spec fn strip_step(st: (u32, Seq<char>), c: char) -> (u32, Seq<char>) {
    if c == '<' {
        (wrapping_inc(st.0), st.1)
    } else if c == '>' && st.0 > 0 {
        ((st.0 - 1) as u32, st.1)
    } else if st.0 == 0 {
        (st.0, st.1.push(c))
    } else {
        st
    }
}

pub open spec fn strip_fold(s: Seq<char>) -> (u32, Seq<char>)
    decreases s.len(),
{
    if s.len() == 0 {
        (0, Seq::empty())
    } else {
        strip_step(strip_fold(s.drop_last()), s.last())
    }
}

/// `s` without its `<...>` tags: the chars outside any tag, where `<` opens
/// a tag and `>` closes the innermost open one.
pub open spec fn tags_stripped(s: Seq<char>) -> Seq<char> {
    strip_fold(s).1
}

/// Removes `<...>` tags, as in `<nobr>Wind-Scarred</nobr> Crag`.
pub fn strip_html_tags(s: &str) -> (r: String)
    ensures
        r@ == tags_stripped(s@),
{
    let cs = chars_of(s);
    let mut out = String::new();
    let mut depth: u32 = 0;
    let mut i: usize = 0;
    while i < cs.len()
        invariant
            i <= cs.len(),
            (depth, out@) == strip_fold(cs@.take(i as int)),
        decreases cs.len() - i,
    {
        proof {
            assert(cs@.take(i + 1).drop_last() =~= cs@.take(i as int));
        }
        let ch = cs[i];
        if ch == '<' {
            depth = if depth == u32::MAX {
                0
            } else {
                depth + 1
            };
        } else if ch == '>' && depth > 0 {
            depth = depth - 1;
        } else if depth == 0 {
            push_char(&mut out, ch);
        }
        i = i + 1;
    }
    assert(cs@.take(cs@.len() as int) =~= cs@);
    out
}

/// A paren of a hybrid mana symbol.
pub open spec fn is_paren(c: char) -> bool {
    c == '(' || c == ')'
}

/// `s` without parens at its end.
pub open spec fn trim_parens_end(s: Seq<char>) -> Seq<char>
    decreases s.len(),
{
    if s.len() > 0 && is_paren(s.last()) {
        trim_parens_end(s.drop_last())
    } else {
        s
    }
}

/// `s` without parens at its start.
pub open spec fn trim_parens_start(s: Seq<char>) -> Seq<char>
    decreases s.len(),
{
    if s.len() > 0 && is_paren(s[0]) {
        trim_parens_start(s.drop_first())
    } else {
        s
    }
}

/// `s.trim_matches(|c| c == '(' || c == ')')`.
pub open spec fn trim_parens(s: Seq<char>) -> Seq<char> {
    trim_parens_start(trim_parens_end(s))
}

/// The standard notation of the symbols in `pieces`: each non-empty piece,
/// stripped of parens, in braces.
pub open spec fn mana_symbols(pieces: Seq<Seq<char>>) -> Seq<char>
    decreases pieces.len(),
{
    if pieces.len() == 0 {
        Seq::empty()
    } else {
        let last = pieces.last();
        mana_symbols(pieces.drop_last()) + if last.len() == 0 {
            Seq::<char>::empty()
        } else {
            seq!['{'] + trim_parens(last) + seq!['}']
        }
    }
}

/// MTGA's mana cost text (`"o2oW"`: each symbol after an `'o'`) in standard
/// notation (`"{2}{W}"`), or `None` when it holds no symbol.
pub open spec fn mana_cost_text(raw: Seq<char>) -> Option<Seq<char>> {
    if raw.len() == 0 {
        None
    } else {
        let r = mana_symbols(split_char(raw, 'o'));
        if r.len() == 0 {
            None
        } else {
            Some(r)
        }
    }
}

/// The card type list `types` (comma-separated enum numbers) holds 5, Land.
pub open spec fn is_land_types(types: Seq<char>) -> bool {
    let pieces = split_char(types, ',');
    exists|i: int| 0 <= i < pieces.len() && trim(#[trigger] pieces[i]) == seq!['5']
}

/// The pieces of `cs` between occurrences of `sep`.
fn split_pieces(cs: &Vec<char>, sep: char) -> (r: Vec<Vec<char>>)
    ensures
        r@.map_values(|p: Vec<char>| p@) == split_char(cs@, sep),
        r@.len() >= 1,
{
    let mut pieces: Vec<Vec<char>> = Vec::new();
    pieces.push(Vec::new());
    assert(pieces@.map_values(|p: Vec<char>| p@) =~= split_char(cs@.take(0), sep));
    let mut i: usize = 0;
    while i < cs.len()
        invariant
            i <= cs.len(),
            pieces@.len() >= 1,
            pieces@.map_values(|p: Vec<char>| p@) == split_char(cs@.take(i as int), sep),
        decreases cs.len() - i,
    {
        let ghost prev = pieces@.map_values(|p: Vec<char>| p@);
        proof {
            assert(cs@.take(i + 1).drop_last() =~= cs@.take(i as int));
        }
        let c = cs[i];
        if c == sep {
            pieces.push(Vec::new());
            assert(pieces@.map_values(|p: Vec<char>| p@) =~= prev.push(Seq::empty()));
        } else {
            let last = pieces.len() - 1;
            let mut piece = pieces.pop().unwrap();
            piece.push(c);
            pieces.push(piece);
            assert(pieces@.map_values(|p: Vec<char>| p@) =~= prev.update(
                last as int,
                prev.last().push(c),
            ));
        }
        i = i + 1;
    }
    assert(cs@.take(cs@.len() as int) =~= cs@);
    pieces
}

proof fn lemma_trim_parens_end_step(s: Seq<char>, lo: int, hi: int)
    requires
        0 <= lo < hi <= s.len(),
        is_paren(s[hi - 1]),
    ensures
        trim_parens_end(s.subrange(lo, hi)) == trim_parens_end(s.subrange(lo, hi - 1)),
{
    assert(s.subrange(lo, hi).drop_last() =~= s.subrange(lo, hi - 1));
}

proof fn lemma_trim_parens_start_step(s: Seq<char>, lo: int, hi: int)
    requires
        0 <= lo < hi <= s.len(),
        is_paren(s[lo]),
    ensures
        trim_parens_start(s.subrange(lo, hi)) == trim_parens_start(s.subrange(lo + 1, hi)),
{
    assert(s.subrange(lo, hi).drop_first() =~= s.subrange(lo + 1, hi));
}

/// Appends `'{'`, the piece without its outer parens, and `'}'`.
fn push_symbol(out: &mut String, piece: &Vec<char>)
    ensures
        final(out)@ == old(out)@ + seq!['{'] + trim_parens(piece@) + seq!['}'],
{
    let mut e = piece.len();
    assert(piece@.subrange(0, piece@.len() as int) =~= piece@);
    while e > 0 && (piece[e - 1] == '(' || piece[e - 1] == ')')
        invariant
            e <= piece.len(),
            trim_parens_end(piece@) == trim_parens_end(piece@.subrange(0, e as int)),
        decreases e,
    {
        proof {
            lemma_trim_parens_end_step(piece@, 0, e as int);
        }
        e = e - 1;
    }
    assert(piece@.subrange(0, piece@.len() as int) =~= piece@);
    let mut b: usize = 0;
    while b < e && (piece[b] == '(' || piece[b] == ')')
        invariant
            b <= e <= piece.len(),
            trim_parens_start(piece@.subrange(0, e as int)) == trim_parens_start(
                piece@.subrange(b as int, e as int),
            ),
        decreases e - b,
    {
        proof {
            lemma_trim_parens_start_step(piece@, b as int, e as int);
        }
        b = b + 1;
    }
    let ghost start = out@;
    push_char(out, '{');
    let mut k = b;
    while k < e
        invariant
            b <= k <= e <= piece.len(),
            out@ == start + seq!['{'] + piece@.subrange(b as int, k as int),
        decreases e - k,
    {
        push_char(out, piece[k]);
        k = k + 1;
        assert(out@ =~= start + seq!['{'] + piece@.subrange(b as int, k as int));
    }
    push_char(out, '}');
}

/// Converts MTGA's mana cost text to standard notation:
/// `"o2oW"` gives `"{2}{W}"`, `"o(R/G)"` gives `"{R/G}"`, and text with no
/// symbol (lands, zero-cost cards) gives `None`.
pub fn parse_mana_cost(raw: &str) -> (r: Option<String>)
    ensures
        match r {
            Some(s) => mana_cost_text(raw@) == Some(s@),
            None => mana_cost_text(raw@) is None,
        },
{
    let cs = chars_of(raw);
    if cs.len() == 0 {
        return None;
    }
    let pieces = split_pieces(&cs, 'o');
    let ghost pv = pieces@.map_values(|p: Vec<char>| p@);
    let mut out = String::new();
    let mut i: usize = 0;
    while i < pieces.len()
        invariant
            i <= pieces.len(),
            pv == pieces@.map_values(|p: Vec<char>| p@),
            out@ == mana_symbols(pv.take(i as int)),
        decreases pieces.len() - i,
    {
        proof {
            assert(pv.take(i + 1).drop_last() =~= pv.take(i as int));
            assert(pv.take(i + 1).last() == pieces@[i as int]@);
        }
        if pieces[i].len() > 0 {
            push_symbol(&mut out, &pieces[i]);
        } else {
            assert(out@ =~= out@ + Seq::<char>::empty());
        }
        i = i + 1;
    }
    assert(pv.take(pv.len() as int) =~= pv);
    let ocs = chars_of(out.as_str());
    if ocs.len() == 0 {
        None
    } else {
        Some(out)
    }
}

/// Whether the comma-separated type list names type 5, Land.
pub fn has_land_type(types: &str) -> (r: bool)
    ensures
        r == is_land_types(types@),
{
    let cs = chars_of(types);
    let pieces = split_pieces(&cs, ',');
    let ghost pv = pieces@.map_values(|p: Vec<char>| p@);
    let mut i: usize = 0;
    while i < pieces.len()
        invariant
            i <= pieces.len(),
            pv == pieces@.map_values(|p: Vec<char>| p@),
            pv == split_char(types@, ','),
            forall|j: int| 0 <= j < i ==> trim(#[trigger] pv[j]) != seq!['5'],
        decreases pieces.len() - i,
    {
        let piece = &pieces[i];
        let (b, e) = trim_bounds(piece, 0, piece.len());
        assert(piece@.subrange(0, piece@.len() as int) =~= piece@);
        assert(pv[i as int] == piece@);
        assert(trim(pv[i as int]) == piece@.subrange(b as int, e as int));
        if e - b == 1 && piece[b] == '5' {
            assert(trim(pv[i as int]) =~= seq!['5']);
            return true;
        }
        assert(trim(pv[i as int]) != seq!['5']) by {
            if trim(pv[i as int]) == seq!['5'] {
                assert(piece@.subrange(b as int, e as int).len() == 1);
                assert(piece@.subrange(b as int, e as int)[0] == piece@[b as int]);
            }
        }
        i = i + 1;
    }
    false
}

/// One row of MTGA's card table, as the app reads it.
pub struct CardRow {
    pub grp_id: u32,
    pub is_token: bool,
    /// Comma-separated card type numbers.
    pub types: String,
    /// The localized name, possibly with `<...>` tags.
    pub name: String,
    /// Mana value; 0 when unknown.
    pub cmc: u32,
    /// Mana cost in MTGA's `o`-prefixed notation.
    pub raw_cost: String,
}

pub struct CardRowView {
    pub grp_id: u32,
    pub is_token: bool,
    pub types: Seq<char>,
    pub name: Seq<char>,
    pub cmc: u32,
    pub raw_cost: Seq<char>,
}

impl View for CardRow {
    type V = CardRowView;

    open spec fn view(&self) -> CardRowView {
        CardRowView {
            grp_id: self.grp_id,
            is_token: self.is_token,
            types: self.types@,
            name: self.name@,
            cmc: self.cmc,
            raw_cost: self.raw_cost@,
        }
    }
}

/// What the app read from the card database file: its rows and its path.
pub struct CardSource {
    pub rows: Vec<CardRow>,
    pub path: String,
}

pub struct CardDatabase {
    names: HashMap<u32, String>,
    tokens: HashSet<u32>,
    lands: HashSet<u32>,
    cmc: HashMap<u32, u32>,
    mana_cost: HashMap<u32, String>,
    loaded_path: Option<String>,
}

pub struct CardDatabaseModel {
    pub names: Map<u32, Seq<char>>,
    pub tokens: Set<u32>,
    pub lands: Set<u32>,
    /// Mana value, for cards where it is above 0.
    pub cmc: Map<u32, u32>,
    /// Mana cost in standard notation, for cards that have one.
    pub mana_cost: Map<u32, Seq<char>>,
    pub loaded_path: Option<Seq<char>>,
}

impl CardDatabaseModel {
    pub open spec fn empty() -> CardDatabaseModel {
        CardDatabaseModel {
            names: Map::empty(),
            tokens: Set::empty(),
            lands: Set::empty(),
            cmc: Map::empty(),
            mana_cost: Map::empty(),
            loaded_path: None,
        }
    }
}

impl View for CardDatabase {
    type V = CardDatabaseModel;

    closed spec fn view(&self) -> CardDatabaseModel {
        CardDatabaseModel {
            names: self.names@.map_values(|s: String| s@),
            tokens: self.tokens@,
            lands: self.lands@,
            cmc: self.cmc@,
            mana_cost: self.mana_cost@.map_values(|s: String| s@),
            loaded_path: match self.loaded_path {
                Some(p) => Some(p@),
                None => None,
            },
        }
    }
}

/// The database after one more row.
pub open spec fn row_step(db: CardDatabaseModel, row: CardRowView) -> CardDatabaseModel {
    let g = row.grp_id;
    CardDatabaseModel {
        names: db.names.insert(g, tags_stripped(row.name)),
        tokens: if row.is_token {
            db.tokens.insert(g)
        } else {
            db.tokens
        },
        lands: if is_land_types(row.types) {
            db.lands.insert(g)
        } else {
            db.lands
        },
        cmc: if row.cmc > 0 {
            db.cmc.insert(g, row.cmc)
        } else {
            db.cmc
        },
        mana_cost: match mana_cost_text(row.raw_cost) {
            Some(c) => db.mana_cost.insert(g, c),
            None => db.mana_cost,
        },
        ..db
    }
}

pub open spec fn rows_fold(db: CardDatabaseModel, rows: Seq<CardRowView>) -> CardDatabaseModel
    decreases rows.len(),
{
    if rows.len() == 0 {
        db
    } else {
        row_step(rows_fold(db, rows.drop_last()), rows.last())
    }
}

pub open spec fn rows_view(rows: Seq<CardRow>) -> Seq<CardRowView> {
    rows.map_values(|r: CardRow| r@)
}

/// What `get_info` tells of one card.
#[derive(Debug)]
pub struct CardInfo {
    pub name: String,
    pub is_token: bool,
    pub is_land: bool,
    /// Mana value; 0 when unknown or a land.
    pub cmc: u32,
    /// Mana cost in standard notation; `None` for lands and zero-cost cards.
    pub mana_cost: Option<String>,
}

pub struct CardInfoView {
    pub name: Seq<char>,
    pub is_token: bool,
    pub is_land: bool,
    pub cmc: u32,
    pub mana_cost: Option<Seq<char>>,
}

impl View for CardInfo {
    type V = CardInfoView;

    open spec fn view(&self) -> CardInfoView {
        CardInfoView {
            name: self.name@,
            is_token: self.is_token,
            is_land: self.is_land,
            cmc: self.cmc,
            mana_cost: match self.mana_cost {
                Some(c) => Some(c@),
                None => None,
            },
        }
    }
}

/// What the database tells of card `id`: a land has mana value 0 and no
/// mana cost, whatever its row holds.
pub open spec fn info_of(db: CardDatabaseModel, id: u32) -> CardInfoView {
    let land = db.lands.contains(id);
    CardInfoView {
        name: db.names[id],
        is_token: db.tokens.contains(id),
        is_land: land,
        cmc: if !land && db.cmc.contains_key(id) {
            db.cmc[id]
        } else {
            0
        },
        mana_cost: if !land && db.mana_cost.contains_key(id) {
            Some(db.mana_cost[id])
        } else {
            None
        },
    }
}

impl CardDatabase {
    /// A database that knows no card.
    pub fn empty() -> (r: CardDatabase)
        ensures
            r@ == CardDatabaseModel::empty(),
    {
        let r = CardDatabase {
            names: HashMap::new(),
            tokens: HashSet::new(),
            lands: HashSet::new(),
            cmc: HashMap::new(),
            mana_cost: HashMap::new(),
            loaded_path: None,
        };
        assert(r@.names =~= Map::empty());
        assert(r@.mana_cost =~= Map::empty());
        r
    }

    fn add_row(&mut self, row: &CardRow)
        ensures
            final(self)@ == row_step(old(self)@, row@),
    {
        let ghost before = self@;
        let g = row.grp_id;
        let name = strip_html_tags(row.name.as_str());
        let ghost name_view = name@;
        self.names.insert(g, name);
        assert(self@.names =~= before.names.insert(g, name_view));
        if row.is_token {
            self.tokens.insert(g);
        }
        if has_land_type(row.types.as_str()) {
            self.lands.insert(g);
        }
        if row.cmc > 0 {
            self.cmc.insert(g, row.cmc);
        }
        match parse_mana_cost(row.raw_cost.as_str()) {
            Some(cost) => {
                let ghost cost_view = cost@;
                let ghost mid = self@;
                self.mana_cost.insert(g, cost);
                assert(self@.mana_cost =~= mid.mana_cost.insert(g, cost_view));
            },
            None => {},
        }
    }

    /// The database of the rows of a card table read from `path`.
    pub fn from_rows(rows: &Vec<CardRow>, path: &str) -> (r: CardDatabase)
        ensures
            r@ == (CardDatabaseModel {
                loaded_path: Some(path@),
                ..rows_fold(CardDatabaseModel::empty(), rows_view(rows@))
            }),
    {
        let mut db = CardDatabase::empty();
        let ghost rv = rows_view(rows@);
        let mut i: usize = 0;
        while i < rows.len()
            invariant
                i <= rows.len(),
                rv == rows_view(rows@),
                db@ == rows_fold(CardDatabaseModel::empty(), rv.take(i as int)),
            decreases rows.len() - i,
        {
            proof {
                assert(rv.take(i + 1).drop_last() =~= rv.take(i as int));
            }
            db.add_row(&rows[i]);
            i = i + 1;
        }
        assert(rv.take(rv.len() as int) =~= rv);
        db.loaded_path = Some(path.to_owned());
        db
    }

    /// The database of what the app read from MTGA's card database file, or
    /// a database that knows no card when that could not be read (cards then
    /// display as `Card #ID`).
    pub fn load(source: Result<CardSource, String>) -> (r: CardDatabase)
        ensures
            match source {
                Ok(src) => r@ == (CardDatabaseModel {
                    loaded_path: Some(src.path@),
                    ..rows_fold(CardDatabaseModel::empty(), rows_view(src.rows@))
                }),
                Err(_) => r@ == CardDatabaseModel::empty(),
            },
    {
        match source {
            Ok(src) => CardDatabase::from_rows(&src.rows, src.path.as_str()),
            Err(_) => CardDatabase::empty(),
        }
    }

    /// The path of the card database file this was loaded from.
    pub fn loaded_path(&self) -> (r: Option<String>)
        ensures
            match r {
                Some(p) => self@.loaded_path == Some(p@),
                None => self@.loaded_path is None,
            },
    {
        match &self.loaded_path {
            Some(p) => Some(copy_string(p)),
            None => None,
        }
    }

    /// The number of cards with a name.
    pub fn name_count(&self) -> (r: usize)
        ensures
            r == self@.names.len(),
    {
        proof {
            assert(self@.names.dom() =~= self.names@.dom());
        }
        self.names.len()
    }

    fn info(&self, id: u32) -> (r: Option<CardInfo>)
        ensures
            match r {
                Some(i) => self@.names.contains_key(id) && i@ == info_of(self@, id),
                None => !self@.names.contains_key(id),
            },
    {
        let name = match self.names.get(&id) {
            Some(n) => copy_string(n),
            None => return None,
        };
        let is_land = self.lands.contains(&id);
        let mana_cost = if is_land {
            None
        } else {
            match self.mana_cost.get(&id) {
                Some(c) => Some(copy_string(c)),
                None => None,
            }
        };
        let cmc = if is_land {
            0
        } else {
            match self.cmc.get(&id) {
                Some(c) => *c,
                None => 0,
            }
        };
        Some(
            CardInfo {
                name,
                is_token: self.tokens.contains(&id),
                is_land,
                cmc,
                mana_cost,
            },
        )
    }

    /// What the database knows of each of `grp_ids`: an entry for each id
    /// that has a name.
    pub fn get_info(&self, grp_ids: &[u32]) -> (r: HashMap<u32, CardInfo>)
        ensures
            forall|id: u32| #[trigger]
                r@.contains_key(id) <==> (grp_ids@.contains(id) && self@.names.contains_key(id)),
            forall|id: u32| #[trigger] r@.contains_key(id) ==> r@[id]@ == info_of(self@, id),
    {
        let mut out: HashMap<u32, CardInfo> = HashMap::new();
        let mut i: usize = 0;
        while i < grp_ids.len()
            invariant
                i <= grp_ids.len(),
                forall|x: u32| #[trigger]
                    out@.contains_key(x) <==> ((exists|j: int| 0 <= j < i && grp_ids@[j] == x)
                        && self@.names.contains_key(x)),
                forall|id: u32| #[trigger] out@.contains_key(id) ==> out@[id]@ == info_of(self@, id),
            decreases grp_ids.len() - i,
        {
            let id = grp_ids[i];
            match self.info(id) {
                Some(info) => {
                    out.insert(id, info);
                },
                None => {},
            }
            assert(grp_ids@[i as int] == id);
            i = i + 1;
        }
        out
    }

    /// Whether card `grp_id` is a token.
    pub fn is_token(&self, grp_id: u32) -> (r: bool)
        ensures
            r == self@.tokens.contains(grp_id),
    {
        self.tokens.contains(&grp_id)
    }
}

impl Default for CardDatabase {
    fn default() -> (r: CardDatabase)
        ensures
            r@ == CardDatabaseModel::empty(),
    {
        CardDatabase::empty()
    }
}

} // verus!

verus! {

proof fn lemma_strip_fold_no_open(s: Seq<char>)
    ensures
        forall|i: int| 0 <= i < strip_fold(s).1.len() ==> #[trigger] strip_fold(s).1[i] != '<',
    decreases s.len(),
{
    if s.len() > 0 {
        let prev = strip_fold(s.drop_last());
        lemma_strip_fold_no_open(s.drop_last());
        let c = s.last();
        let r = strip_fold(s);
        assert(r == strip_step(prev, c));
        if c != '<' && !(c == '>' && prev.0 > 0) && prev.0 == 0 {
            assert(r.1 == prev.1.push(c));
            assert forall|i: int| 0 <= i < r.1.len() implies #[trigger] r.1[i] != '<' by {
                if i < prev.1.len() {
                    assert(r.1[i] == prev.1[i]);
                }
            }
        } else {
            assert(r.1 == prev.1);
        }
    }
}

proof fn lemma_strip_fold_untagged(s: Seq<char>)
    requires
        !s.contains('<'),
    ensures
        strip_fold(s) == (0u32, s),
    decreases s.len(),
{
    if s.len() > 0 {
        let p = s.drop_last();
        assert(!p.contains('<')) by {
            if p.contains('<') {
                let k = choose|k: int| 0 <= k < p.len() && p[k] == '<';
                assert(s[k] == '<');
            }
        }
        lemma_strip_fold_untagged(p);
        assert(s.last() != '<') by {
            if s.last() == '<' {
                assert(s[s.len() - 1] == '<');
            }
        }
        assert(p.push(s.last()) =~= s);
    }
}

/// Law: a name with its tags stripped holds no `<`.
pub proof fn law_stripped_has_no_tag_open(s: Seq<char>)
    ensures
        !tags_stripped(s).contains('<'),
{
    lemma_strip_fold_no_open(s);
}

/// Law: text without `<` is left as it is, so stripping twice strips
/// nothing more than stripping once.
pub proof fn law_untagged_text_unchanged(s: Seq<char>)
    ensures
        !s.contains('<') ==> tags_stripped(s) == s,
        tags_stripped(tags_stripped(s)) == tags_stripped(s),
{
    if !s.contains('<') {
        lemma_strip_fold_untagged(s);
    }
    law_stripped_has_no_tag_open(s);
    lemma_strip_fold_untagged(tags_stripped(s));
}

proof fn lemma_mana_symbols_braced(pieces: Seq<Seq<char>>)
    ensures
        mana_symbols(pieces).len() > 0 ==> mana_symbols(pieces)[0] == '{' && mana_symbols(
            pieces,
        ).last() == '}',
    decreases pieces.len(),
{
    if pieces.len() > 0 {
        lemma_mana_symbols_braced(pieces.drop_last());
        let prev = mana_symbols(pieces.drop_last());
        let last = pieces.last();
        if last.len() > 0 {
            let sym = seq!['{'] + trim_parens(last) + seq!['}'];
            assert(mana_symbols(pieces) == prev + sym);
            assert((prev + sym).last() == '}');
            if prev.len() == 0 {
                assert((prev + sym)[0] == sym[0]);
            } else {
                assert((prev + sym)[0] == prev[0]);
            }
        } else {
            assert(mana_symbols(pieces) =~= prev);
        }
    }
}

/// Law: a mana cost in standard notation opens with `{` and closes with
/// `}`.
pub proof fn law_mana_cost_braced(raw: Seq<char>)
    ensures
        mana_cost_text(raw) matches Some(r) ==> r.len() >= 2 && r[0] == '{' && r.last() == '}',
{
    if raw.len() > 0 {
        let pieces = split_char(raw, 'o');
        lemma_mana_symbols_braced(pieces);
        lemma_mana_symbols_len(pieces);
    }
}

proof fn lemma_mana_symbols_len(pieces: Seq<Seq<char>>)
    ensures
        mana_symbols(pieces).len() == 0 || mana_symbols(pieces).len() >= 2,
    decreases pieces.len(),
{
    if pieces.len() > 0 {
        lemma_mana_symbols_len(pieces.drop_last());
    }
}

/// Every card that the database knows anything of has a name.
pub open spec fn all_named(db: CardDatabaseModel) -> bool {
    &&& forall|id: u32| #[trigger] db.tokens.contains(id) ==> db.names.contains_key(id)
    &&& forall|id: u32| #[trigger] db.lands.contains(id) ==> db.names.contains_key(id)
    &&& forall|id: u32| #[trigger] db.cmc.contains_key(id) ==> db.names.contains_key(id)
    &&& forall|id: u32| #[trigger] db.mana_cost.contains_key(id) ==> db.names.contains_key(id)
}

/// Law: in a database built from card rows, every token, land, mana value
/// and mana cost belongs to a card with a name, so `get_info` reports each
/// card that `is_token` knows, with the same token flag; and a land is
/// reported with mana value 0 and no mana cost.
pub proof fn law_known_cards_have_names(rows: Seq<CardRowView>, id: u32)
    ensures
        all_named(rows_fold(CardDatabaseModel::empty(), rows)),
        rows_fold(CardDatabaseModel::empty(), rows).tokens.contains(id) ==> rows_fold(
            CardDatabaseModel::empty(),
            rows,
        ).names.contains_key(id) && info_of(rows_fold(CardDatabaseModel::empty(), rows), id).is_token,
        info_of(rows_fold(CardDatabaseModel::empty(), rows), id).is_land ==> info_of(
            rows_fold(CardDatabaseModel::empty(), rows),
            id,
        ).cmc == 0 && info_of(rows_fold(CardDatabaseModel::empty(), rows), id).mana_cost is None,
    decreases rows.len(),
{
    if rows.len() > 0 {
        law_known_cards_have_names(rows.drop_last(), id);
    }
}

} // verus!
