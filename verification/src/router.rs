//! Routes each chunk of the log to the parser for its kind of JSON block,
//! and notices the local user named in chunk header lines.

use vstd::prelude::*;
use crate::events::{GameEvent, GameEventView, append_events, events_view};
use crate::json::json_stream;
use crate::parser::course_data::{self, course_text_events};
use crate::parser::gre_message::{GreModel, GreParser, roots_fold};
use crate::parser::match_state::{self, room_state_text_events};
use crate::segmenter::Chunk;
use crate::text::{
    chars_of, contains, contains_exec, find, find_char, find_char_from, find_char_from_exec,
    find_exec, first_line, rfind_char_below, rfind_char_below_exec, string_from_range, trim,
    trim_bounds,
};

verus! {

#[derive(Clone, Copy, Debug, PartialEq, Eq, Structural)]
pub enum ChunkType {
    MatchRoomState,
    GreToClient,
    CourseData,
    Other,
}

/// The kind of JSON block, by the first of its telltale keys that it holds.
pub open spec fn chunk_type(json: Seq<char>) -> ChunkType {
    if contains(json, "matchGameRoomStateChangedEvent"@) {
        ChunkType::MatchRoomState
    } else if contains(json, "greToClientEvent"@) {
        ChunkType::GreToClient
    } else if contains(json, "\"Courses\""@) {
        ChunkType::CourseData
    } else {
        ChunkType::Other
    }
}

pub fn classify(json: &str) -> (r: ChunkType)
    ensures
        r == chunk_type(json@),
{
    if contains_exec(json, "matchGameRoomStateChangedEvent") {
        ChunkType::MatchRoomState
    } else if contains_exec(json, "greToClientEvent") {
        ChunkType::GreToClient
    } else if contains_exec(json, "\"Courses\"") {
        ChunkType::CourseData
    } else {
        ChunkType::Other
    }
}

/// The JSON body of a chunk: everything from its first `{` on.
pub open spec fn json_part(content: Seq<char>) -> Option<Seq<char>> {
    match find_char(content, '{') {
        Some(k) => Some(content.skip(k)),
        None => None,
    }
}

pub open spec fn string_opt_view(o: Option<String>) -> Option<Seq<char>> {
    match o {
        Some(s) => Some(s@),
        None => None,
    }
}

/// The text after the first `{` (inclusive), or `None` when there is no `{`.
pub fn extract_json(content: &str) -> (r: Option<String>)
    ensures
        string_opt_view(r) == json_part(content@),
{
    let cs = chars_of(content);
    match find_char_from_exec(&cs, '{', 0) {
        Some(k) => {
            let s = string_from_range(&cs, k, cs.len());
            assert(s@ =~= content@.skip(k as int));
            Some(s)
        },
        None => None,
    }
}

/// The user id of a `... Match to USER_ID: ...` header: the trimmed text
/// between the first `"Match to "` and the next `':'`.
pub open spec fn user_after_match_to(line: Seq<char>) -> Option<Seq<char>> {
    let p = "Match to "@;
    match find(line, p) {
        Some(idx) => match find_char_from(line, ':', idx + p.len()) {
            Some(end) => {
                let uid = trim(line.subrange(idx + p.len(), end));
                if uid.len() > 0 {
                    Some(uid)
                } else {
                    None
                }
            },
            None => None,
        },
        None => None,
    }
}

/// The user id of a `... USER_ID to Match: ...` header: the trimmed word
/// before the first `" to Match:"`.
pub open spec fn user_before_to_match(line: Seq<char>) -> Option<Seq<char>> {
    match find(line, " to Match:"@) {
        Some(idx) => match rfind_char_below(line, ' ', idx) {
            Some(start) => {
                let uid = trim(line.subrange(start + 1, idx));
                if uid.len() > 0 {
                    Some(uid)
                } else {
                    None
                }
            },
            None => None,
        },
        None => None,
    }
}

/// The local user named in a chunk header line, by either direction marker.
pub open spec fn local_user_id(line: Seq<char>) -> Option<Seq<char>> {
    match user_after_match_to(line) {
        Some(u) => Some(u),
        None => user_before_to_match(line),
    }
}

/// The local MTGA user id in a chunk header line, or `None` when the line
/// has neither direction marker with an id.
pub fn extract_local_user_id(line: &str) -> (r: Option<String>)
    ensures
        string_opt_view(r) == local_user_id(line@),
{
    let cs = chars_of(line);
    let p1 = chars_of("Match to ");
    match find_exec(&cs, &p1) {
        Some(idx) => {
            let from = idx + p1.len();
            match find_char_from_exec(&cs, ':', from) {
                Some(end) => {
                    proof {
                        lemma_find_char_from_bounds(cs@, ':', from as int);
                    }
                    let (b, e) = trim_bounds(&cs, from, end);
                    if b < e {
                        return Some(string_from_range(&cs, b, e));
                    }
                },
                None => {},
            }
        },
        None => {},
    }
    let p2 = chars_of(" to Match:");
    match find_exec(&cs, &p2) {
        Some(idx) => {
            proof {
                lemma_find_from_bounds(cs@, p2@, 0);
            }
            match rfind_char_below_exec(&cs, ' ', idx) {
                Some(start) => {
                    proof {
                        lemma_rfind_char_below_bounds(cs@, ' ', idx as int);
                    }
                    let (b, e) = trim_bounds(&cs, start + 1, idx);
                    if b < e {
                        return Some(string_from_range(&cs, b, e));
                    }
                },
                None => {},
            }
        },
        None => {},
    }
    None
}

proof fn lemma_find_char_from_bounds(s: Seq<char>, c: char, i: int)
    requires
        0 <= i,
    ensures
        find_char_from(s, c, i) matches Some(k) ==> i <= k < s.len(),
    decreases s.len() - i,
{
    if i < s.len() && s[i] != c {
        lemma_find_char_from_bounds(s, c, i + 1);
    }
}

proof fn lemma_find_from_bounds(s: Seq<char>, p: Seq<char>, i: int)
    requires
        0 <= i,
    ensures
        crate::text::find_from(s, p, i) matches Some(k) ==> i <= k && k + p.len() <= s.len(),
    decreases s.len() + 1 - i,
{
    if i + p.len() <= s.len() && !crate::text::occurs_at(s, p, i) {
        lemma_find_from_bounds(s, p, i + 1);
    }
}

proof fn lemma_rfind_char_below_bounds(s: Seq<char>, c: char, n: int)
    ensures
        rfind_char_below(s, c, n) matches Some(k) ==> 0 <= k < n,
    decreases n,
{
    if n > 0 && s[n - 1] != c {
        lemma_rfind_char_below_bounds(s, c, n - 1);
    }
}

/// What the router knows: the GRE parser's state and the last local user
/// that it announced.
pub struct RouterModel {
    pub gre: GreModel,
    pub last_local_user: Option<Seq<char>>,
}

/// The local-user announcement of a chunk: one event when its header line
/// names a user other than the last one announced.
pub open spec fn header_step(st: RouterModel, content: Seq<char>) -> (
    RouterModel,
    Seq<GameEventView>,
) {
    match first_line(content) {
        Some(l) => match local_user_id(l) {
            Some(uid) => if st.last_local_user != Some(uid) {
                (
                    RouterModel { last_local_user: Some(uid), ..st },
                    seq![GameEventView::LocalPlayerIdentified { user_id: uid }],
                )
            } else {
                (st, Seq::empty())
            },
            None => (st, Seq::empty()),
        },
        None => (st, Seq::empty()),
    }
}

/// Some event of `es` is a `MatchStarted`.
pub open spec fn has_match_started(es: Seq<GameEventView>) -> bool {
    exists|i: int| 0 <= i < es.len() && #[trigger] es[i] is MatchStarted
}

/// The events of a chunk's JSON body, by its kind. A match start resets the
/// GRE parser.
pub open spec fn body_step(st: RouterModel, content: Seq<char>) -> (
    RouterModel,
    Seq<GameEventView>,
) {
    match json_part(content) {
        Some(json) => match chunk_type(json) {
            ChunkType::MatchRoomState => {
                let es = room_state_text_events(json);
                (
                    if has_match_started(es) {
                        RouterModel { gre: GreModel::initial(), ..st }
                    } else {
                        st
                    },
                    es,
                )
            },
            ChunkType::GreToClient => {
                let (g, es) = roots_fold(st.gre, json_stream(json));
                (RouterModel { gre: g, ..st }, es)
            },
            ChunkType::CourseData => (st, course_text_events(json)),
            ChunkType::Other => (st, Seq::empty()),
        },
        None => (st, Seq::empty()),
    }
}

/// All events of one chunk: the local-user announcement, then the body's.
pub open spec fn route_step(st: RouterModel, content: Seq<char>) -> (
    RouterModel,
    Seq<GameEventView>,
) {
    let (s1, e1) = header_step(st, content);
    let (s2, e2) = body_step(s1, content);
    (s2, e1 + e2)
}

pub open spec fn route_fold(st: RouterModel, contents: Seq<Seq<char>>) -> (
    RouterModel,
    Seq<GameEventView>,
)
    decreases contents.len(),
{
    if contents.len() == 0 {
        (st, Seq::empty())
    } else {
        let (s1, e1) = route_fold(st, contents.drop_last());
        let (s2, e2) = route_step(s1, contents.last());
        (s2, e1 + e2)
    }
}

pub struct Router {
    gre: GreParser,
    last_local_user: Option<String>,
}

impl View for Router {
    type V = RouterModel;

    closed spec fn view(&self) -> RouterModel {
        RouterModel { gre: self.gre@, last_local_user: string_opt_view(self.last_local_user) }
    }
}

/// The first line of `content`, as `str::lines` yields it.
fn first_line_exec(content: &str) -> (r: Option<String>)
    ensures
        string_opt_view(r) == first_line(content@),
{
    let cs = chars_of(content);
    if cs.len() == 0 {
        return None;
    }
    match find_char_from_exec(&cs, '\n', 0) {
        Some(k) => {
            proof {
                lemma_find_char_from_bounds(cs@, '\n', 0);
            }
            if k > 0 && cs[k - 1] == '\r' {
                let l = string_from_range(&cs, 0, k - 1);
                assert(l@ =~= content@.subrange(0, k as int).drop_last());
                Some(l)
            } else {
                Some(string_from_range(&cs, 0, k))
            }
        },
        None => {
            let l = string_from_range(&cs, 0, cs.len());
            assert(l@ =~= content@);
            Some(l)
        },
    }
}

fn any_match_started(es: &Vec<GameEvent>) -> (r: bool)
    ensures
        r == has_match_started(events_view(es@)),
{
    let mut i: usize = 0;
    while i < es.len()
        invariant
            i <= es.len(),
            forall|j: int| 0 <= j < i ==> !(#[trigger] events_view(es@)[j] is MatchStarted),
        decreases es.len() - i,
    {
        if matches!(es[i], GameEvent::MatchStarted { .. }) {
            assert(events_view(es@)[i as int] is MatchStarted);
            return true;
        }
        i = i + 1;
    }
    false
}

impl Router {
    pub fn new() -> (r: Router)
        ensures
            r@ == (RouterModel { gre: GreModel::initial(), last_local_user: None }),
    {
        Router { gre: GreParser::new(), last_local_user: None }
    }

    fn route_header(&mut self, content: &str) -> (r: Vec<GameEvent>)
        ensures
            (final(self)@, events_view(r@)) == header_step(old(self)@, content@),
    {
        let mut out: Vec<GameEvent> = Vec::new();
        assert(events_view(out@) =~= Seq::<GameEventView>::empty());
        let line = match first_line_exec(content) {
            Some(l) => l,
            None => return out,
        };
        let uid = match extract_local_user_id(line.as_str()) {
            Some(u) => u,
            None => return out,
        };
        let same = match &self.last_local_user {
            Some(last) => crate::text::str_eq(last.as_str(), uid.as_str()),
            None => false,
        };
        if same {
            return out;
        }
        self.last_local_user = Some(crate::text::copy_string(&uid));
        out.push(GameEvent::LocalPlayerIdentified { user_id: uid });
        assert(events_view(out@) =~= seq![out@[0]@]);
        out
    }

    fn route_body(&mut self, content: &str) -> (r: Vec<GameEvent>)
        ensures
            (final(self)@, events_view(r@)) == body_step(old(self)@, content@),
    {
        let json = match extract_json(content) {
            Some(j) => j,
            None => {
                let out: Vec<GameEvent> = Vec::new();
                assert(events_view(out@) =~= Seq::<GameEventView>::empty());
                return out;
            },
        };
        match classify(json.as_str()) {
            ChunkType::MatchRoomState => {
                let es = match_state::parse(json.as_str());
                if any_match_started(&es) {
                    self.gre.reset();
                }
                es
            },
            ChunkType::GreToClient => self.gre.parse(json.as_str()),
            ChunkType::CourseData => course_data::parse(json.as_str()),
            ChunkType::Other => {
                let out: Vec<GameEvent> = Vec::new();
                assert(events_view(out@) =~= Seq::<GameEventView>::empty());
                out
            },
        }
    }

    /// The events of one chunk: `LocalPlayerIdentified` when its header
    /// names a new local user, then the events of its JSON body.
    pub fn route(&mut self, chunk: &Chunk) -> (r: Vec<GameEvent>)
        ensures
            (final(self)@, events_view(r@)) == route_step(old(self)@, chunk.content@),
    {
        let mut out = self.route_header(chunk.content.as_str());
        let more = self.route_body(chunk.content.as_str());
        append_events(&mut out, more);
        out
    }
}

pub open spec fn contents_view(cs: Seq<Chunk>) -> Seq<Seq<char>> {
    cs.map_values(|c: Chunk| c.content@)
}

/// The events of a sequence of chunks, routed in order by one router.
pub fn run(chunks: &Vec<Chunk>) -> (r: Vec<GameEvent>)
    ensures
        events_view(r@) == route_fold(
            RouterModel { gre: GreModel::initial(), last_local_user: None },
            contents_view(chunks@),
        ).1,
{
    let mut router = Router::new();
    let ghost s0 = router@;
    let ghost all = contents_view(chunks@);
    let mut out: Vec<GameEvent> = Vec::new();
    assert(events_view(out@) =~= Seq::<GameEventView>::empty());
    let mut i: usize = 0;
    while i < chunks.len()
        invariant
            i <= chunks.len(),
            all == contents_view(chunks@),
            (router@, events_view(out@)) == route_fold(s0, all.take(i as int)),
        decreases chunks.len() - i,
    {
        proof {
            assert(all.take(i + 1).drop_last() =~= all.take(i as int));
        }
        let es = router.route(&chunks[i]);
        append_events(&mut out, es);
        i = i + 1;
    }
    assert(all.take(all.len() as int) =~= all);
    out
}

} // verus!

verus! {

/// Law: the local user is announced only when it changes: once a chunk
/// header has named a user, a later header naming the same user (with no
/// other user named in between) announces nothing.
pub proof fn law_user_announced_once(st: RouterModel, c1: Seq<char>, c2: Seq<char>, uid: Seq<char>)
    requires
        (first_line(c1) matches Some(l1) && local_user_id(l1) == Some(uid)),
        (first_line(c2) matches Some(l2) && local_user_id(l2) == Some(uid)),
    ensures
        route_step(st, c1).0.last_local_user == Some(uid),
        header_step(route_step(st, c1).0, c2).1.len() == 0,
{
}

/// Law: a chunk whose header names a user other than the last one
/// announced starts with that user's `LocalPlayerIdentified`.
pub proof fn law_new_user_announced_first(st: RouterModel, c: Seq<char>, uid: Seq<char>)
    requires
        (first_line(c) matches Some(l) && local_user_id(l) == Some(uid)),
        st.last_local_user != Some(uid),
    ensures
        route_step(st, c).1.len() >= 1,
        route_step(st, c).1[0] == (GameEventView::LocalPlayerIdentified { user_id: uid }),
{
}

/// Law: a room-state chunk that starts a match leaves the GRE parser in its
/// initial state, so no game state leaks from one match into the next.
pub proof fn law_match_start_resets_game_state(st: RouterModel, c: Seq<char>)
    requires
        (json_part(c) matches Some(json) && chunk_type(json) == ChunkType::MatchRoomState
            && has_match_started(room_state_text_events(json))),
    ensures
        route_step(st, c).0.gre == GreModel::initial(),
{
}

/// Law: a chunk with no `{` yields at most the user announcement and
/// leaves the game state as it was.
pub proof fn law_no_json_no_game_events(st: RouterModel, c: Seq<char>)
    requires
        (json_part(c) is None),
    ensures
        route_step(st, c).1 == header_step(st, c).1,
        route_step(st, c).0.gre == st.gre,
{
    assert(header_step(st, c).1 + Seq::<GameEventView>::empty() =~= header_step(st, c).1);
}

} // verus!
