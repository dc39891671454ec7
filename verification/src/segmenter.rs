//! Groups log lines into chunks. A line that starts with the
//! `[UnityCrossThreadLogger]` marker begins a new chunk; every other line
//! belongs to the chunk in progress.

use vstd::prelude::*;
use crate::text::{
    chars_of, copy_string, join_lines, push_char, starts_with, string_from_range, trim, trim_bounds,
};

verus! {

pub const MARKER: &'static str = "[UnityCrossThreadLogger]";

#[derive(Debug)]
pub struct Chunk {
    pub content: String,
}

/// The text of a chunk: its lines joined with `'\n'`.
pub open spec fn chunk_of(buffer: Seq<Seq<char>>) -> Option<Seq<char>> {
    if buffer.len() == 0 {
        None
    } else {
        Some(join_lines(buffer))
    }
}

/// What a marker line leaves of itself in the chunk it begins: the text
/// after the marker, trimmed.
pub open spec fn marker_remainder(line: Seq<char>) -> Seq<char> {
    trim(line.skip(MARKER@.len() as int))
}

/// One line: the new buffer and the chunk completed by it, if any.
pub open spec fn line_step(buffer: Seq<Seq<char>>, line: Seq<char>) -> (
    Seq<Seq<char>>,
    Option<Seq<char>>,
) {
    if starts_with(line, MARKER@) {
        let rem = marker_remainder(line);
        (
            if rem.len() > 0 {
                seq![rem]
            } else {
                Seq::empty()
            },
            chunk_of(buffer),
        )
    } else {
        (buffer.push(line), None)
    }
}

/// The buffer and the completed chunks after a sequence of lines.
pub open spec fn lines_fold(buffer: Seq<Seq<char>>, lines: Seq<Seq<char>>) -> (
    Seq<Seq<char>>,
    Seq<Seq<char>>,
)
    decreases lines.len(),
{
    if lines.len() == 0 {
        (buffer, Seq::empty())
    } else {
        let (b1, c1) = lines_fold(buffer, lines.drop_last());
        let (b2, c2) = line_step(b1, lines.last());
        (
            b2,
            match c2 {
                Some(c) => c1.push(c),
                None => c1,
            },
        )
    }
}

/// The chunks of a whole log: those the lines complete, then the one in
/// progress when the input ends.
pub open spec fn segment(lines: Seq<Seq<char>>) -> Seq<Seq<char>> {
    let (b, cs) = lines_fold(Seq::empty(), lines);
    match chunk_of(b) {
        Some(c) => cs.push(c),
        None => cs,
    }
}

pub open spec fn chunk_opt_view(o: Option<Chunk>) -> Option<Seq<char>> {
    match o {
        Some(c) => Some(c.content@),
        None => None,
    }
}

pub open spec fn chunks_view(cs: Seq<Chunk>) -> Seq<Seq<char>> {
    cs.map_values(|c: Chunk| c.content@)
}

pub open spec fn strings_view(ls: Seq<String>) -> Seq<Seq<char>> {
    ls.map_values(|l: String| l@)
}

/// Appends the chars of `t` to `s`.
fn append_str(s: &mut String, t: &str)
    ensures
        final(s)@ == old(s)@ + t@,
{
    let cs = chars_of(t);
    let ghost start = s@;
    let mut i: usize = 0;
    while i < cs.len()
        invariant
            i <= cs.len(),
            s@ == start + cs@.take(i as int),
        decreases cs.len() - i,
    {
        push_char(s, cs[i]);
        i = i + 1;
        assert(s@ =~= start + cs@.take(i as int));
    }
    assert(cs@.take(cs@.len() as int) =~= cs@);
}

/// Empties `buffer` and returns its lines as one chunk, or nothing when it
/// holds no line.
pub fn flush(buffer: &mut Vec<String>) -> (r: Option<Chunk>)
    ensures
        chunk_opt_view(r) == chunk_of(strings_view(old(buffer)@)),
        final(buffer)@.len() == 0,
{
    if buffer.len() == 0 {
        return None;
    }
    let mut content = String::new();
    let mut i: usize = 0;
    while i < buffer.len()
        invariant
            0 < buffer.len(),
            i <= buffer.len(),
            i > 0 ==> content@ == join_lines(strings_view(buffer@.take(i as int))),
            i == 0 ==> content@ == Seq::<char>::empty(),
        decreases buffer.len() - i,
    {
        let ghost before = content@;
        if i > 0 {
            append_str(&mut content, "\n");
            proof {
                reveal_strlit("\n");
            }
        }
        append_str(&mut content, buffer[i].as_str());
        proof {
            let ls = strings_view(buffer@.take(i + 1));
            assert(ls.drop_last() =~= strings_view(buffer@.take(i as int)));
            assert(ls.last() == buffer@[i as int]@);
            if i == 0 {
                assert(content@ =~= ls[0]);
            } else {
                assert(content@ =~= before + seq!['\n'] + ls.last());
            }
        }
        i = i + 1;
    }
    assert(buffer@.take(buffer@.len() as int) =~= buffer@);
    buffer.clear();
    Some(Chunk { content })
}

pub struct Segmenter {
    buffer: Vec<String>,
}

impl View for Segmenter {
    type V = Seq<Seq<char>>;

    closed spec fn view(&self) -> Seq<Seq<char>> {
        strings_view(self.buffer@)
    }
}

impl Segmenter {
    pub fn new() -> (r: Segmenter)
        ensures
            r@ == Seq::<Seq<char>>::empty(),
    {
        let r = Segmenter { buffer: Vec::new() };
        assert(r@ =~= Seq::<Seq<char>>::empty());
        r
    }

    /// Takes one line; returns the chunk that it completes, if any.
    pub fn push_line(&mut self, line: String) -> (r: Option<Chunk>)
        ensures
            (final(self)@, chunk_opt_view(r)) == line_step(old(self)@, line@),
    {
        let cs = chars_of(line.as_str());
        let mk = chars_of(MARKER);
        let is_marker = cs.len() >= mk.len() && {
            let mut j: usize = 0;
            let mut same = true;
            while j < mk.len()
                invariant
                    mk.len() <= cs.len(),
                    j <= mk.len(),
                    same == (forall|k: int| 0 <= k < j ==> cs@[k] == mk@[k]),
                decreases mk.len() - j,
            {
                if cs[j] != mk[j] {
                    same = false;
                }
                j = j + 1;
            }
            same
        };
        assert(is_marker == starts_with(line@, MARKER@));
        if is_marker {
            let chunk = flush(&mut self.buffer);
            let (b, e) = trim_bounds(&cs, mk.len(), cs.len());
            assert(cs@.subrange(mk@.len() as int, cs@.len() as int) =~= line@.skip(
                MARKER@.len() as int,
            ));
            if b < e {
                let rem = string_from_range(&cs, b, e);
                self.buffer.push(rem);
            }
            assert(self@ =~= (if marker_remainder(line@).len() > 0 {
                seq![marker_remainder(line@)]
            } else {
                Seq::empty()
            }));
            chunk
        } else {
            let ghost before = self@;
            self.buffer.push(line);
            assert(self@ =~= before.push(line@));
            None
        }
    }

    /// The input has ended: returns the chunk in progress, if any.
    pub fn finish(&mut self) -> (r: Option<Chunk>)
        ensures
            chunk_opt_view(r) == chunk_of(old(self)@),
            final(self)@ == Seq::<Seq<char>>::empty(),
    {
        let r = flush(&mut self.buffer);
        assert(self@ =~= Seq::<Seq<char>>::empty());
        r
    }
}

/// The chunks of a whole log, line by line as `Segmenter` takes them.
pub fn run(lines: &Vec<String>) -> (r: Vec<Chunk>)
    ensures
        chunks_view(r@) == segment(strings_view(lines@)),
{
    let mut seg = Segmenter::new();
    let mut out: Vec<Chunk> = Vec::new();
    let ghost all = strings_view(lines@);
    assert(chunks_view(out@) =~= Seq::<Seq<char>>::empty());
    let mut i: usize = 0;
    while i < lines.len()
        invariant
            i <= lines.len(),
            all == strings_view(lines@),
            (seg@, chunks_view(out@)) == lines_fold(Seq::empty(), all.take(i as int)),
        decreases lines.len() - i,
    {
        let ghost prev = chunks_view(out@);
        proof {
            assert(all.take(i + 1).drop_last() =~= all.take(i as int));
        }
        match seg.push_line(copy_string(&lines[i])) {
            Some(c) => {
                out.push(c);
                assert(chunks_view(out@) =~= prev.push(out@.last().content@));
            },
            None => {},
        }
        i = i + 1;
    }
    assert(all.take(all.len() as int) =~= all);
    match seg.finish() {
        Some(c) => {
            let ghost prev = chunks_view(out@);
            out.push(c);
            assert(chunks_view(out@) =~= prev.push(out@.last().content@));
        },
        None => {},
    }
    out
}

} // verus!

verus! {

/// No line of `lines` starts with the marker.
pub open spec fn no_marker_lines(lines: Seq<Seq<char>>) -> bool {
    forall|i: int| 0 <= i < lines.len() ==> !starts_with(#[trigger] lines[i], MARKER@)
}

proof fn lemma_unmarked_fold(b: Seq<Seq<char>>, lines: Seq<Seq<char>>)
    requires
        no_marker_lines(lines),
    ensures
        lines_fold(b, lines) == (b + lines, Seq::<Seq<char>>::empty()),
    decreases lines.len(),
{
    if lines.len() > 0 {
        let prev = lines.drop_last();
        assert forall|i: int| 0 <= i < prev.len() implies !starts_with(#[trigger] prev[i], MARKER@) by {
            assert(prev[i] == lines[i]);
        }
        lemma_unmarked_fold(b, prev);
        assert(!starts_with(lines[lines.len() - 1], MARKER@));
        assert((b + prev).push(lines.last()) =~= b + lines);
    }
}

/// Law: lines without a marker line among them all belong to one chunk,
/// which is their text joined with `'\n'`.
pub proof fn law_unmarked_lines_one_chunk(lines: Seq<Seq<char>>)
    requires
        no_marker_lines(lines),
        lines.len() > 0,
    ensures
        segment(lines) == seq![join_lines(lines)],
{
    lemma_unmarked_fold(Seq::empty(), lines);
    assert(Seq::<Seq<char>>::empty() + lines =~= lines);
    assert(Seq::<Seq<char>>::empty().push(join_lines(lines)) =~= seq![join_lines(lines)]);
}

/// Law: a marker line completes the chunk in progress (when there is one)
/// and begins the next with whatever follows the marker on its line.
pub proof fn law_marker_line_closes_chunk(buffer: Seq<Seq<char>>, line: Seq<char>)
    requires
        starts_with(line, MARKER@),
    ensures
        line_step(buffer, line).1 == chunk_of(buffer),
        buffer.len() > 0 ==> line_step(buffer, line).1 == Some(join_lines(buffer)),
        line_step(buffer, line).0.len() <= 1,
        line_step(buffer, line).0.len() == 1 ==> line_step(buffer, line).0[0] == marker_remainder(
            line,
        ),
{
}

} // verus!
