//! The tailer's decisions: where reading starts, when the log was cleared,
//! and what becomes of each line read.

use vstd::prelude::*;
use crate::text::{chars_of, string_from_range, trim_end, trim_end_bound};

verus! {

#[derive(Debug, PartialEq, Eq, Structural)]
pub enum StartPosition {
    Beginning,
    End,
}

/// Where the tailer starts: at the end of the log when MTGA was already
/// running (its past is not replayed), else at the beginning.
pub fn start_position(mtga_was_running: bool) -> (r: StartPosition)
    ensures
        r == (if mtga_was_running {
            StartPosition::End
        } else {
            StartPosition::Beginning
        }),
{
    if mtga_was_running {
        StartPosition::End
    } else {
        StartPosition::Beginning
    }
}

/// Where reading starts in a log of `file_len` bytes.
pub fn initial_position(start: &StartPosition, file_len: u64) -> (r: u64)
    ensures
        r == match start {
            StartPosition::Beginning => 0,
            StartPosition::End => file_len,
        },
{
    match start {
        StartPosition::Beginning => 0,
        StartPosition::End => file_len,
    }
}

/// The log shrank below what was read: MTGA restarted and cleared it.
pub fn log_was_reset(file_len: u64, read_pos: u64) -> (r: bool)
    ensures
        r == (file_len < read_pos),
{
    file_len < read_pos
}

/// What becomes of a line read from the log.
#[derive(Debug)]
pub enum TailLine {
    /// No line end yet: MTGA is mid-write; read it again later.
    Partial,
    /// A complete line with nothing but white space.
    Blank,
    /// A complete line, without its trailing white space.
    Line(String),
}

pub enum TailLineView {
    Partial,
    Blank,
    Line(Seq<char>),
}

impl View for TailLine {
    type V = TailLineView;

    open spec fn view(&self) -> TailLineView {
        match self {
            TailLine::Partial => TailLineView::Partial,
            TailLine::Blank => TailLineView::Blank,
            TailLine::Line(s) => TailLineView::Line(s@),
        }
    }
}

pub open spec fn tail_line_of(line: Seq<char>) -> TailLineView {
    if line.len() == 0 || line.last() != '\n' {
        TailLineView::Partial
    } else if trim_end(line).len() == 0 {
        TailLineView::Blank
    } else {
        TailLineView::Line(trim_end(line))
    }
}

pub fn tail_line(line: &str) -> (r: TailLine)
    ensures
        r@ == tail_line_of(line@),
{
    let cs = chars_of(line);
    if cs.len() == 0 || cs[cs.len() - 1] != '\n' {
        return TailLine::Partial;
    }
    let e = trim_end_bound(&cs, 0, cs.len());
    assert(cs@.subrange(0, cs@.len() as int) =~= cs@);
    if e == 0 {
        TailLine::Blank
    } else {
        TailLine::Line(string_from_range(&cs, 0, e))
    }
}

} // verus!
