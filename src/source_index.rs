use vstd::prelude::*;
use crate::ast::Span;

verus! {

/// The text of one source file, placed at `start_pos` in the byte-position
/// space that spans refer to, with the line and column of each offset.
pub struct SourceIndex {
    pub start_pos: u32,
    pub bytes: Vec<u8>,
    /// At offset `p`, from 0 to the length of the text: the line (from 1)
    /// and the column (in characters, from 0).
    pub locs: Vec<(usize, usize)>,
}

/// The line and column of each offset of `b`, its end included.
pub open spec fn locs_of(b: Seq<u8>, locs: Seq<(usize, usize)>) -> bool {
    &&& locs.len() == b.len() + 1
    &&& forall|p: int|
        0 <= p <= b.len() ==> (#[trigger] locs[p]).0 == newlines_before(b, p) + 1 && locs[p].1 == chars_between(
            b,
            line_start(b, p),
            p,
        )
}

/// A resolved interval: lines count from 1, columns count characters from
/// the start of the line, from 0.
#[derive(Clone, Copy, Debug, PartialEq, Eq, Structural)]
pub struct Range {
    pub start_line: usize,
    pub start_col: usize,
    pub end_line: usize,
    pub end_col: usize,
}

/// A byte that continues a multi-byte UTF-8 character.
pub open spec fn is_continuation(x: u8) -> bool {
    128 <= x < 192
}

/// The number of line feeds among the first `p` bytes.
pub open spec fn newlines_before(b: Seq<u8>, p: int) -> nat
    decreases p,
{
    if p <= 0 {
        0
    } else {
        newlines_before(b, p - 1) + if b[p - 1] == 10 { 1nat } else { 0nat }
    }
}

/// The offset at which the line holding offset `p` starts.
pub open spec fn line_start(b: Seq<u8>, p: int) -> int
    decreases p,
{
    if p <= 0 {
        0
    } else if b[p - 1] == 10 {
        p
    } else {
        line_start(b, p - 1)
    }
}

/// The number of characters that start in `[q, p)`.
pub open spec fn chars_between(b: Seq<u8>, q: int, p: int) -> nat
    decreases p - q,
{
    if p <= q {
        0
    } else {
        chars_between(b, q, p - 1) + if is_continuation(b[p - 1]) { 0nat } else { 1nat }
    }
}

impl SourceIndex {
    /// Every position of the file, its end included, is below `u32::MAX`,
    /// and the table of lines and columns is that of the text.
    pub open spec fn wf(&self) -> bool {
        &&& self.start_pos + self.bytes@.len() < u32::MAX
        &&& locs_of(self.bytes@, self.locs@)
    }

    /// Whether byte position `pos` lies in the file or just past its end.
    pub open spec fn covers(&self, pos: u32) -> bool {
        self.start_pos <= pos && pos - self.start_pos <= self.bytes@.len()
    }

    /// Whether a real span is an interval `[lo, hi)` with both ends in the
    /// file; a synthetic span never is.
    pub open spec fn covers_span(&self, s: Span) -> bool {
        match s {
            Span::Real { lo, hi } => lo <= hi && self.covers(lo) && self.covers(hi),
            Span::Synthetic => false,
        }
    }

    /// The line of byte position `pos`, from 1.
    pub open spec fn line_of(&self, pos: u32) -> int {
        (newlines_before(self.bytes@, pos - self.start_pos) + 1) as int
    }

    /// The column of byte position `pos`, in characters, from 0.
    pub open spec fn col_of(&self, pos: u32) -> int {
        let p = pos - self.start_pos;
        chars_between(self.bytes@, line_start(self.bytes@, p), p) as int
    }

    /// The range of a span that the file covers.
    pub open spec fn range_of(&self, s: Span) -> Range
        recommends
            self.covers_span(s),
    {
        let lo = s->Real_lo;
        let hi = s->Real_hi;
        Range {
            start_line: self.line_of(lo) as usize,
            start_col: self.col_of(lo) as usize,
            end_line: self.line_of(hi) as usize,
            end_col: self.col_of(hi) as usize,
        }
    }

    /// The index of a file placed at `start_pos`, unless its end would not
    /// stay below `u32::MAX`.
    pub fn new(start_pos: u32, bytes: Vec<u8>) -> (r: Option<SourceIndex>)
        ensures
            r is Some <==> start_pos + bytes@.len() < u32::MAX,
            r matches Some(idx) ==> idx.wf() && idx.start_pos == start_pos && idx.bytes@ == bytes@,
    {
        if bytes.len() >= (u32::MAX - start_pos) as usize {
            return None;
        }
        let len = bytes.len();
        let ghost b = bytes@;
        let mut locs: Vec<(usize, usize)> = Vec::new();
        let mut line: usize = 0;
        let mut ls: usize = 0;
        let mut col: usize = 0;
        let mut i: usize = 0;
        while i < len
            invariant
                len == bytes.len(),
                b == bytes@,
                len < u32::MAX,
                i <= len,
                line <= i,
                ls <= i,
                col <= i,
                line == newlines_before(b, i as int),
                ls == line_start(b, i as int),
                col == chars_between(b, ls as int, i as int),
                locs@.len() == i,
                forall|p: int|
                    0 <= p < i ==> (#[trigger] locs@[p]).0 == newlines_before(b, p) + 1 && locs@[p].1
                        == chars_between(b, line_start(b, p), p),
            decreases len - i,
        {
            locs.push((line + 1, col));
            if bytes[i] == 10 {
                line = line + 1;
                ls = i + 1;
                col = 0;
            } else if !(128 <= bytes[i] && bytes[i] < 192) {
                col = col + 1;
            }
            i = i + 1;
        }
        locs.push((line + 1, col));
        Some(SourceIndex { start_pos, bytes, locs })
    }

    /// Whether a span can be resolved against this file.
    pub fn covers_exec(&self, s: Span) -> (r: bool)
        ensures
            r == self.covers_span(s),
    {
        match s {
            Span::Real { lo, hi } => {
                lo <= hi && self.start_pos <= lo && ((lo - self.start_pos) as usize) <= self.bytes.len()
                    && self.start_pos <= hi && ((hi - self.start_pos) as usize) <= self.bytes.len()
            },
            Span::Synthetic => false,
        }
    }

    /// The line (from 1) and column (in characters, from 0) of a byte position.
    pub fn lookup(&self, pos: u32) -> (r: (usize, usize))
        requires
            self.wf(),
            self.covers(pos),
        ensures
            r.0 == self.line_of(pos),
            r.1 == self.col_of(pos),
    {
        let p: usize = (pos - self.start_pos) as usize;
        self.locs[p]
    }

    /// The range of a span that the file covers.
    pub fn resolve(&self, s: Span) -> (r: Range)
        requires
            self.wf(),
            self.covers_span(s),
        ensures
            r == self.range_of(s),
    {
        match s {
            Span::Real { lo, hi } => {
                let (start_line, start_col) = self.lookup(lo);
                let (end_line, end_col) = self.lookup(hi);
                Range { start_line, start_col, end_line, end_col }
            },
            Span::Synthetic => {
                Range { start_line: 0, start_col: 0, end_line: 0, end_col: 0 }
            },
        }
    }
}

} // verus!
