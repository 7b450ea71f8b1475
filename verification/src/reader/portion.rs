//! The part of a book the reader lays out: where it holds the text, the line
//! breaks it made going forwards, and how it fetches the next or previous
//! display line.

use std::collections::{HashMap, VecDeque};
use vstd::prelude::*;
use vstd::string::StringSliceAdditionalSpecFns;

use crate::reader::local_buffer::{spec_surround, BufState, LocalBuffer};
use crate::reader::wrap::{
    bw_char, bw_text, cut_backward, cut_forward, fw_breaks, fw_char, fw_kind, fw_ok, fw_text,
    ForwardCut,
};
use crate::text::{byte_len, chars_of, string_of};

verus! {

broadcast use vstd::std_specs::hash::group_hash_axioms;

/// Where the text of the book is held: a window on a local file, or all the
/// lines of a chapter.
#[derive(Debug)]
pub enum BufferType {
    Local(LocalBuffer),
    Global(VecDeque<String>),
}

/// What a buffer holds, as laying out reads it: whether it is a local
/// book's window, the lines (of the file, or of the chapter), and the
/// window's state (unused for a chapter).
pub type BookView = (bool, Seq<String>, BufState);

/// The view of `b`.
pub open spec fn view_of(b: BufferType) -> BookView {
    match b {
        BufferType::Local(l) => (true, l.file_lines@, l.state()),
        BufferType::Global(lines) => (false, lines@, (0usize, 0usize, Seq::<String>::empty())),
    }
}

/// The view holds the book's line `idx`.
pub open spec fn view_holds(v: BookView, idx: usize) -> bool {
    if v.0 {
        v.2.0 <= idx <= v.2.1
    } else {
        idx < v.1.len()
    }
}

/// The characters of the book's line `idx` as the view holds it.
pub open spec fn view_text(v: BookView, idx: usize) -> Seq<char> {
    if v.0 {
        v.2.2[idx - v.2.0]@
    } else {
        v.1[idx as int]@
    }
}

/// The view once line `idx` is fetched: a local window not holding it is
/// moved around it.
pub open spec fn view_fetch(v: BookView, idx: usize) -> BookView {
    if v.0 && !view_holds(v, idx) {
        (v.0, v.1, spec_surround(v.2, idx, v.1))
    } else {
        v
    }
}

/// The greatest recorded break `b` of a line with `b + 1 < e`, if any.
pub open spec fn prev_break(bs: Seq<usize>, e: int) -> Option<usize>
    decreases bs.len(),
{
    if bs.len() == 0 {
        None
    } else {
        let rest = prev_break(bs.drop_last(), e);
        let b = bs.last();
        if b + 1 < e {
            match rest {
                Some(r) => if r >= b { Some(r) } else { Some(b) },
                None => Some(b),
            }
        } else {
            rest
        }
    }
}

/// Going backwards, it's possible for the way words are ordered to change.
/// To prevent this, linebreaks are recorded when going forwards, so they can
/// be preserved going backwards: for each line, the character positions at
/// which it was broken.
#[derive(Debug)]
pub struct Linebreaks {
    breaks: HashMap<usize, Vec<usize>>,
}

impl Linebreaks {
    /// Whether breaks were recorded for `line`.
    pub closed spec fn has_line(self, line: usize) -> bool {
        self.breaks@.contains_key(line)
    }

    /// The breaks recorded for `line`, in the order they were recorded.
    pub closed spec fn of_line(self, line: usize) -> Seq<usize> {
        if self.breaks@.contains_key(line) {
            self.breaks@[line]@
        } else {
            Seq::empty()
        }
    }

    /// A line with no breaks recorded has an empty list of breaks.
    pub proof fn lemma_unrecorded(self, line: usize)
        ensures
            !self.has_line(line) ==> self.of_line(line) == Seq::<usize>::empty(),
    {
    }

    /// `b` is `a` with `ch` recorded as a break of `line`.
    pub open spec fn recorded(a: Self, b: Self, line: usize, ch: usize) -> bool {
        &&& b.has_line(line)
        &&& b.of_line(line) == a.of_line(line).push(ch)
        &&& forall|l: usize| l != line ==> b.has_line(l) == a.has_line(l) && #[trigger] b.of_line(l) == a.of_line(l)
    }

    pub fn new() -> (r: Self)
        ensures
            forall|l: usize| !r.has_line(l) && r.of_line(l) == Seq::<usize>::empty(),
    {
        Self { breaks: HashMap::new() }
    }

    /// Records a break of `line` at character `char`: after the ones already
    /// recorded for it, or as its only one.
    pub fn insert(&mut self, line: usize, char: usize)
        ensures
            Self::recorded(*old(self), *final(self), line, char),
            !old(self).has_line(line) ==> final(self).of_line(line) == seq![char],
    {
        let old_breaks = self.breaks.remove(&line);
        let mut v = match old_breaks {
            Some(v) => v,
            None => Vec::new(),
        };
        v.push(char);
        self.breaks.insert(line, v);
        proof {
            assert forall|l: usize| l != line implies self.has_line(l) == old(self).has_line(l)
                && #[trigger] self.of_line(l) == old(self).of_line(l) by {
                assert(self.breaks@.contains_key(l) == old(self).breaks@.contains_key(l));
            }
        }
    }

    /// The breaks of `line`, if any were recorded.
    pub fn get_line(&self, line: usize) -> (r: Option<&Vec<usize>>)
        ensures
            r is Some <==> self.has_line(line),
            r matches Some(v) ==> v@ == self.of_line(line),
    {
        self.breaks.get(&line)
    }

    /// Returns None if there is no break on the current line before the
    /// current character. Otherwise returns the previous break: the greatest
    /// one at least two characters before it.
    pub fn get_previous_break(&self, current: (usize, usize)) -> (r: Option<usize>)
        ensures
            r == prev_break(self.of_line(current.0), current.1 as int),
    {
        match self.get_line(current.0) {
            None => None,
            Some(v) => {
                let mut best: Option<usize> = None;
                let mut i: usize = 0;
                while i < v.len()
                    invariant
                        i <= v@.len(),
                        v@ == self.of_line(current.0),
                        best == prev_break(v@.take(i as int), current.1 as int),
                    decreases v@.len() - i,
                {
                    let b = v[i];
                    proof {
                        assert(v@.take(i + 1).drop_last() =~= v@.take(i as int));
                    }
                    if b < current.1 && b + 1 < current.1 {
                        best = match best {
                            Some(r) => if r >= b { Some(r) } else { Some(b) },
                            None => Some(b),
                        };
                    }
                    i = i + 1;
                }
                proof {
                    assert(v@.take(v@.len() as int) =~= v@);
                }
                best
            },
        }
    }
}

impl Default for Linebreaks {
    fn default() -> (r: Self)
        ensures
            forall|l: usize| !r.has_line(l) && r.of_line(l) == Seq::<usize>::empty(),
    {
        Self::new()
    }
}

/// The place of one display line in the text: from a line and character to a
/// line and character.
#[derive(Debug, Clone, Copy)]
pub struct DisplayLineIndex {
    pub start_line: usize,
    pub start_char: usize,
    pub end_line: usize,
    pub end_char: usize,
}

impl DisplayLineIndex {
    pub open spec fn get_start_spec(self) -> (usize, usize) {
        (self.start_line, self.start_char)
    }

    pub open spec fn get_end_spec(self) -> (usize, usize) {
        (self.end_line, self.end_char)
    }

    pub fn get_start(&self) -> (r: (usize, usize))
        ensures
            r == (self.start_line, self.start_char),
    {
        (self.start_line, self.start_char)
    }

    pub fn get_end(&self) -> (r: (usize, usize))
        ensures
            r == (self.end_line, self.end_char),
    {
        (self.end_line, self.end_char)
    }

    pub fn from_pairs(start: (usize, usize), end: (usize, usize)) -> (r: Self)
        ensures
            r == (DisplayLineIndex { start_line: start.0, start_char: start.1, end_line: end.0, end_char: end.1 }),
    {
        Self { start_line: start.0, start_char: start.1, end_line: end.0, end_char: end.1 }
    }

    /// The index of an empty line.
    pub fn empty_line(line_no: usize) -> (r: Self)
        ensures
            r == (DisplayLineIndex { start_line: line_no, start_char: 0, end_line: line_no, end_char: 0 }),
    {
        Self { start_line: line_no, start_char: 0, end_line: line_no, end_char: 0 }
    }
}

/// What the reader does on its next draw.
#[derive(Clone, Copy, Debug)]
pub enum NextDisplay {
    NoOp,
    ScrollDown(usize),
    ScrollUp(usize),
    Jump,
}

/// A display line and where it ends (going forwards) or starts (going backwards).
#[derive(Debug)]
pub struct LineData {
    pub line: String,
    pub line_no: usize,
    pub line_char: usize,
}

/// What fetching a display line gives.
#[derive(Debug)]
pub enum LineReturnData {
    NonExistent,
    LineEnd,
    LineEmpty,
    LineExists(LineData),
    BackwardsLineExists { line: LineData, last_char_idx: usize },
}

/// Where a reader is in a book.
#[derive(Clone, Copy, Debug, PartialEq, Eq)]
pub enum BookProgress {
    Location((usize, usize)),
    Finished,
}

impl BookProgress {
    pub const FINISHED: BookProgress = BookProgress::Finished;
}

/// A book's progress with the number of lines of what is being read.
#[derive(Clone, Copy, Debug, PartialEq, Eq)]
pub struct BookProgressData {
    pub total_lines: usize,
    pub progress: BookProgress,
}

/// The number of line feeds in a text.
pub open spec fn newline_count(s: Seq<char>) -> nat
    decreases s.len(),
{
    if s.len() == 0 {
        0
    } else {
        newline_count(s.drop_last()) + if s.last() == '\n' { 1nat } else { 0nat }
    }
}

/// The number of lines a reader counts in a text: one per line feed, and one
/// more for text after the last line feed.
pub open spec fn line_count(s: Seq<char>) -> nat {
    newline_count(s) + if s.len() > 0 && s.last() != '\n' { 1nat } else { 0nat }
}

pub proof fn lemma_newline_count_bound(s: Seq<char>)
    ensures
        newline_count(s) <= s.len(),
    decreases s.len(),
{
    if s.len() > 0 {
        lemma_newline_count_bound(s.drop_last());
    }
}

impl BookProgressData {
    pub fn new(total_lines: usize, progress: BookProgress) -> (r: Self)
        ensures
            r == (BookProgressData { total_lines, progress }),
    {
        Self { total_lines, progress }
    }

    /// The progress of a local book just added: at its start, with the number
    /// of lines of the file's contents.
    pub fn from_file(contents: &str) -> (r: Self)
        ensures
            r.total_lines == line_count(contents@),
            r.progress == BookProgress::Location((0, 0)),
    {
        let cs = chars_of(contents);
        let mut count: usize = 0;
        let mut i: usize = 0;
        while i < cs.len()
            invariant
                i <= cs@.len(),
                cs@ == contents@,
                count == newline_count(cs@.take(i as int)),
            decreases cs@.len() - i,
        {
            proof {
                assert(cs@.take(i + 1).drop_last() =~= cs@.take(i as int));
                lemma_newline_count_bound(cs@.take(i as int));
            }
            if cs[i] == '\n' {
                count = count + 1;
            }
            i = i + 1;
        }
        proof {
            assert(cs@.take(cs@.len() as int) =~= cs@);
            lemma_newline_count_bound(cs@);
        }
        if cs.len() > 0 && cs[cs.len() - 1] != '\n' {
            proof {
                lemma_newline_count_bound(cs@.drop_last());
            }
            count = count + 1;
        }
        Self { total_lines: count, progress: BookProgress::Location((0, 0)) }
    }

    /// The line reached: the last line once finished.
    pub open spec fn get_line_spec(self) -> int {
        match self.progress {
            BookProgress::Location((line, _)) => line as int,
            BookProgress::Finished => self.total_lines - 1,
        }
    }

    /// The line reached: the last line once finished.
    pub fn get_line(&self) -> (r: usize)
        requires
            self.progress is Finished ==> self.total_lines > 0,
        ensures
            r == self.get_line_spec(),
    {
        match self.progress {
            BookProgress::Location((line, _)) => line,
            BookProgress::Finished => self.total_lines - 1,
        }
    }

    pub fn get_total_lines(&self) -> (r: usize)
        ensures
            r == self.total_lines,
    {
        self.total_lines
    }
}

/// Why laying out the text stopped.
#[derive(Debug, Clone, Copy, PartialEq, Eq, Structural)]
pub enum ReadError {
    /// The piece a forward cut gives would end before the line's first
    /// character (a line that starts with whitespace followed by a word longer
    /// than the width).
    CutBeforeLineStart,
    /// A character position past the largest `usize` was needed.
    PositionOverflow,
}

/// `r` is what a forward cut of `cs` from `s1` at width `w` gives for line `line_no`.
pub open spec fn fw_returns(r: LineReturnData, cs: Seq<char>, s1: int, w: int, line_no: usize) -> bool {
    match r {
        LineReturnData::LineEmpty => fw_kind(cs, s1, w) == 0,
        LineReturnData::LineEnd => fw_kind(cs, s1, w) == 1,
        LineReturnData::LineExists(d) => {
            &&& fw_kind(cs, s1, w) == 2
            &&& d.line@ == fw_text(cs, s1, w)
            &&& d.line_no == line_no
            &&& d.line_char == fw_char(cs, s1, w)
        },
        _ => false,
    }
}

/// The position a backward cut ends at: `e`, or the line's last byte if `e` is past it.
pub open spec fn clamp_end(bl: int, e: int) -> int {
    if e > bl - 1 { bl - 1 } else { e }
}

/// `r` is what a backward cut of line `line_no` (text `cs`) ending at `e` gives
/// with the breaks `bs` recorded on that line at width `w`.
pub open spec fn bw_returns(r: LineReturnData, cs: Seq<char>, e: int, bs: Seq<usize>, w: int, line_no: usize) -> bool {
    let bl = vstd::utf8::encode_utf8(cs).len() as int;
    if e == 0 {
        r is LineEnd
    } else if cs.len() == 0 {
        r is LineEmpty
    } else {
        let e2 = clamp_end(bl, e);
        let pb = prev_break(bs, e2);
        match r {
            LineReturnData::BackwardsLineExists { line, last_char_idx } => {
                &&& line.line@ == bw_text(cs, e2, pb, w)
                &&& line.line_no == line_no
                &&& line.line_char == bw_char(cs, e2, pb, w)
                &&& last_char_idx == bl - 1
            },
            _ => false,
        }
    }
}

pub proof fn lemma_prev_break_bound(bs: Seq<usize>, e: int)
    ensures
        prev_break(bs, e) matches Some(v) ==> v + 1 < e,
    decreases bs.len(),
{
    if bs.len() > 0 {
        lemma_prev_break_bound(bs.drop_last(), e);
    }
}

/// The part of the book being displayed, and the state of its layout.
#[derive(Debug)]
pub struct BookPortion {
    pub buffer: BufferType,
    /// The line followed by the character at which to start the display.
    /// This is the line and character of the file, *NOT* the buffer.
    pub display_start: (usize, usize),
    pub display_end: (usize, usize),
    pub display_line_idxs: VecDeque<DisplayLineIndex>,
    pub display_copy: VecDeque<String>,
    pub display_next: NextDisplay,
    pub term_width: usize,
    pub term_height: usize,
    pub breaks: Linebreaks,
}

impl BookPortion {
    /// A local buffer keeps its own invariant.
    pub open spec fn wf(self) -> bool {
        match self.buffer {
            BufferType::Local(b) => b.wf(),
            BufferType::Global(_) => true,
        }
    }

    /// The book's line `idx` is held by the buffer.
    pub open spec fn holds(self, idx: usize) -> bool {
        match self.buffer {
            BufferType::Local(b) => b.buffer_start_line <= idx <= b.buffer_end_line,
            BufferType::Global(lines) => idx < lines@.len(),
        }
    }

    /// The characters of the book's line `idx`, as the buffer holds it.
    pub open spec fn line_text(self, idx: usize) -> Seq<char> {
        match self.buffer {
            BufferType::Local(b) => b.buffer@[idx - b.buffer_start_line]@,
            BufferType::Global(lines) => lines@[idx as int]@,
        }
    }

    /// A local buffer can be moved to hold line `idx`.
    pub open spec fn can_fetch(self, idx: usize) -> bool {
        self.buffer is Local ==> idx <= usize::MAX - 150
    }

    /// Fetching line `idx` moves the view as `view_fetch` says, and what is
    /// held is read through the view.
    pub proof fn lemma_fetched_view(a: Self, b: Self, idx: usize)
        requires
            Self::fetched(a, b, idx),
        ensures
            view_of(b.buffer) == view_fetch(view_of(a.buffer), idx),
            forall|k: usize| #![auto] b.holds(k) == view_holds(view_of(b.buffer), k),
            forall|k: usize| #![auto] b.holds(k) ==> b.line_text(k) == view_text(view_of(b.buffer), k),
    {
    }

    /// The buffer after `get_line` or `get_line_backwards` made sure of line
    /// `idx`: a local buffer not holding it is moved around it.
    pub open spec fn fetched(a: Self, b: Self, idx: usize) -> bool {
        match (a.buffer, b.buffer) {
            (BufferType::Global(x), BufferType::Global(y)) => x == y,
            (BufferType::Local(x), BufferType::Local(y)) => {
                &&& y.file_lines == x.file_lines
                &&& y.file_path == x.file_path
                &&& y.wf()
                &&& if a.holds(idx) {
                    y == x
                } else {
                    y.state() == spec_surround(x.state(), idx, x.file_lines@)
                }
            },
            _ => false,
        }
    }

    /// All but the next display are the same.
    pub open spec fn same_but_next(a: Self, b: Self) -> bool {
        &&& b.buffer == a.buffer
        &&& b.breaks == a.breaks
        &&& b.display_start == a.display_start
        &&& b.display_end == a.display_end
        &&& b.display_line_idxs == a.display_line_idxs
        &&& b.display_copy == a.display_copy
        &&& b.term_width == a.term_width
        &&& b.term_height == a.term_height
    }

    /// All but the buffer and the breaks are the same.
    pub open spec fn same_layout(a: Self, b: Self) -> bool {
        &&& b.display_start == a.display_start
        &&& b.display_end == a.display_end
        &&& b.display_line_idxs@ == a.display_line_idxs@
        &&& b.display_copy@ == a.display_copy@
        &&& b.display_next == a.display_next
        &&& b.term_width == a.term_width
        &&& b.term_height == a.term_height
    }

    /// The breaks after a forward cut of line `idx` (text `cs`) from `s1`: one
    /// more when it cut the line short.
    pub open spec fn breaks_after_cut(a: Self, b: Self, cs: Seq<char>, idx: usize, s1: usize) -> bool {
        let w = a.term_width as int;
        if fw_breaks(cs, s1 as int, w) {
            Linebreaks::recorded(a.breaks, b.breaks, idx, fw_char(cs, s1 as int, w) as usize)
        } else {
            b.breaks == a.breaks
        }
    }

    /// The text of line `idx` as held (a copy of it).
    fn held_line(&self, idx: usize) -> (r: String)
        requires
            self.wf(),
            self.holds(idx),
        ensures
            r@ == self.line_text(idx),
    {
        match &self.buffer {
            BufferType::Global(lines) => lines[idx].clone(),
            BufferType::Local(buffer) => {
                let b_idx = idx - buffer.buffer_start_line;
                buffer.buffer[b_idx].clone()
            },
        }
    }

    /// Makes sure the buffer holds line `idx` if the book has it; returns whether it does.
    fn fetch(&mut self, idx: usize) -> (r: bool)
        requires
            old(self).wf(),
            old(self).can_fetch(idx),
        ensures
            final(self).wf(),
            Self::fetched(*old(self), *final(self), idx),
            Self::same_layout(*old(self), *final(self)),
            final(self).breaks == old(self).breaks,
            r == final(self).holds(idx),
            r ==> idx < usize::MAX,
    {
        match &mut self.buffer {
            BufferType::Global(lines) => lines.len() > idx,
            BufferType::Local(buffer) => {
                let b_idx = buffer.get_buffer_line(idx);
                if b_idx.is_some() {
                    true
                } else {
                    buffer.surround_line(idx);
                    // If it's still not in the buffer then the line doesn't exist in the file.
                    buffer.get_buffer_line(idx).is_some()
                }
            },
        }
    }

    /// The display line a forward cut `cut` of line `start.0` from `start.1`
    /// gives; records a break when it cut the line short.
    fn apply_cut(&mut self, start: (usize, usize), cut: ForwardCut, cs: Ghost<Seq<char>>) -> (r: LineReturnData)
        requires
            cut.ok,
            cut.kind as int == fw_kind(cs@, start.1 as int, old(self).term_width as int),
            cut.short == fw_breaks(cs@, start.1 as int, old(self).term_width as int),
            cut.kind == 2 ==> cut.text@ == fw_text(cs@, start.1 as int, old(self).term_width as int)
                && cut.last_char as int == fw_char(cs@, start.1 as int, old(self).term_width as int),
            cut.kind == 2 ==> start.1 <= cut.last_char + 1 && cut.last_char < cs@.len(),
        ensures
            r matches LineReturnData::LineExists(d) ==> start.1 <= d.line_char + 1 && d.line_char < cs@.len(),
            final(self).buffer == old(self).buffer,
            Self::same_layout(*old(self), *final(self)),
            fw_returns(r, cs@, start.1 as int, old(self).term_width as int, start.0),
            if fw_breaks(cs@, start.1 as int, old(self).term_width as int) {
                Linebreaks::recorded(old(self).breaks, final(self).breaks, start.0,
                    fw_char(cs@, start.1 as int, old(self).term_width as int) as usize)
            } else {
                final(self).breaks == old(self).breaks
            },
    {
        if cut.kind == 0 {
            return LineReturnData::LineEmpty;
        }
        if cut.kind == 1 {
            return LineReturnData::LineEnd;
        }
        if cut.short {
            self.breaks.insert(start.0, cut.last_char);
        }
        LineReturnData::LineExists(
            LineData { line: string_of(cut.text.as_slice()), line_no: start.0, line_char: cut.last_char },
        )
    }

    /// The display line starting at `start` (line, then character): the
    /// piece of that line a forward cut at the terminal width gives. A break
    /// is recorded when the line is cut short. Returns `NonExistent` if the
    /// book has no such line.
    pub fn get_line(&mut self, start: (usize, usize)) -> (r: Result<LineReturnData, ReadError>)
        requires
            old(self).wf(),
            old(self).can_fetch(start.0),
        ensures
            final(self).wf(),
            Self::fetched(*old(self), *final(self), start.0),
            Self::same_layout(*old(self), *final(self)),
            final(self).holds(start.0) ==> start.0 < usize::MAX,
            !final(self).holds(start.0) ==> (r matches Ok(LineReturnData::NonExistent) && final(self).breaks == old(self).breaks),
            final(self).holds(start.0) && !fw_ok(final(self).line_text(start.0), start.1 as int, old(self).term_width as int)
                ==> r == Err::<LineReturnData, ReadError>(ReadError::CutBeforeLineStart) && final(self).breaks == old(self).breaks,
            final(self).holds(start.0) && fw_ok(final(self).line_text(start.0), start.1 as int, old(self).term_width as int)
                ==> (r matches Ok(d) && fw_returns(d, final(self).line_text(start.0), start.1 as int, old(self).term_width as int, start.0)
                && Self::breaks_after_cut(*old(self), *final(self), final(self).line_text(start.0), start.0, start.1)),
            r matches Ok(LineReturnData::LineExists(d)) ==> start.1 <= d.line_char + 1
                && d.line_char < final(self).line_text(start.0).len(),
    {
        let idx = start.0;
        let line_exists = self.fetch(idx);
        if !line_exists {
            return Ok(LineReturnData::NonExistent);
        }
        let full_line = self.held_line(idx);
        let cs = chars_of(full_line.as_str());
        let cut = cut_forward(&cs, start.1, self.term_width);
        if !cut.ok {
            return Err(ReadError::CutBeforeLineStart);
        }
        let ghost mid = *self;
        let l = self.apply_cut(start, cut, Ghost(cs@));
        proof {
            assert(Self::breaks_after_cut(mid, *self, self.line_text(start.0), start.0, start.1));
        }
        Ok(l)
    }

    /// `get_line` on a line the buffer holds.
    pub fn get_line_unchecked(&mut self, start: (usize, usize)) -> (r: LineReturnData)
        requires
            old(self).wf(),
            old(self).holds(start.0),
            fw_ok(old(self).line_text(start.0), start.1 as int, old(self).term_width as int),
        ensures
            final(self).buffer == old(self).buffer,
            Self::same_layout(*old(self), *final(self)),
            fw_returns(r, old(self).line_text(start.0), start.1 as int, old(self).term_width as int, start.0),
            Self::breaks_after_cut(*old(self), *final(self), old(self).line_text(start.0), start.0, start.1),
    {
        let full_line = self.held_line(start.0);
        let cs = chars_of(full_line.as_str());
        let cut = cut_forward(&cs, start.1, self.term_width);
        self.apply_cut(start, cut, Ghost(cs@))
    }

    /// The display line ending at `end` (line, then character), going
    /// backwards: the piece a backward cut at the terminal width gives,
    /// starting after the previous recorded break. Returns `NonExistent` if
    /// the book has no such line.
    pub fn get_line_backwards(&mut self, end: (usize, usize)) -> (r: LineReturnData)
        requires
            old(self).wf(),
            old(self).can_fetch(end.0),
        ensures
            final(self).wf(),
            end.1 == 0 ==> r is LineEnd && *final(self) == *old(self),
            end.1 != 0 ==> Self::fetched(*old(self), *final(self), end.0),
            Self::same_layout(*old(self), *final(self)),
            final(self).breaks == old(self).breaks,
            end.1 != 0 && final(self).holds(end.0) ==> end.0 < usize::MAX,
            end.1 != 0 && !final(self).holds(end.0) ==> r is NonExistent,
            end.1 != 0 && final(self).holds(end.0) ==> bw_returns(
                r,
                final(self).line_text(end.0),
                end.1 as int,
                final(self).breaks.of_line(end.0),
                final(self).term_width as int,
                end.0,
            ),
    {
        if end.1 == 0 {
            return LineReturnData::LineEnd;
        }
        let line_exists = self.fetch(end.0);
        if line_exists {
            self.get_line_backwards_unchecked(end)
        } else {
            LineReturnData::NonExistent
        }
    }

    /// `get_line_backwards` on a line the buffer holds.
    pub fn get_line_backwards_unchecked(&mut self, end: (usize, usize)) -> (r: LineReturnData)
        requires
            old(self).wf(),
            end.1 != 0 ==> old(self).holds(end.0),
        ensures
            *final(self) == *old(self),
            bw_returns(
                r,
                old(self).line_text(end.0),
                end.1 as int,
                old(self).breaks.of_line(end.0),
                old(self).term_width as int,
                end.0,
            ),
    {
        if end.1 == 0 {
            return LineReturnData::LineEnd;
        }
        let full_line = self.held_line(end.0);
        let cs = chars_of(full_line.as_str());
        if cs.len() == 0 {
            return LineReturnData::LineEmpty;
        }
        let bl = byte_len(full_line.as_str());
        let last_char_idx = bl - 1;
        // Adjust to be in the valid range - large values correspond to the end of the line.
        let e = if end.1 > last_char_idx { last_char_idx } else { end.1 };
        let pb = self.breaks.get_previous_break((end.0, e));
        proof {
            lemma_prev_break_bound(self.breaks.of_line(end.0), e as int);
        }
        let cut = cut_backward(&cs, e, pb, self.term_width);
        LineReturnData::BackwardsLineExists {
            line: LineData { line: string_of(cut.text.as_slice()), line_no: end.0, line_char: cut.first_char },
            last_char_idx,
        }
    }

    /// A portion of the book held in `buffer`, to be laid out from `display_start`.
    pub fn with_buffer(buffer: BufferType, display_start: (usize, usize)) -> (r: Self)
        ensures
            r.buffer == buffer,
            r.display_start == display_start,
            r.display_end == (0usize, 0usize),
            r.display_line_idxs@.len() == 0,
            r.display_copy@.len() == 0,
            r.display_next == NextDisplay::Jump,
            r.term_width == 0,
            r.term_height == 0,
            forall|l: usize| !r.breaks.has_line(l) && r.breaks.of_line(l) == Seq::<usize>::empty(),
    {
        Self {
            buffer,
            display_start,
            display_end: (0, 0),
            display_line_idxs: VecDeque::new(),
            display_copy: VecDeque::new(),
            display_next: NextDisplay::Jump,
            term_width: 0,
            term_height: 0,
            breaks: Linebreaks::new(),
        }
    }

    /// A portion holding the one line "Loading... please wait...".
    pub fn empty() -> (r: Self)
        ensures
            r.buffer matches BufferType::Global(lines) && lines@.len() == 1 && lines@[0]@ == "Loading... please wait..."@,
            r.display_start == (0usize, 0usize),
            r.display_end == (0usize, 0usize),
            r.display_line_idxs@.len() == 0,
            r.display_copy@.len() == 0,
            r.display_next == NextDisplay::Jump,
            r.term_width == 0,
            r.term_height == 0,
            forall|l: usize| !r.breaks.has_line(l) && r.breaks.of_line(l) == Seq::<usize>::empty(),
    {
        let mut buffer: VecDeque<String> = VecDeque::new();
        buffer.push_back(String::from_str("Loading... please wait..."));
        Self::with_buffer(BufferType::Global(buffer), (0, 0))
    }

    /// The progress of the reader: finished when the display reaches the
    /// last line (for a chapter, within 50 bytes of its end), else the
    /// display's start.
    pub fn get_progress(&self) -> (r: BookProgressData)
        requires
            self.wf(),
            self.progress_defined(),
        ensures
            r == self.progress_spec(),
    {
        match &self.buffer {
            BufferType::Global(lines) => {
                let n = lines.len();
                if self.display_end.0 == n - 1 && {
                    let bl = byte_len(lines[n - 1].as_str());
                    let last = bl - 1;
                    let d = if self.display_end.1 >= last { self.display_end.1 - last } else { last - self.display_end.1 };
                    d < 50
                } {
                    BookProgressData { total_lines: n, progress: BookProgress::Finished }
                } else {
                    BookProgressData { total_lines: n, progress: BookProgress::Location(self.display_start) }
                }
            },
            BufferType::Local(buffer) => {
                let lines = buffer.file_lines.len();
                // Not entirely accurate but close enough.
                if self.display_end.0 == lines - 1 {
                    BookProgressData { total_lines: lines, progress: BookProgress::Finished }
                } else {
                    BookProgressData { total_lines: lines, progress: BookProgress::Location(self.display_start) }
                }
            },
        }
    }

    /// `get_progress` is defined: the book has a line, and when the display
    /// ends on a chapter's last line, that line is not empty.
    pub open spec fn progress_defined(self) -> bool {
        match self.buffer {
            BufferType::Global(lines) => {
                &&& lines@.len() > 0
                &&& self.display_end.0 == lines@.len() - 1 ==> lines@[lines@.len() - 1]@.len() > 0
            },
            BufferType::Local(b) => b.file_lines@.len() > 0,
        }
    }

    pub open spec fn progress_spec(self) -> BookProgressData {
        match self.buffer {
            BufferType::Global(lines) => {
                let n = lines@.len();
                let last = vstd::utf8::encode_utf8(lines@[n - 1]@).len() - 1;
                let d = if self.display_end.1 >= last { self.display_end.1 - last } else { last - self.display_end.1 };
                if self.display_end.0 == n - 1 && d < 50 {
                    BookProgressData { total_lines: n as usize, progress: BookProgress::Finished }
                } else {
                    BookProgressData { total_lines: n as usize, progress: BookProgress::Location(self.display_start) }
                }
            },
            BufferType::Local(b) => {
                let n = b.file_lines@.len();
                if self.display_end.0 == n - 1 {
                    BookProgressData { total_lines: n as usize, progress: BookProgress::Finished }
                } else {
                    BookProgressData { total_lines: n as usize, progress: BookProgress::Location(self.display_start) }
                }
            },
        }
    }
}

} // verus!
