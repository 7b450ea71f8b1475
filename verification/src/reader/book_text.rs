//! The text the reader shows: laying a portion of the book out at a terminal
//! size, and scrolling it one display line at a time.

use std::collections::VecDeque;
use vstd::prelude::*;

use crate::laws::{law_backward_piece_fits, law_forward_piece_fits};
use crate::reader::portion::BufferType;
use crate::reader::portion::{
    clamp_end, prev_break, view_fetch, view_holds, view_of, view_text, BookPortion, BookView, DisplayLineIndex,
    LineReturnData, Linebreaks, NextDisplay, ReadError,
};
use crate::reader::wrap::{bw_char, bw_text, fw_breaks, fw_char, fw_kind, fw_ok, fw_text};

verus! {

/// The lines the reader draws.
#[derive(Debug)]
pub struct BookText {
    pub lines: VecDeque<String>,
}

/// A copy of a list of lines.
pub fn copy_lines(v: &VecDeque<String>) -> (r: VecDeque<String>)
    ensures
        r@ == v@,
{
    let mut out: VecDeque<String> = VecDeque::new();
    let mut i: usize = 0;
    while i < v.len()
        invariant
            i <= v@.len(),
            out@ == v@.take(i as int),
        decreases v@.len() - i,
    {
        out.push_back(v[i].clone());
        proof {
            assert(out@ =~= v@.take(i + 1));
        }
        i = i + 1;
    }
    proof {
        assert(v@.take(v@.len() as int) =~= v@);
    }
    out
}

/// Every line has at most `w` characters.
pub open spec fn fits(lines: Seq<String>, w: int) -> bool {
    forall|k: int| 0 <= k < lines.len() ==> (#[trigger] lines[k])@.len() <= w
}

/// The largest character position a display line may end at and still let
/// the next one start two characters later.
pub open spec fn next_start_fits(c: usize) -> bool {
    c < usize::MAX - 1
}

/// `r` fails exactly as `f` says: with its error where `f` names one, and
/// not at all where it names none.
pub open spec fn fails_as<T>(r: Result<T, ReadError>, f: Option<ReadError>) -> bool {
    match r {
        Ok(_) => f is None,
        Err(e) => f == Some(e),
    }
}

/// What laying out forwards from `p` at width `w` over the view `v` fails
/// with, if it does, with `k` display lines laid out and `h` wanted (none
/// wanted means as many as the book has): a line whose forward cut would end
/// before its first character, or a piece ending too far on for the next to
/// start two characters later. Laying out stops once `h` lines are laid out
/// or the book has no more lines.
pub open spec fn forward_failure(v: BookView, p: (usize, usize), w: int, k: nat, h: nat) -> Option<ReadError>
    decreases usize::MAX - p.0, usize::MAX - p.1,
{
    let v2 = view_fetch(v, p.0);
    let cs = view_text(v2, p.0);
    if !view_holds(v2, p.0) || p.0 == usize::MAX {
        None
    } else if !fw_ok(cs, p.1 as int, w) {
        Some(ReadError::CutBeforeLineStart)
    } else if fw_kind(cs, p.1 as int, w) == 1 {
        forward_failure(v2, ((p.0 + 1) as usize, 0), w, k, h)
    } else if fw_kind(cs, p.1 as int, w) == 0 {
        if k + 1 == h {
            None
        } else {
            forward_failure(v2, ((p.0 + 1) as usize, 0), w, k + 1, h)
        }
    } else if fw_char(cs, p.1 as int, w) >= usize::MAX - 1 {
        Some(ReadError::PositionOverflow)
    } else if k + 1 == h || fw_char(cs, p.1 as int, w) + 2 <= p.1 {
        None
    } else {
        forward_failure(v2, (p.0, (fw_char(cs, p.1 as int, w) + 2) as usize), w, k + 1, h)
    }
}

/// The characters of each line.
pub open spec fn texts(lines: Seq<String>) -> Seq<Seq<char>> {
    lines.map_values(|l: String| l@)
}

/// The breaks of line `l` among the breaks `rec` recorded (line, then
/// character), in the order they were recorded.
pub open spec fn breaks_of(rec: Seq<(usize, usize)>, l: usize) -> Seq<usize>
    decreases rec.len(),
{
    if rec.len() == 0 {
        Seq::empty()
    } else {
        breaks_of(rec.drop_last(), l) + if rec.last().0 == l {
            seq![rec.last().1]
        } else {
            Seq::<usize>::empty()
        }
    }
}

/// `b` holds the breaks `rec`, and no others.
pub open spec fn holds_breaks(b: Linebreaks, rec: Seq<(usize, usize)>) -> bool {
    forall|l: usize| #[trigger] b.of_line(l) == breaks_of(rec, l) && (b.has_line(l) <==> breaks_of(rec, l).len() > 0)
}

/// Recording a break keeps a list of the recorded breaks exact.
pub proof fn lemma_breaks_push(b0: Linebreaks, b1: Linebreaks, rec: Seq<(usize, usize)>, line: usize, ch: usize)
    requires
        holds_breaks(b0, rec),
        Linebreaks::recorded(b0, b1, line, ch),
    ensures
        holds_breaks(b1, rec.push((line, ch))),
{
    assert(rec.push((line, ch)).drop_last() =~= rec);
    assert forall|l: usize| #[trigger] b1.of_line(l) == breaks_of(rec.push((line, ch)), l)
        && (b1.has_line(l) <==> breaks_of(rec.push((line, ch)), l).len() > 0) by {
        assert(b0.of_line(l) == breaks_of(rec, l));
        if l == line {
            assert(breaks_of(rec.push((line, ch)), l) =~= breaks_of(rec, l).push(ch));
        } else {
            assert(breaks_of(rec.push((line, ch)), l) =~= breaks_of(rec, l));
        }
    }
}

/// The display lines laid out forwards from `p` at width `w` over the view
/// `v`, with `k` laid out before and `h` wanted (none wanted: as many as
/// there are): their characters and their places, the view after, whether
/// the book's end was reached, and the breaks recorded (line, then
/// character) where a line was cut short. Each line is the forward cut of
/// its book line (`fw_text`) from where the one before ended, two characters
/// on, or from the next line's start once a line has nothing left; an empty
/// book line gives an empty display line.
pub open spec fn forward_layout(v: BookView, p: (usize, usize), w: int, k: nat, h: nat)
    -> (Seq<Seq<char>>, Seq<DisplayLineIndex>, BookView, bool, Seq<(usize, usize)>)
    decreases usize::MAX - p.0, usize::MAX - p.1,
{
    let v2 = view_fetch(v, p.0);
    let cs = view_text(v2, p.0);
    if !view_holds(v2, p.0) || p.0 == usize::MAX {
        (Seq::empty(), Seq::empty(), v2, true, Seq::empty())
    } else if !fw_ok(cs, p.1 as int, w) {
        (Seq::empty(), Seq::empty(), v2, false, Seq::empty())
    } else if fw_kind(cs, p.1 as int, w) == 1 {
        forward_layout(v2, ((p.0 + 1) as usize, 0), w, k, h)
    } else if fw_kind(cs, p.1 as int, w) == 0 {
        let d = DisplayLineIndex { start_line: p.0, start_char: 0, end_line: p.0, end_char: 0 };
        if k + 1 == h {
            (seq![Seq::<char>::empty()], seq![d], v2, false, Seq::empty())
        } else {
            let rest = forward_layout(v2, ((p.0 + 1) as usize, 0), w, k + 1, h);
            (seq![Seq::<char>::empty()] + rest.0, seq![d] + rest.1, rest.2, rest.3, rest.4)
        }
    } else {
        let c = fw_char(cs, p.1 as int, w);
        let t = fw_text(cs, p.1 as int, w);
        let d = DisplayLineIndex { start_line: p.0, start_char: p.1, end_line: p.0, end_char: c as usize };
        let b = if fw_breaks(cs, p.1 as int, w) {
            seq![(p.0, c as usize)]
        } else {
            Seq::<(usize, usize)>::empty()
        };
        if c >= usize::MAX - 1 || k + 1 == h || c + 2 <= p.1 {
            (seq![t], seq![d], v2, false, b)
        } else {
            let rest = forward_layout(v2, (p.0, (c + 2) as usize), w, k + 1, h);
            (seq![t] + rest.0, seq![d] + rest.1, rest.2, rest.3, b + rest.4)
        }
    }
}

/// The display lines laid out backwards before `e` (line, then character)
/// at width `w` over the view `v` with the breaks `breaks`, `k` lines being
/// laid out and `h` wanted, and `s` the display start so far: their
/// characters and places in display order, and the display start after.
/// Each line is the backward cut of its book line (`bw_text`), ending at `e`
/// for the first and at the end of the line before for the others, until the
/// book's first line is laid out or `h` lines are.
pub open spec fn backward_fill(
    v: BookView,
    breaks: Linebreaks,
    e: (usize, usize),
    s: (usize, usize),
    w: int,
    k: nat,
    h: nat,
) -> (Seq<Seq<char>>, Seq<DisplayLineIndex>, (usize, usize))
    decreases e.0,
{
    let before = ((e.0 - 1) as usize, isize::MAX as usize);
    if e.1 == 0 {
        if e.0 == 0 {
            (Seq::empty(), Seq::empty(), s)
        } else {
            backward_fill(v, breaks, before, s, w, k, h)
        }
    } else {
        let v2 = view_fetch(v, e.0);
        let cs = view_text(v2, e.0);
        let bl = vstd::utf8::encode_utf8(cs).len() as int;
        let e2 = clamp_end(bl, e.1 as int);
        let pb = prev_break(breaks.of_line(e.0), e2);
        let c = bw_char(cs, e2, pb, w);
        let t = if cs.len() == 0 {
            Seq::<char>::empty()
        } else {
            bw_text(cs, e2, pb, w)
        };
        let d = if cs.len() == 0 {
            DisplayLineIndex { start_line: e.0, start_char: 0, end_line: e.0, end_char: 0 }
        } else {
            DisplayLineIndex { start_line: e.0, start_char: c as usize, end_line: e.0, end_char: (bl - 1) as usize }
        };
        let s2 = if cs.len() == 0 {
            e
        } else {
            (e.0, c as usize)
        };
        if !view_holds(v2, e.0) {
            (Seq::empty(), Seq::empty(), s)
        } else if e.0 == 0 || k + 1 == h {
            (seq![t], seq![d], s2)
        } else {
            let rest = backward_fill(v2, breaks, before, s2, w, k + 1, h);
            (rest.0 + seq![t], rest.1 + seq![d], rest.2)
        }
    }
}

/// What scrolling down one display line from the display end `e` at width
/// `w` over the view `v` gives: a failure, or whether the book's end was
/// reached; the view after; and where the new display line starts. The next
/// display line starts two characters after `e`; where that line has nothing
/// left, the line after it is taken from its start.
pub open spec fn down_step(v: BookView, e: (usize, usize), w: int) -> (Result<bool, ReadError>, BookView, (usize, usize)) {
    if e.1 >= usize::MAX - 1 {
        (Err(ReadError::PositionOverflow), v, e)
    } else {
        let p = (e.0, (e.1 + 2) as usize);
        let v2 = view_fetch(v, p.0);
        if !view_holds(v2, p.0) {
            (Ok(true), v2, p)
        } else if !fw_ok(view_text(v2, p.0), p.1 as int, w) {
            (Err(ReadError::CutBeforeLineStart), v2, p)
        } else if fw_kind(view_text(v2, p.0), p.1 as int, w) == 2 {
            (Ok(false), v2, p)
        } else {
            let q = ((p.0 + 1) as usize, 0usize);
            let v3 = view_fetch(v2, q.0);
            if !view_holds(v3, q.0) {
                (Ok(true), v3, q)
            } else if !fw_ok(view_text(v3, q.0), 0, w) {
                (Err(ReadError::CutBeforeLineStart), v3, q)
            } else {
                (Ok(false), v3, q)
            }
        }
    }
}

/// Where a backward cut of the book's line `idx` ending at `e` (not 0) over
/// the view `v` starts, with the breaks `breaks`: nothing if the view does
/// not hold the line; the line's start for an empty line; else the first
/// character of the cut.
pub open spec fn bw_start(v: BookView, breaks: Linebreaks, idx: usize, e: usize, w: int) -> Option<usize> {
    if !view_holds(v, idx) {
        None
    } else {
        let cs = view_text(v, idx);
        let e2 = clamp_end(vstd::utf8::encode_utf8(cs).len() as int, e as int);
        if cs.len() == 0 {
            Some(0)
        } else {
            Some(bw_char(cs, e2, prev_break(breaks.of_line(idx), e2), w) as usize)
        }
    }
}

/// What scrolling up one display line from the display start `s` at width
/// `w` over the view `v` gives: whether the book's start was reached; the
/// view after; and where the new display line starts. The new line ends one
/// character before `s`, or at the end of the line before when `s` starts
/// its line; where the line has nothing before `s`, the line before it is
/// taken from its end.
pub open spec fn up_step(v: BookView, breaks: Linebreaks, s: (usize, usize), w: int) -> (bool, BookView, (usize, usize)) {
    if s.1 == 0 && s.0 == 0 {
        (true, v, s)
    } else {
        let p = if s.1 != 0 {
            (s.0, (s.1 - 1) as usize)
        } else {
            ((s.0 - 1) as usize, isize::MAX as usize)
        };
        if p.1 == 0 {
            if p.0 == 0 {
                (true, v, s)
            } else {
                let q = ((p.0 - 1) as usize, isize::MAX as usize);
                let v3 = view_fetch(v, q.0);
                match bw_start(v3, breaks, q.0, q.1, w) {
                    None => (true, v3, s),
                    Some(c) => (false, v3, (q.0, c)),
                }
            }
        } else {
            let v2 = view_fetch(v, p.0);
            match bw_start(v2, breaks, p.0, p.1, w) {
                None => (true, v2, s),
                Some(c) => (false, v2, (p.0, c)),
            }
        }
    }
}

/// The start of the second display line of `p`, if it has one.
pub open spec fn second_start(p: BookPortion) -> Option<(usize, usize)> {
    if p.display_line_idxs@.len() >= 2 {
        Some(p.display_line_idxs@[1].get_start_spec())
    } else {
        None
    }
}

/// What scrolling down by up to `n` display lines gives, from a display
/// ending at `e` and starting at `s` (`second`: where its second line
/// starts, if it has one) over the view `v`: a failure or none; the view
/// after; and the display start after. A scroll that reaches the book's end
/// leaves the display as it was and the next is tried; the first that moves
/// the display ends the scrolling.
pub open spec fn down_scrolls(
    v: BookView,
    e: (usize, usize),
    s: (usize, usize),
    second: Option<(usize, usize)>,
    w: int,
    n: nat,
) -> (Result<(), ReadError>, BookView, (usize, usize))
    decreases n,
{
    if n == 0 {
        (Ok(()), v, s)
    } else {
        let step = down_step(v, e, w);
        match step.0 {
            Err(x) => (Err(x), step.1, s),
            Ok(false) => (Ok(()), step.1, match second {
                Some(t) => t,
                None => step.2,
            }),
            Ok(true) => down_scrolls(step.1, e, s, second, w, (n - 1) as nat),
        }
    }
}

/// What scrolling up by up to `n` display lines gives, from a display
/// starting at `s` over the view `v` with the breaks `breaks`: the view
/// after and the display start after. A scroll that reaches the book's start
/// leaves the display as it was and the next is tried; the first that moves
/// the display ends the scrolling.
pub open spec fn up_scrolls(v: BookView, breaks: Linebreaks, s: (usize, usize), w: int, n: nat) -> (BookView, (usize, usize))
    decreases n,
{
    if n == 0 {
        (v, s)
    } else {
        let step = up_step(v, breaks, s, w);
        if step.0 {
            up_scrolls(step.1, breaks, s, w, (n - 1) as nat)
        } else {
            (step.1, step.2)
        }
    }
}

impl BookText {
    pub fn new() -> (r: Self)
        ensures
            r.lines@.len() == 0,
    {
        Self { lines: VecDeque::new() }
    }

    /// The lines the portion displays.
    pub fn from_copy(portion: &BookPortion) -> (r: Self)
        ensures
            r.lines@ == portion.display_copy@,
    {
        Self { lines: copy_lines(&portion.display_copy) }
    }

    /// Shows the portion's lines again.
    pub fn no_op(&mut self, portion: &BookPortion)
        ensures
            final(self).lines@ == portion.display_copy@,
    {
        self.lines = copy_lines(&portion.display_copy);
    }

    /// `f` is `o` laid out afresh at the given size: the display lines laid
    /// out forwards from the display start (`forward_layout`), and, where the
    /// book ended before the page was full, those laid out backwards before
    /// it in front of them (`backward_fill`), the display start moving to the
    /// first of these. The breaks are exactly those the forward layout
    /// recorded from none, and the backward layout keeps to them; the display
    /// ends where the last line laid out forwards ends (where it ended before
    /// when there is none).
    pub open spec fn laid_out(o: BookPortion, f: BookPortion, width: u16, height: u16) -> bool {
        let fl = forward_layout(view_of(o.buffer), o.display_start, width as int, 0, height as nat);
        let bw = if fl.3 {
            backward_fill(fl.2, f.breaks, o.display_start, o.display_start, width as int, fl.0.len(), height as nat)
        } else {
            (Seq::<Seq<char>>::empty(), Seq::<DisplayLineIndex>::empty(), o.display_start)
        };
        &&& texts(f.display_copy@) == bw.0 + fl.0
        &&& f.display_line_idxs@ == bw.1 + fl.1
        &&& f.display_start == bw.2
        &&& holds_breaks(f.breaks, fl.4)
        &&& f.display_end == if fl.1.len() > 0 {
            fl.1.last().get_end_spec()
        } else {
            o.display_end
        }
    }

    /// What laying `p` out afresh at the given size fails with, if it does:
    /// the failure of laying out forwards from its display start.
    pub open spec fn jump_failure(p: BookPortion, width: u16, height: u16) -> Option<ReadError> {
        forward_failure(view_of(p.buffer), p.display_start, width as int, 0, height as nat)
    }

    /// The portion's display after a layout or a scroll: one index per line.
    pub open spec fn paired(p: BookPortion) -> bool {
        p.display_copy@.len() == p.display_line_idxs@.len()
    }

    /// Lays the portion out again at the given size.
    pub fn jump(&mut self, portion: &mut BookPortion, term_width: u16, term_height: u16) -> (r: Result<(), ReadError>)
        requires
            old(portion).wf(),
            old(portion).can_fetch(old(portion).display_start.0),
        ensures
            final(portion).wf(),
            final(portion).term_width == term_width,
            final(portion).term_height == term_height,
            final(portion).display_next == old(portion).display_next,
            r is Ok ==> final(self).lines@ == final(portion).display_copy@ && Self::paired(*final(portion)),
            r is Ok && term_height > 0 ==> final(portion).display_copy@.len() <= term_height,
            r is Ok && term_width > 0 ==> fits(final(portion).display_copy@, term_width as int),
            fails_as(r, Self::jump_failure(*old(portion), term_width, term_height)),
            r is Ok ==> Self::laid_out(*old(portion), *final(portion), term_width, term_height),
    {
        match Self::from_portion(portion, term_width, term_height) {
            Ok(new) => {
                *self = new;
                Ok(())
            },
            Err(e) => Err(e),
        }
    }

    /// Lays the portion out from its display start: display lines going
    /// forwards until the terminal height is filled or the book ends; when
    /// the book ends first, display lines going backwards before the start
    /// until the height is filled or the book's first line is reached.
    /// The line breaks are recorded afresh.
    #[verifier::rlimit(100)]
    #[verifier::spinoff_prover]
    pub fn from_portion(portion: &mut BookPortion, term_width: u16, term_height: u16) -> (r: Result<BookText, ReadError>)
        requires
            old(portion).wf(),
            old(portion).can_fetch(old(portion).display_start.0),
        ensures
            final(portion).wf(),
            final(portion).term_width == term_width,
            final(portion).term_height == term_height,
            final(portion).display_next == old(portion).display_next,
            r matches Ok(t) ==> t.lines@ == final(portion).display_copy@ && Self::paired(*final(portion)),
            r is Ok && term_height > 0 ==> final(portion).display_copy@.len() <= term_height,
            r is Ok && term_width > 0 ==> fits(final(portion).display_copy@, term_width as int),
            fails_as(r, Self::jump_failure(*old(portion), term_width, term_height)),
            r is Ok ==> Self::laid_out(*old(portion), *final(portion), term_width, term_height),
    {
        let ghost start_fail = forward_failure(view_of(old(portion).buffer), old(portion).display_start,
            term_width as int, 0, term_height as nat);
        let tw = term_width as usize;
        let th = term_height as usize;
        portion.term_width = tw;
        portion.term_height = th;
        portion.breaks = Linebreaks::new();
        portion.display_line_idxs = VecDeque::new();
        portion.display_copy = VecDeque::new();

        let mut display_lines: VecDeque<String> = VecDeque::new();
        let mut line_start = portion.display_start;
        let mut eof = false;
        let ghost fl = forward_layout(view_of(portion.buffer), line_start, tw as int, 0, th as nat);
        let ghost mut rec: Seq<(usize, usize)> = Seq::empty();
        proof {
            assert(rec + fl.4 =~= fl.4);
            assert(texts(display_lines@) =~= Seq::<Seq<char>>::empty());
            assert(texts(display_lines@) + fl.0 =~= fl.0);
            assert(portion.display_line_idxs@ + fl.1 =~= fl.1);
        }

        loop
            invariant_except_break
                th > 0 ==> display_lines@.len() < th,
                !eof,
                forward_failure(view_of(portion.buffer), line_start, tw as int, display_lines@.len() as nat, th as nat)
                    == start_fail,
                texts(display_lines@) + forward_layout(view_of(portion.buffer), line_start, tw as int,
                    display_lines@.len() as nat, th as nat).0 == fl.0,
                portion.display_line_idxs@ + forward_layout(view_of(portion.buffer), line_start, tw as int,
                    display_lines@.len() as nat, th as nat).1 == fl.1,
                forward_layout(view_of(portion.buffer), line_start, tw as int, display_lines@.len() as nat,
                    th as nat).2 == fl.2,
                forward_layout(view_of(portion.buffer), line_start, tw as int, display_lines@.len() as nat,
                    th as nat).3 == fl.3,
                rec + forward_layout(view_of(portion.buffer), line_start, tw as int, display_lines@.len() as nat,
                    th as nat).4 == fl.4,
            invariant
                fl == forward_layout(view_of(old(portion).buffer), old(portion).display_start, tw as int, 0, th as nat),
                holds_breaks(portion.breaks, rec),
                portion.display_end == if portion.display_line_idxs@.len() > 0 {
                    portion.display_line_idxs@.last().get_end_spec()
                } else {
                    old(portion).display_end
                },
                portion.wf(),
                portion.can_fetch(line_start.0),
                portion.term_width == tw,
                portion.term_height == th,
                tw == term_width,
                th == term_height,
                portion.display_next == old(portion).display_next,
                portion.display_start == old(portion).display_start,
                (portion.buffer is Local) == (old(portion).buffer is Local),
                display_lines@.len() == portion.display_line_idxs@.len(),
                th > 0 ==> display_lines@.len() <= th,
                tw > 0 ==> fits(display_lines@, tw as int),
                eof ==> th > 0 ==> display_lines@.len() < th,
                start_fail == Self::jump_failure(*old(portion), term_width, term_height),
            ensures
                start_fail is None,
                texts(display_lines@) == fl.0,
                portion.display_line_idxs@ == fl.1,
                view_of(portion.buffer) == fl.2,
                eof == fl.3,
                rec == fl.4,
            decreases usize::MAX - line_start.0, usize::MAX - line_start.1,
        {
            let ghost before = *portion;
            let ghost dl0 = display_lines@;
            let ghost ix0 = portion.display_line_idxs@;
            let ghost rest0 = forward_layout(view_of(before.buffer), line_start, tw as int, dl0.len() as nat, th as nat);
            let line = portion.get_line(line_start);
            proof {
                BookPortion::lemma_fetched_view(before, *portion, line_start.0);
            }
            match line {
                Err(e) => {
                    return Err(e);
                },
                Ok(LineReturnData::NonExistent) => {
                    eof = true;
                    proof {
                        assert(rec + Seq::<(usize, usize)>::empty() =~= rec);
                        assert(texts(display_lines@) + Seq::<Seq<char>>::empty() =~= texts(display_lines@));
                        assert(portion.display_line_idxs@ + Seq::<DisplayLineIndex>::empty() =~= portion.display_line_idxs@);
                    }
                    break;
                },
                Ok(LineReturnData::LineEnd) => {
                    line_start = (line_start.0 + 1, 0);
                },
                Ok(LineReturnData::LineEmpty) => {
                    portion.display_line_idxs.push_back(DisplayLineIndex::empty_line(line_start.0));
                    display_lines.push_back(String::new());
                    portion.display_end = line_start;
                    line_start = (line_start.0 + 1, 0);
                    proof {
                        assert(texts(display_lines@) =~= texts(dl0) + seq![Seq::<char>::empty()]);
                        assert(portion.display_line_idxs@ =~= ix0 + seq![rest0.1[0]]);
                        if display_lines@.len() != th {
                            let rest1 = forward_layout(view_of(portion.buffer), line_start, tw as int,
                                display_lines@.len() as nat, th as nat);
                            assert(texts(display_lines@) + rest1.0 =~= texts(dl0) + rest0.0);
                            assert(portion.display_line_idxs@ + rest1.1 =~= ix0 + rest0.1);
                        } else {
                            assert(texts(display_lines@) =~= texts(dl0) + rest0.0);
                            assert(portion.display_line_idxs@ =~= ix0 + rest0.1);
                            assert(rec + Seq::<(usize, usize)>::empty() =~= rec);
                        }
                    }
                    if display_lines.len() == th {
                        break;
                    }
                },
                Ok(LineReturnData::LineExists(line)) => {
                    proof {
                        if tw > 0 {
                            law_forward_piece_fits(portion.line_text(line_start.0), line_start.1 as int, tw as int);
                        }
                    }
                    portion.display_line_idxs.push_back(
                        DisplayLineIndex::from_pairs(line_start, (line.line_no, line.line_char)),
                    );
                    display_lines.push_back(line.line);
                    portion.display_end = (line.line_no, line.line_char);
                    if !next_start_fits_exec(line.line_char) {
                        return Err(ReadError::PositionOverflow);
                    }
                    let ghost rec0 = rec;
                    proof {
                        if fw_breaks(portion.line_text(line_start.0), line_start.1 as int, tw as int) {
                            lemma_breaks_push(before.breaks, portion.breaks, rec, line_start.0, line.line_char);
                            rec = rec.push((line_start.0, line.line_char));
                        }
                    }
                    line_start = (line.line_no, line.line_char + 2);
                    proof {
                        assert(texts(display_lines@) =~= texts(dl0) + seq![rest0.0[0]]);
                        assert(portion.display_line_idxs@ =~= ix0 + seq![rest0.1[0]]);
                        if display_lines@.len() != th {
                            let rest1 = forward_layout(view_of(portion.buffer), line_start, tw as int,
                                display_lines@.len() as nat, th as nat);
                            assert(texts(display_lines@) + rest1.0 =~= texts(dl0) + rest0.0);
                            assert(portion.display_line_idxs@ + rest1.1 =~= ix0 + rest0.1);
                            assert(rec + rest1.4 =~= rec0 + rest0.4);
                        } else {
                            assert(texts(display_lines@) =~= texts(dl0) + rest0.0);
                            assert(portion.display_line_idxs@ =~= ix0 + rest0.1);
                            assert(rec =~= rec0 + rest0.4);
                        }
                    }
                    if display_lines.len() == th {
                        break;
                    }
                },
                Ok(LineReturnData::BackwardsLineExists { .. }) => {
                    proof {
                        // a forward cut never gives this
                        assert(false);
                    }
                    break;
                },
            }
        }

        // If we hit eof, it's possible that more lines should be rendered before the first line.
        let ghost f0 = texts(display_lines@);
        let ghost i0 = portion.display_line_idxs@;
        let ghost br0 = portion.breaks;
        let ghost de0 = portion.display_end;
        let ghost bw = if eof {
            backward_fill(view_of(portion.buffer), portion.breaks, portion.display_start, portion.display_start,
                tw as int, display_lines@.len() as nat, th as nat)
        } else {
            (Seq::<Seq<char>>::empty(), Seq::<DisplayLineIndex>::empty(), portion.display_start)
        };
        proof {
            if !eof {
                assert(bw.0 + f0 =~= f0);
                assert(bw.1 + i0 =~= i0);
            }
        }
        // If we hit eof, it's possible that more lines should be rendered before the first line.
        if eof {
            let mut line_end = portion.display_start;
            loop
                invariant_except_break
                    th > 0 ==> display_lines@.len() < th,
                    backward_fill(view_of(portion.buffer), portion.breaks, line_end, portion.display_start, tw as int,
                        display_lines@.len() as nat, th as nat).0 + texts(display_lines@) == bw.0 + f0,
                    backward_fill(view_of(portion.buffer), portion.breaks, line_end, portion.display_start, tw as int,
                        display_lines@.len() as nat, th as nat).1 + portion.display_line_idxs@ == bw.1 + i0,
                    backward_fill(view_of(portion.buffer), portion.breaks, line_end, portion.display_start, tw as int,
                        display_lines@.len() as nat, th as nat).2 == bw.2,
                invariant
                    portion.wf(),
                    portion.can_fetch(line_end.0),
                    portion.term_width == tw,
                    portion.term_height == th,
                    portion.display_next == old(portion).display_next,
                    display_lines@.len() == portion.display_line_idxs@.len(),
                    th > 0 ==> display_lines@.len() <= th,
                    tw > 0 ==> fits(display_lines@, tw as int),
                    portion.breaks == br0,
                    portion.display_end == de0,
                ensures
                    texts(display_lines@) == bw.0 + f0,
                    portion.display_line_idxs@ == bw.1 + i0,
                    portion.display_start == bw.2,
                decreases line_end.0,
            {
                let ghost before = *portion;
                let ghost dl0 = display_lines@;
                let ghost ix0 = portion.display_line_idxs@;
                let ghost e0 = line_end;
                let ghost rest0 = backward_fill(view_of(before.buffer), before.breaks, line_end, before.display_start,
                    tw as int, dl0.len() as nat, th as nat);
                let prev_line = portion.get_line_backwards(line_end);
                proof {
                    if line_end.1 != 0 {
                        BookPortion::lemma_fetched_view(before, *portion, line_end.0);
                    }
                }
                match prev_line {
                    LineReturnData::NonExistent => {
                        proof {
                            assert(rest0.0 + texts(display_lines@) =~= texts(display_lines@));
                            assert(rest0.1 + portion.display_line_idxs@ =~= portion.display_line_idxs@);
                        }
                        break;
                    },
                    LineReturnData::LineEnd => {
                        if line_end.0 == 0 {
                            proof {
                                assert(rest0.0 + texts(display_lines@) =~= texts(display_lines@));
                                assert(rest0.1 + portion.display_line_idxs@ =~= portion.display_line_idxs@);
                            }
                            break;
                        }
                        line_end = (line_end.0 - 1, isize::MAX as usize);
                    },
                    LineReturnData::LineEmpty => {
                        portion.display_line_idxs.push_front(DisplayLineIndex::empty_line(line_end.0));
                        display_lines.push_front(String::new());
                        portion.display_start = line_end;
                        proof {
                            assert(texts(display_lines@) =~= seq![Seq::<char>::empty()] + texts(dl0));
                        }
                        if line_end.0 == 0 {
                            proof {
                                assert(texts(display_lines@) =~= rest0.0 + texts(dl0));
                                assert(portion.display_line_idxs@ =~= rest0.1 + ix0);
                            }
                            break;
                        }
                        line_end = (line_end.0 - 1, isize::MAX as usize);
                        proof {
                            if display_lines@.len() == th {
                                assert(texts(display_lines@) =~= rest0.0 + texts(dl0));
                                assert(portion.display_line_idxs@ =~= rest0.1 + ix0);
                            } else {
                                let rest1 = backward_fill(view_of(portion.buffer), portion.breaks, line_end,
                                    portion.display_start, tw as int, display_lines@.len() as nat, th as nat);
                                assert(rest1.0 + texts(display_lines@) =~= rest0.0 + texts(dl0));
                                assert(rest1.1 + portion.display_line_idxs@ =~= rest0.1 + ix0);
                            }
                        }
                        if display_lines.len() == th {
                            break;
                        }
                    },
                    LineReturnData::BackwardsLineExists { line, last_char_idx } => {
                        proof {
                            if tw > 0 {
                                let cs = portion.line_text(line_end.0);
                                let bl = vstd::utf8::encode_utf8(cs).len() as int;
                                let e2 = clamp_end(bl, line_end.1 as int);
                                law_backward_piece_fits(cs, e2, prev_break(portion.breaks.of_line(line_end.0), e2), tw as int);
                            }
                        }
                        portion.display_line_idxs.push_front(
                            DisplayLineIndex::from_pairs((line.line_no, line.line_char), (line_end.0, last_char_idx)),
                        );
                        let start = (line.line_no, line.line_char);
                        display_lines.push_front(line.line);
                        portion.display_start = start;
                        proof {
                            assert(texts(display_lines@) =~= seq![rest0.0.last()] + texts(dl0));
                        }
                        if line_end.0 == 0 {
                            proof {
                                assert(texts(display_lines@) =~= rest0.0 + texts(dl0));
                                assert(portion.display_line_idxs@ =~= rest0.1 + ix0);
                            }
                            break;
                        }
                        line_end = (line_end.0 - 1, isize::MAX as usize);
                        proof {
                            if display_lines@.len() == th {
                                assert(texts(display_lines@) =~= rest0.0 + texts(dl0));
                                assert(portion.display_line_idxs@ =~= rest0.1 + ix0);
                            } else {
                                let rest1 = backward_fill(view_of(portion.buffer), portion.breaks, line_end,
                                    portion.display_start, tw as int, display_lines@.len() as nat, th as nat);
                                assert(rest1.0 + texts(display_lines@) =~= rest0.0 + texts(dl0));
                                assert(rest1.1 + portion.display_line_idxs@ =~= rest0.1 + ix0);
                            }
                        }
                        if display_lines.len() == th {
                            break;
                        }
                    },
                    LineReturnData::LineExists(_) => {
                        proof {
                            // a backward cut never gives this
                            assert(false);
                        }
                        break;
                    },
                }
            }
        }
        portion.display_copy = display_lines;
        Ok(Self::from_copy(portion))
    }
}

impl BookText {
    /// What scrolling needs of the portion: a laid-out display of at least one line.
    pub open spec fn can_scroll(p: BookPortion) -> bool {
        &&& p.wf()
        &&& Self::paired(p)
        &&& p.display_line_idxs@.len() >= 1
    }

    /// Scrolls the portion down one display line: the display line after its
    /// end is added at the bottom and the top one dropped. Returns the new
    /// text and whether the book's end was reached, in which case the display
    /// is left as it was.
    #[verifier::rlimit(60)]
    #[verifier::spinoff_prover]
    pub fn portion_scroll_down(portion: &mut BookPortion) -> (r: Result<(Self, bool), ReadError>)
        requires
            Self::can_scroll(*old(portion)),
            old(portion).can_fetch(old(portion).display_end.0),
        ensures
            Self::can_scroll(*final(portion)),
            final(portion).term_width == old(portion).term_width,
            final(portion).term_height == old(portion).term_height,
            final(portion).display_next == old(portion).display_next,
            (final(portion).buffer is Local) == (old(portion).buffer is Local),
            r matches Ok((t, eof)) ==> t.lines@ == final(portion).display_copy@,
            r matches Ok((t, eof)) ==> eof ==> BookPortion::same_layout(*old(portion), *final(portion)),
            old(portion).term_width > 0 && fits(old(portion).display_copy@, old(portion).term_width as int)
                ==> fits(final(portion).display_copy@, old(portion).term_width as int),
            r matches Ok((t, eof)) ==> !eof ==> {
                &&& final(portion).display_copy@.drop_last() == old(portion).display_copy@.drop_first()
                &&& final(portion).display_line_idxs@.drop_last() == old(portion).display_line_idxs@.drop_first()
                &&& final(portion).display_start == final(portion).display_line_idxs@[0].get_start_spec()
                &&& final(portion).display_end == final(portion).display_line_idxs@.last().get_end_spec()
                &&& final(portion).display_line_idxs@.last().get_start_spec()
                    == down_step(view_of(old(portion).buffer), old(portion).display_end, old(portion).term_width as int).2
            },
            match r {
                Ok((_, eof)) => down_step(view_of(old(portion).buffer), old(portion).display_end, old(portion).term_width as int).0
                    == Ok::<bool, ReadError>(eof),
                Err(e) => down_step(view_of(old(portion).buffer), old(portion).display_end, old(portion).term_width as int).0
                    == Err::<bool, ReadError>(e),
            },
            r is Ok ==> view_of(final(portion).buffer)
                == down_step(view_of(old(portion).buffer), old(portion).display_end, old(portion).term_width as int).1,
    {
        if !next_start_fits_exec(portion.display_end.1) {
            return Err(ReadError::PositionOverflow);
        }
        // Add new line:
        let mut new_start = (portion.display_end.0, portion.display_end.1 + 2);
        let ghost before = *portion;
        let add_line_data = portion.get_line(new_start);
        proof {
            BookPortion::lemma_fetched_view(before, *portion, new_start.0);
        }
        match add_line_data {
            Err(e) => {
                return Err(e);
            },
            Ok(LineReturnData::NonExistent) => {
                return Ok((Self::from_copy(portion), true));
            },
            Ok(LineReturnData::LineEnd) | Ok(LineReturnData::LineEmpty) => {
                new_start = (new_start.0 + 1, 0);
                let ghost mid = *portion;
                let data = portion.get_line(new_start);
                proof {
                    BookPortion::lemma_fetched_view(mid, *portion, new_start.0);
                }
                match data {
                    Err(e) => {
                        return Err(e);
                    },
                    Ok(LineReturnData::NonExistent) => {
                        return Ok((Self::from_copy(portion), true));
                    },
                    Ok(LineReturnData::LineEmpty) => {
                        portion.display_copy.push_back(String::new());
                        portion.display_line_idxs.push_back(DisplayLineIndex::empty_line(new_start.0));
                        portion.display_end = new_start;
                    },
                    Ok(LineReturnData::LineExists(l)) => {
                        proof {
                            if portion.term_width > 0 {
                                law_forward_piece_fits(portion.line_text(new_start.0), new_start.1 as int, portion.term_width as int);
                            }
                        }
                        portion.display_copy.push_back(l.line);
                        portion.display_line_idxs.push_back(
                            DisplayLineIndex::from_pairs(new_start, (l.line_no, l.line_char)),
                        );
                        portion.display_end = (l.line_no, l.line_char);
                    },
                    Ok(_) => {
                        proof {
                            // a forward cut from a line's start never gives anything else
                            assert(false);
                        }
                        return Ok((Self::from_copy(portion), true));
                    },
                }
            },
            Ok(LineReturnData::LineExists(l)) => {
                proof {
                    if portion.term_width > 0 {
                        law_forward_piece_fits(portion.line_text(new_start.0), new_start.1 as int, portion.term_width as int);
                    }
                }
                portion.display_copy.push_back(l.line);
                portion.display_line_idxs.push_back(
                    DisplayLineIndex::from_pairs(new_start, (l.line_no, l.line_char)),
                );
                portion.display_end = (l.line_no, l.line_char);
            },
            Ok(LineReturnData::BackwardsLineExists { .. }) => {
                proof {
                    // a forward cut never gives this
                    assert(false);
                }
                return Ok((Self::from_copy(portion), true));
            },
        }
        // Remove line:
        let ghost mid_copy = portion.display_copy@;
        portion.display_line_idxs.pop_front();
        portion.display_start = portion.display_line_idxs[0].get_start();
        portion.display_copy.pop_front();
        proof {
            if old(portion).term_width > 0 && fits(old(portion).display_copy@, old(portion).term_width as int) {
                assert forall|k: int| 0 <= k < portion.display_copy@.len() implies (#[trigger] portion.display_copy@[k])@.len()
                    <= old(portion).term_width by {
                    assert(portion.display_copy@[k] == mid_copy[k + 1]);
                }
            }
            assert(portion.display_copy@.drop_last() =~= old(portion).display_copy@.drop_first());
            assert(portion.display_line_idxs@.drop_last() =~= old(portion).display_line_idxs@.drop_first());
        }
        Ok((Self::from_copy(portion), false))
    }

    /// Scrolls the portion up one display line: the display line before its
    /// start is added at the top and the bottom one dropped. Returns the new
    /// text and whether the book's start was reached, in which case the
    /// display is left as it was.
    #[verifier::rlimit(60)]
    #[verifier::spinoff_prover]
    pub fn portion_scroll_up(portion: &mut BookPortion) -> (r: Result<(Self, bool), ReadError>)
        requires
            Self::can_scroll(*old(portion)),
            old(portion).can_fetch(old(portion).display_start.0),
        ensures
            Self::can_scroll(*final(portion)),
            final(portion).term_width == old(portion).term_width,
            final(portion).term_height == old(portion).term_height,
            final(portion).display_next == old(portion).display_next,
            (final(portion).buffer is Local) == (old(portion).buffer is Local),
            final(portion).breaks == old(portion).breaks,
            r matches Ok((t, eof)) ==> t.lines@ == final(portion).display_copy@,
            r matches Ok((t, eof)) ==> eof ==> BookPortion::same_layout(*old(portion), *final(portion)),
            old(portion).term_width > 0 && fits(old(portion).display_copy@, old(portion).term_width as int)
                ==> fits(final(portion).display_copy@, old(portion).term_width as int),
            r matches Ok((t, eof)) ==> !eof ==> {
                &&& final(portion).display_copy@.drop_first() == old(portion).display_copy@.drop_last()
                &&& final(portion).display_line_idxs@.drop_first() == old(portion).display_line_idxs@.drop_last()
                &&& final(portion).display_end == final(portion).display_line_idxs@.last().get_end_spec()
                &&& final(portion).display_start == up_step(view_of(old(portion).buffer), old(portion).breaks,
                    old(portion).display_start, old(portion).term_width as int).2
            },
            r matches Ok((_, eof)) && eof == up_step(view_of(old(portion).buffer), old(portion).breaks,
                old(portion).display_start, old(portion).term_width as int).0,
            view_of(final(portion).buffer) == up_step(view_of(old(portion).buffer), old(portion).breaks,
                old(portion).display_start, old(portion).term_width as int).1,
    {
        // Add new line:
        let mut new_start = if portion.display_start.1 != 0 {
            (portion.display_start.0, portion.display_start.1 - 1)
        } else {
            if portion.display_start.0 == 0 {
                return Ok((Self::from_copy(portion), true));
            }
            // Because of how the code works, it's safe to input a large number for the line end.
            // Avoiding using usize::MAX as the value may be incremented in the function.
            (portion.display_start.0 - 1, isize::MAX as usize)
        };
        let ghost before = *portion;
        let add_line_data = portion.get_line_backwards(new_start);
        proof {
            if new_start.1 != 0 {
                BookPortion::lemma_fetched_view(before, *portion, new_start.0);
            }
        }
        match add_line_data {
            LineReturnData::NonExistent => {
                return Ok((Self::from_copy(portion), true));
            },
            LineReturnData::LineEnd => {
                if new_start.0 == 0 {
                    return Ok((Self::from_copy(portion), true));
                }
                new_start = (new_start.0 - 1, isize::MAX as usize);
                let ghost mid = *portion;
                let data = portion.get_line_backwards(new_start);
                proof {
                    BookPortion::lemma_fetched_view(mid, *portion, new_start.0);
                }
                match data {
                    LineReturnData::NonExistent => {
                        return Ok((Self::from_copy(portion), true));
                    },
                    LineReturnData::LineEmpty => {
                        portion.display_copy.push_front(String::new());
                        portion.display_line_idxs.push_front(DisplayLineIndex::empty_line(new_start.0));
                        portion.display_start = (new_start.0, 0);
                    },
                    LineReturnData::BackwardsLineExists { line, last_char_idx } => {
                        proof {
                            if portion.term_width > 0 {
                                let cs = portion.line_text(new_start.0);
                                let bl = vstd::utf8::encode_utf8(cs).len() as int;
                                let e2 = clamp_end(bl, new_start.1 as int);
                                law_backward_piece_fits(cs, e2, prev_break(portion.breaks.of_line(new_start.0), e2), portion.term_width as int);
                            }
                        }
                        portion.display_line_idxs.push_front(
                            DisplayLineIndex::from_pairs((line.line_no, line.line_char), (line.line_no, last_char_idx)),
                        );
                        portion.display_start = (new_start.0, line.line_char);
                        portion.display_copy.push_front(line.line);
                    },
                    _ => {
                        proof {
                            // a backward cut from a line's end never gives anything else
                            assert(false);
                        }
                        return Ok((Self::from_copy(portion), true));
                    },
                }
            },
            LineReturnData::LineEmpty => {
                portion.display_copy.push_front(String::new());
                portion.display_line_idxs.push_front(DisplayLineIndex::empty_line(new_start.0));
                portion.display_start = (new_start.0, 0);
            },
            LineReturnData::BackwardsLineExists { line, last_char_idx } => {
                proof {
                    if portion.term_width > 0 {
                        let cs = portion.line_text(new_start.0);
                        let bl = vstd::utf8::encode_utf8(cs).len() as int;
                        let e2 = clamp_end(bl, new_start.1 as int);
                        law_backward_piece_fits(cs, e2, prev_break(portion.breaks.of_line(new_start.0), e2), portion.term_width as int);
                    }
                }
                portion.display_line_idxs.push_front(
                    DisplayLineIndex::from_pairs((line.line_no, line.line_char), (line.line_no, last_char_idx)),
                );
                portion.display_start = (line.line_no, line.line_char);
                portion.display_copy.push_front(line.line);
            },
            LineReturnData::LineExists(_) => {
                proof {
                    // a backward cut never gives this
                    assert(false);
                }
                return Ok((Self::from_copy(portion), true));
            },
        }
        // Remove line:
        let ghost mid_copy = portion.display_copy@;
        portion.display_line_idxs.pop_back();
        let last = portion.display_line_idxs.len() - 1;
        portion.display_end = portion.display_line_idxs[last].get_end();
        portion.display_copy.pop_back();
        proof {
            if old(portion).term_width > 0 && fits(old(portion).display_copy@, old(portion).term_width as int) {
                assert forall|k: int| 0 <= k < portion.display_copy@.len() implies (#[trigger] portion.display_copy@[k])@.len()
                    <= old(portion).term_width by {
                    assert(portion.display_copy@[k] == mid_copy[k]);
                }
            }
            assert(portion.display_copy@.drop_first() =~= old(portion).display_copy@.drop_last());
            assert(portion.display_line_idxs@.drop_first() =~= old(portion).display_line_idxs@.drop_last());
        }
        Ok((Self::from_copy(portion), false))
    }

    /// What laying out the portion as its next display asks needs: a well
    /// formed portion, and what the jump or the scroll needs.
    pub open spec fn render_ok(p: BookPortion) -> bool {
        &&& p.wf()
        &&& match p.display_next {
            NextDisplay::NoOp => true,
            NextDisplay::Jump => p.can_fetch(p.display_start.0),
            NextDisplay::ScrollDown(_) => Self::can_scroll(p) && p.can_fetch(p.display_end.0),
            NextDisplay::ScrollUp(_) => Self::can_scroll(p) && p.can_fetch(p.display_start.0),
        }
    }

    /// Whether the portion can be laid out (see `render_ok`).
    pub fn can_render(p: &BookPortion) -> (r: bool)
        ensures
            r == Self::render_ok(*p),
    {
        let wf = match &p.buffer {
            BufferType::Local(b) => b.is_wf(),
            BufferType::Global(_) => true,
        };
        let local = matches!(p.buffer, BufferType::Local(_));
        let scrollable = p.display_copy.len() == p.display_line_idxs.len() && p.display_line_idxs.len() >= 1;
        wf && match p.display_next {
            NextDisplay::NoOp => true,
            NextDisplay::Jump => !local || p.display_start.0 <= usize::MAX - 150,
            NextDisplay::ScrollDown(_) => scrollable && (!local || p.display_end.0 <= usize::MAX - 150),
            NextDisplay::ScrollUp(_) => scrollable && (!local || p.display_start.0 <= usize::MAX - 150),
        }
    }

    /// What laying out afresh a display starting at `s` over the view `v`,
    /// after a step that left it laid out for an area of `tw` by `th`, fails
    /// with at an area of `width` by `height`: nothing when the size is the
    /// same; `PositionOverflow` for a local book's line too far into the
    /// numbers; else what laying out forwards from `s` fails with.
    pub open spec fn resize_failure(v: BookView, s: (usize, usize), tw: usize, th: usize, width: u16, height: u16) -> Option<ReadError> {
        if tw == width && th == height {
            None
        } else if v.0 && s.0 > usize::MAX - 150 {
            Some(ReadError::PositionOverflow)
        } else {
            forward_failure(v, s, width as int, 0, height as nat)
        }
    }

    /// What laying `p` out as its next display asks fails with, if it does:
    /// the jump's, the scroll's, or that of laying out afresh after it when
    /// the area's size changed.
    pub open spec fn render_failure(p: BookPortion, width: u16, height: u16) -> Option<ReadError> {
        let v = view_of(p.buffer);
        match p.display_next {
            NextDisplay::NoOp => Self::resize_failure(v, p.display_start, p.term_width, p.term_height, width, height),
            NextDisplay::Jump => Self::jump_failure(p, width, height),
            NextDisplay::ScrollDown(n) => {
                let out = down_scrolls(v, p.display_end, p.display_start, second_start(p), p.term_width as int, n as nat);
                match out.0 {
                    Err(x) => Some(x),
                    Ok(_) => Self::resize_failure(out.1, out.2, p.term_width, p.term_height, width, height),
                }
            },
            NextDisplay::ScrollUp(n) => {
                let out = up_scrolls(v, p.breaks, p.display_start, p.term_width as int, n as nat);
                Self::resize_failure(out.0, out.1, p.term_width, p.term_height, width, height)
            },
        }
    }

    /// Lays the portion out as its next display asks (keeps it, lays it out
    /// afresh, or scrolls it), then afresh if the area's size changed, and
    /// takes its lines. A layout afresh needed from a line too far into the
    /// numbers gives `PositionOverflow`.
    pub fn render_step(&mut self, portion: &mut BookPortion, width: u16, height: u16) -> (r: Result<(), ReadError>)
        requires
            Self::render_ok(*old(portion)),
        ensures
            final(portion).wf(),
            final(portion).display_next == old(portion).display_next,
            r is Ok ==> final(self).lines@ == final(portion).display_copy@,
            r is Ok ==> final(portion).term_width == width && final(portion).term_height == height,
            r is Ok && (old(portion).display_next is Jump || old(portion).term_width != width
                || old(portion).term_height != height) ==> Self::paired(*final(portion)),
            fails_as(r, Self::render_failure(*old(portion), width, height)),
            r is Ok && old(portion).display_next is Jump ==> Self::laid_out(*old(portion), *final(portion), width, height),
    {
        match portion.display_next {
            NextDisplay::NoOp => self.no_op(portion),
            NextDisplay::Jump => {
                match self.jump(portion, width, height) {
                    Ok(()) => {},
                    Err(e) => return Err(e),
                }
            },
            NextDisplay::ScrollDown(scrolls) => {
                match self.scroll_down(portion, scrolls) {
                    Ok(()) => {},
                    Err(e) => return Err(e),
                }
            },
            NextDisplay::ScrollUp(scrolls) => {
                match self.scroll_up(portion, scrolls) {
                    Ok(()) => {},
                    Err(e) => return Err(e),
                }
            },
        }
        if portion.term_width != width as usize || portion.term_height != height as usize {
            let local = matches!(portion.buffer, BufferType::Local(_));
            if local && portion.display_start.0 > usize::MAX - 150 {
                return Err(ReadError::PositionOverflow);
            }
            return self.jump(portion, width, height);
        }
        Ok(())
    }

    /// Scrolls down by up to `scrolls` display lines; stops after the first
    /// one that moves the display (and keeps trying while the end is reached).
    pub fn scroll_down(&mut self, portion: &mut BookPortion, scrolls: usize) -> (r: Result<(), ReadError>)
        requires
            Self::can_scroll(*old(portion)),
            old(portion).can_fetch(old(portion).display_end.0),
        ensures
            Self::can_scroll(*final(portion)),
            final(portion).display_next == old(portion).display_next,
            final(portion).term_width == old(portion).term_width,
            final(portion).term_height == old(portion).term_height,
            r is Ok ==> final(self).lines@ == final(portion).display_copy@,
            old(portion).term_width > 0 && fits(old(portion).display_copy@, old(portion).term_width as int)
                ==> fits(final(portion).display_copy@, old(portion).term_width as int),
            match down_scrolls(view_of(old(portion).buffer), old(portion).display_end, old(portion).display_start,
                second_start(*old(portion)), old(portion).term_width as int, scrolls as nat).0 {
                Ok(_) => r is Ok,
                Err(x) => r == Err::<(), ReadError>(x),
            },
            r is Ok ==> (view_of(final(portion).buffer), final(portion).display_start) == {
                let out = down_scrolls(view_of(old(portion).buffer), old(portion).display_end,
                    old(portion).display_start, second_start(*old(portion)), old(portion).term_width as int, scrolls as nat);
                (out.1, out.2)
            },
    {
        let ghost out = down_scrolls(view_of(old(portion).buffer), old(portion).display_end, old(portion).display_start,
            second_start(*old(portion)), old(portion).term_width as int, scrolls as nat);
        let mut i: usize = 0;
        while i < scrolls
            invariant
                Self::can_scroll(*portion),
                portion.can_fetch(portion.display_end.0),
                portion.term_height == old(portion).term_height,
                portion.display_end == old(portion).display_end,
                portion.display_start == old(portion).display_start,
                portion.display_line_idxs@ == old(portion).display_line_idxs@,
                i <= scrolls,
                out == down_scrolls(view_of(old(portion).buffer), old(portion).display_end, old(portion).display_start,
                    second_start(*old(portion)), old(portion).term_width as int, scrolls as nat),
                down_scrolls(view_of(portion.buffer), old(portion).display_end, old(portion).display_start,
                    second_start(*old(portion)), old(portion).term_width as int, (scrolls - i) as nat) == out,
                portion.display_next == old(portion).display_next,
                portion.term_width == old(portion).term_width,
                old(portion).term_width > 0 && fits(old(portion).display_copy@, old(portion).term_width as int)
                    ==> fits(portion.display_copy@, old(portion).term_width as int),
            decreases scrolls - i,
        {
            let ghost before = *portion;
            match Self::portion_scroll_down(portion) {
                Err(e) => {
                    return Err(e);
                },
                Ok((_, eof)) => {
                    if !eof {
                        proof {
                            let (a, b) = (before.display_line_idxs@, portion.display_line_idxs@);
                            assert(b.drop_last().len() == a.drop_first().len());
                            if a.len() >= 2 {
                                assert(b[0] == b.drop_last()[0]);
                                assert(a.drop_first()[0] == a[1]);
                            } else {
                                assert(b.len() == 1);
                                assert(b[0] == b.last());
                            }
                        }
                        *self = Self::from_copy(portion);
                        return Ok(());
                    }
                },
            }
            i = i + 1;
        }
        *self = Self::from_copy(portion);
        Ok(())
    }

    /// Scrolls up by up to `scrolls` display lines; stops after the first one
    /// that moves the display (and keeps trying while the start is reached).
    pub fn scroll_up(&mut self, portion: &mut BookPortion, scrolls: usize) -> (r: Result<(), ReadError>)
        requires
            Self::can_scroll(*old(portion)),
            old(portion).can_fetch(old(portion).display_start.0),
        ensures
            Self::can_scroll(*final(portion)),
            final(portion).display_next == old(portion).display_next,
            final(portion).term_width == old(portion).term_width,
            final(portion).term_height == old(portion).term_height,
            r is Ok,
            final(self).lines@ == final(portion).display_copy@,
            old(portion).term_width > 0 && fits(old(portion).display_copy@, old(portion).term_width as int)
                ==> fits(final(portion).display_copy@, old(portion).term_width as int),
            (view_of(final(portion).buffer), final(portion).display_start) == up_scrolls(view_of(old(portion).buffer),
                old(portion).breaks, old(portion).display_start, old(portion).term_width as int, scrolls as nat),
    {
        let ghost out = up_scrolls(view_of(old(portion).buffer), old(portion).breaks, old(portion).display_start,
            old(portion).term_width as int, scrolls as nat);
        let mut i: usize = 0;
        while i < scrolls
            invariant
                Self::can_scroll(*portion),
                portion.can_fetch(portion.display_start.0),
                portion.term_height == old(portion).term_height,
                portion.display_start == old(portion).display_start,
                portion.breaks == old(portion).breaks,
                i <= scrolls,
                out == up_scrolls(view_of(old(portion).buffer), old(portion).breaks, old(portion).display_start,
                    old(portion).term_width as int, scrolls as nat),
                up_scrolls(view_of(portion.buffer), old(portion).breaks, old(portion).display_start,
                    old(portion).term_width as int, (scrolls - i) as nat) == out,
                portion.display_next == old(portion).display_next,
                portion.term_width == old(portion).term_width,
                old(portion).term_width > 0 && fits(old(portion).display_copy@, old(portion).term_width as int)
                    ==> fits(portion.display_copy@, old(portion).term_width as int),
            decreases scrolls - i,
        {
            match Self::portion_scroll_up(portion) {
                Err(e) => {
                    return Err(e);
                },
                Ok((_, eof)) => {
                    if !eof {
                        *self = Self::from_copy(portion);
                        return Ok(());
                    }
                },
            }
            i = i + 1;
        }
        *self = Self::from_copy(portion);
        Ok(())
    }
}

/// Whether the next display line can start two characters after `c`.
pub fn next_start_fits_exec(c: usize) -> (r: bool)
    ensures
        r == next_start_fits(c),
{
    c < usize::MAX - 1
}

} // verus!
