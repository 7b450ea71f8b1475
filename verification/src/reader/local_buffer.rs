use std::collections::VecDeque;
use vstd::prelude::*;

verus! {

/// A buffer's state: first and last file line held, and the lines held.
pub type BufState = (usize, usize, Seq<String>);

/// `remove_lines_front` on a buffer state.
pub open spec fn spec_remove_front(st: BufState, n: usize) -> BufState {
    let (s, e, b) = st;
    if e < s {
        st
    } else if e - s + 1 <= n {
        ((e + 1) as usize, e, Seq::empty())
    } else {
        ((s + n) as usize, e, b.skip(n as int))
    }
}

/// `remove_lines_back` on a buffer state.
pub open spec fn spec_remove_back(st: BufState, n: usize) -> BufState {
    let (s, e, b) = st;
    if e < s {
        st
    } else if e - s + 1 <= n {
        if s == 0 {
            (1, 0, Seq::empty())
        } else {
            (s, (s - 1) as usize, Seq::empty())
        }
    } else {
        (s, (e - n) as usize, b.take(b.len() - n))
    }
}

/// How many lines of `file` are read from line `from` on, at most `n`.
pub open spec fn lines_available(file: Seq<String>, from: int, n: int) -> int {
    if file.len() <= from {
        0
    } else if file.len() - from < n {
        file.len() - from
    } else {
        n
    }
}

/// `add_lines_back` on a buffer state: the next lines of the file after the
/// last one held, at most `n`.
pub open spec fn spec_add_back(st: BufState, n: usize, file: Seq<String>) -> BufState {
    let (s, e, b) = st;
    let from = e + 1;
    let k = lines_available(file, from, n as int);
    if k == 0 {
        st
    } else {
        (s, (e + k) as usize, b + file.subrange(from, from + k))
    }
}

/// Where `add_lines_front` starts reading the file.
pub open spec fn front_from(s: usize, n: usize) -> int {
    if n > s {
        0
    } else {
        s - n
    }
}

/// `add_lines_front` on a buffer state: the lines of the file before the
/// first one held, at most `n`, in front of it in the file's order.
pub open spec fn spec_add_front(st: BufState, n: usize, file: Seq<String>) -> BufState {
    let (s, e, b) = st;
    let from = front_from(s, n);
    let k = lines_available(file, from, n as int);
    if k == 0 {
        st
    } else {
        ((s - k) as usize, e, file.subrange(from, from + k) + b)
    }
}

/// A buffer read from `file` from line `start` to `end` (or to the file's end).
pub open spec fn spec_new(file: Seq<String>, start: usize, end: usize) -> BufState {
    if file.len() <= start {
        (1, 0, Seq::empty())
    } else {
        let k = lines_available(file, start as int, end - start + 1);
        (start, (start + k - 1) as usize, file.subrange(start as int, start + k))
    }
}

/// The lines `surround_line` wants held around `line`: from 50 before it to 150 after it.
pub open spec fn surround_bounds(line: usize) -> (usize, usize) {
    (if line < 50 {
        0
    } else {
        (line - 50) as usize
    }, (line + 150) as usize)
}

/// `surround_line` on a buffer state: a fresh read when the start moves by more
/// than 30 lines, else lines taken off or added at each end.
pub open spec fn spec_surround(st: BufState, line: usize, file: Seq<String>) -> BufState {
    let (start, end) = surround_bounds(line);
    let (s, e, b) = st;
    let diff = if start >= s {
        start - s
    } else {
        s - start
    };
    if diff > 30 {
        spec_new(file, start, end)
    } else {
        let st1 = if s < start {
            spec_remove_front(st, (start - s) as usize)
        } else {
            spec_add_front(st, (s - start) as usize, file)
        };
        if st1.1 < end {
            spec_add_back(st1, (end - st1.1) as usize, file)
        } else {
            spec_remove_back(st1, (st1.1 - end) as usize)
        }
    }
}

/// A window on the lines of a local book's file: the lines from
/// `buffer_start_line` to `buffer_end_line` (empty when the end is before the start).
#[derive(Debug)]
pub struct LocalBuffer {
    pub file_path: String,
    pub buffer: VecDeque<String>,
    pub buffer_start_line: usize,
    pub buffer_end_line: usize,
    /// The lines of the file, as the reader read it.
    pub file_lines: Vec<String>,
}

impl LocalBuffer {
    // CAUTION: There is logic which assumes the current surrounded line is not shifted
    // out of the buffer, i.e. `SHIFT_AMOUNT` is expected to be less than `NEXT_LINES`
    pub const PREVIOUS_LINES: usize = 50;
    pub const NEXT_LINES: usize = 150;
    pub const MINIMUM_JUMP_LINES: usize = 30;
    pub const SHIFT_AMOUNT: usize = 100;

    pub open spec fn state(self) -> BufState {
        (self.buffer_start_line, self.buffer_end_line, self.buffer@)
    }

    /// The buffer holds one line per line number from start to end, and the
    /// end is at most the file's length.
    pub open spec fn wf(self) -> bool {
        &&& self.buffer_start_line <= self.buffer_end_line + 1
        &&& self.buffer@.len() == self.buffer_end_line + 1 - self.buffer_start_line
        &&& self.buffer_end_line <= self.file_lines@.len()
        &&& self.buffer_end_line < self.file_lines@.len() || self.file_lines@.len() == 0
        &&& self.buffer_start_line <= self.buffer_end_line ==> self.buffer_end_line < self.file_lines@.len()
        &&& self.file_lines@.len() < usize::MAX - 200
    }

    /// Whether the buffer is well formed (see `wf`).
    pub fn is_wf(&self) -> (r: bool)
        ensures
            r == self.wf(),
    {
        let n = self.file_lines.len();
        let start = self.buffer_start_line;
        let end = self.buffer_end_line;
        if !(n < usize::MAX - 200) || !(end <= n) || !(start <= end + 1) {
            return false;
        }
        self.buffer.len() == end + 1 - start && (end < n || n == 0) && (!(start <= end) || end < n)
    }

    /// An empty buffer on a file.
    pub fn empty(file_path: String, file_lines: Vec<String>) -> (r: Self)
        ensures
            r.file_path == file_path,
            r.file_lines == file_lines,
            r.state() == (1usize, 0usize, Seq::<String>::empty()),
    {
        Self { file_path, buffer: VecDeque::new(), buffer_start_line: 1, buffer_end_line: 0, file_lines }
    }

    /// A buffer holding the file's lines from `start_line` to `end_line`, or
    /// to the file's end if it comes first; empty if the file ends before `start_line`.
    #[verifier::loop_isolation(false)]
    pub fn new(file_path: String, file_lines: Vec<String>, start_line: usize, end_line: usize) -> (r: Self)
        requires
            start_line <= end_line,
            end_line - start_line < usize::MAX,
            file_lines@.len() < usize::MAX - 200,
        ensures
            r.wf(),
            r.file_path == file_path,
            r.file_lines == file_lines,
            r.state() == spec_new(file_lines@, start_line, end_line),
    {
        let line_count = (end_line - start_line) + 1;
        if start_line >= file_lines.len() {
            return Self::empty(file_path, file_lines);
        }
        let mut buf: VecDeque<String> = VecDeque::new();
        let mut i: usize = start_line;
        while i < file_lines.len() && i - start_line < line_count
            invariant
                start_line <= i <= file_lines@.len(),
                i - start_line <= line_count,
                buf@ == file_lines@.subrange(start_line as int, i as int),
            decreases file_lines@.len() - i,
        {
            buf.push_back(file_lines[i].clone());
            proof {
                assert(buf@ =~= file_lines@.subrange(start_line as int, i + 1));
            }
            i = i + 1;
        }
        let buffer_end_line = i - 1;
        Self { file_path, buffer: buf, buffer_start_line: start_line, buffer_end_line, file_lines }
    }

    /// Drops `lines` lines from the front (all of them if there are not that many).
    pub fn remove_lines_front(&mut self, lines: usize)
        requires
            old(self).wf(),
        ensures
            final(self).wf(),
            final(self).state() == spec_remove_front(old(self).state(), lines),
            final(self).file_lines == old(self).file_lines,
            final(self).file_path == old(self).file_path,
    {
        if self.buffer_end_line < self.buffer_start_line {
            return;
        }
        let line_count = (self.buffer_end_line - self.buffer_start_line) + 1;
        if line_count <= lines {
            self.buffer_start_line = self.buffer_end_line + 1;
            self.buffer = VecDeque::new();
        } else {
            self.buffer_start_line = self.buffer_start_line + lines;
            let ghost b0 = self.buffer@;
            let ghost s1 = self.buffer_start_line;
            let mut k: usize = 0;
            while k < lines
                invariant
                    b0 == old(self).buffer@,
                    s1 == old(self).buffer_start_line + lines,
                    self.buffer_start_line == s1,
                    self.buffer_end_line == old(self).buffer_end_line,
                    self.file_lines == old(self).file_lines,
                    self.file_path == old(self).file_path,
                    k <= lines,
                    lines < b0.len(),
                    self.buffer@ == b0.skip(k as int),
                decreases lines - k,
            {
                self.buffer.pop_front();
                proof {
                    assert(self.buffer@ =~= b0.skip(k + 1));
                }
                k = k + 1;
            }
        }
    }

    /// Drops `lines` lines from the back (all of them if there are not that many).
    pub fn remove_lines_back(&mut self, lines: usize)
        requires
            old(self).wf(),
        ensures
            final(self).wf(),
            final(self).state() == spec_remove_back(old(self).state(), lines),
            final(self).file_lines == old(self).file_lines,
            final(self).file_path == old(self).file_path,
    {
        if self.buffer_end_line < self.buffer_start_line {
            return;
        }
        let line_count = (self.buffer_end_line - self.buffer_start_line) + 1;
        if line_count <= lines {
            if self.buffer_start_line == 0 {
                self.buffer_start_line = 1;
                self.buffer_end_line = 0;
            } else {
                self.buffer_end_line = self.buffer_start_line - 1;
            }
            self.buffer = VecDeque::new();
        } else {
            self.buffer_end_line = self.buffer_end_line - lines;
            let ghost b0 = self.buffer@;
            let mut k: usize = 0;
            while k < lines
                invariant
                    b0 == old(self).buffer@,
                    self.buffer_start_line == old(self).buffer_start_line,
                    self.buffer_end_line == old(self).buffer_end_line - lines,
                    self.file_lines == old(self).file_lines,
                    self.file_path == old(self).file_path,
                    k <= lines,
                    lines < b0.len(),
                    self.buffer@ == b0.take(b0.len() - k),
                decreases lines - k,
            {
                self.buffer.pop_back();
                proof {
                    assert(self.buffer@ =~= b0.take(b0.len() - (k + 1)));
                }
                k = k + 1;
            }
        }
    }

    /// Appends the file's next lines after the last one held, at most `lines`
    /// of them; true if any was added.
    #[verifier::loop_isolation(false)]
    pub fn add_lines_back(&mut self, lines: usize) -> (r: bool)
        requires
            old(self).wf(),
        ensures
            final(self).wf(),
            final(self).state() == spec_add_back(old(self).state(), lines, old(self).file_lines@),
            r == (lines_available(old(self).file_lines@, old(self).buffer_end_line + 1, lines as int) > 0),
            final(self).file_lines == old(self).file_lines,
            final(self).file_path == old(self).file_path,
    {
        let from = self.buffer_end_line + 1;
        if from >= self.file_lines.len() {
            return false;
        }
        let ghost b0 = self.buffer@;
        let ghost e0 = self.buffer_end_line;
        let mut added = false;
        let mut i: usize = 0;
        while from + i < self.file_lines.len() && i < lines
            invariant
                self.wf(),
                from == e0 + 1,
                self.buffer_start_line == old(self).buffer_start_line,
                self.file_lines == old(self).file_lines,
                self.file_path == old(self).file_path,
                i <= lines,
                from + i <= self.file_lines@.len(),
                self.buffer_end_line == e0 + i,
                self.buffer@ == b0 + self.file_lines@.subrange(from as int, from + i),
                added == (i > 0),
            decreases lines - i,
        {
            self.buffer.push_back(self.file_lines[from + i].clone());
            self.buffer_end_line = self.buffer_end_line + 1;
            added = true;
            proof {
                assert(self.buffer@ =~= b0 + self.file_lines@.subrange(from as int, from + i + 1));
            }
            i = i + 1;
        }
        proof {
            if i == 0 {
                assert(self.buffer@ =~= b0);
            }
        }
        added
    }

    /// Puts the file's lines before the first one held in front, at most
    /// `lines` of them, in the file's order, moving the start back by one for
    /// each; true if any was added. When `lines` is more than the start line,
    /// the lines are read from the file's first line.
    pub fn add_lines_front(&mut self, lines: usize) -> (r: bool)
        requires
            old(self).wf(),
            lines_available(old(self).file_lines@, front_from(old(self).buffer_start_line, lines), lines as int)
                <= old(self).buffer_start_line,
        ensures
            final(self).wf(),
            final(self).state() == spec_add_front(old(self).state(), lines, old(self).file_lines@),
            r == (lines_available(old(self).file_lines@, front_from(old(self).buffer_start_line, lines), lines as int) > 0),
            final(self).file_lines == old(self).file_lines,
            final(self).file_path == old(self).file_path,
    {
        let from = if lines > self.buffer_start_line {
            0
        } else {
            self.buffer_start_line - lines
        };
        if from >= self.file_lines.len() {
            return false;
        }
        let k = if self.file_lines.len() - from < lines {
            self.file_lines.len() - from
        } else {
            lines
        };
        let ghost b0 = self.buffer@;
        let ghost s0 = self.buffer_start_line;
        let mut i: usize = 0;
        while i < k
            invariant
                old(self).wf(),
                from == front_from(s0, lines),
                s0 == old(self).buffer_start_line,
                k == lines_available(self.file_lines@, from as int, lines as int),
                k <= s0,
                from + k <= self.file_lines@.len(),
                b0 == old(self).buffer@,
                self.buffer_end_line == old(self).buffer_end_line,
                self.file_lines == old(self).file_lines,
                self.file_path == old(self).file_path,
                i <= k,
                self.buffer_start_line == s0 - i,
                self.buffer@ == self.file_lines@.subrange(from + k - i, from + k) + b0,
            decreases k - i,
        {
            self.buffer.push_front(self.file_lines[from + k - 1 - i].clone());
            self.buffer_start_line = self.buffer_start_line - 1;
            proof {
                let f = self.file_lines@;
                assert(f.subrange(from + k - (i + 1), from + k as int) =~= seq![f[from + k - 1 - i]]
                    + f.subrange(from + k - i, from + k as int));
            }
            i = i + 1;
        }
        proof {
            if k == 0 {
                assert(self.buffer@ =~= b0);
            }
        }
        k > 0
    }

    /// Converts a line in the file to the corresponding line in the buffer
    /// returning none if the file line is not currently in the buffer.
    pub fn get_buffer_line(&self, file_line: usize) -> (r: Option<usize>)
        ensures
            r == (if file_line > self.buffer_end_line || file_line < self.buffer_start_line {
                None::<usize>
            } else {
                Some((file_line - self.buffer_start_line) as usize)
            }),
    {
        if file_line > self.buffer_end_line || file_line < self.buffer_start_line {
            return None;
        }
        Some(file_line - self.buffer_start_line)
    }

    pub fn is_empty(&self) -> (r: bool)
        ensures
            r == (self.buffer_end_line < self.buffer_start_line),
    {
        self.buffer_end_line < self.buffer_start_line
    }

    /// Makes the buffer hold the lines around `line` (see `spec_surround`).
    pub fn surround_line(&mut self, line: usize)
        requires
            old(self).wf(),
            line <= usize::MAX - 150,
        ensures
            final(self).wf(),
            final(self).state() == spec_surround(old(self).state(), line, old(self).file_lines@),
            final(self).file_lines == old(self).file_lines,
            final(self).file_path == old(self).file_path,
    {
        let start = if line < Self::PREVIOUS_LINES {
            0
        } else {
            line - Self::PREVIOUS_LINES
        };
        let end = line + Self::NEXT_LINES;
        let diff = if start >= self.buffer_start_line {
            start - self.buffer_start_line
        } else {
            self.buffer_start_line - start
        };
        if diff > Self::MINIMUM_JUMP_LINES {
            let mut lines: Vec<String> = Vec::new();
            std::mem::swap(&mut lines, &mut self.file_lines);
            let buffer = Self::new(self.file_path.clone(), lines, start, end);
            *self = buffer;
        } else {
            if self.buffer_start_line < start {
                self.remove_lines_front(start - self.buffer_start_line);
            } else {
                self.add_lines_front(self.buffer_start_line - start);
            }
            if self.buffer_end_line < end {
                self.add_lines_back(end - self.buffer_end_line);
            } else {
                self.remove_lines_back(self.buffer_end_line - end);
            }
        }
    }

    /// Drops `SHIFT_AMOUNT` lines at the front and adds as many at the back.
    /// Returns true if the buffer's end was increased.
    pub fn shift_down(&mut self) -> (r: bool)
        requires
            old(self).wf(),
        ensures
            final(self).wf(),
            final(self).state() == spec_add_back(
                spec_remove_front(old(self).state(), Self::SHIFT_AMOUNT),
                Self::SHIFT_AMOUNT,
                old(self).file_lines@,
            ),
            r == (lines_available(
                old(self).file_lines@,
                spec_remove_front(old(self).state(), Self::SHIFT_AMOUNT).1 + 1,
                Self::SHIFT_AMOUNT as int,
            ) > 0),
            final(self).file_lines == old(self).file_lines,
    {
        self.remove_lines_front(Self::SHIFT_AMOUNT);
        self.add_lines_back(Self::SHIFT_AMOUNT)
    }

    /// Drops `SHIFT_AMOUNT` lines at the back and adds as many at the front.
    /// Returns true if the buffer's beginning was increased.
    pub fn shift_up(&mut self) -> (r: bool)
        requires
            old(self).wf(),
            lines_available(
                old(self).file_lines@,
                front_from(spec_remove_back(old(self).state(), Self::SHIFT_AMOUNT).0, Self::SHIFT_AMOUNT),
                Self::SHIFT_AMOUNT as int,
            ) <= spec_remove_back(old(self).state(), Self::SHIFT_AMOUNT).0,
        ensures
            final(self).wf(),
            final(self).state() == spec_add_front(
                spec_remove_back(old(self).state(), Self::SHIFT_AMOUNT),
                Self::SHIFT_AMOUNT,
                old(self).file_lines@,
            ),
            r == (lines_available(
                old(self).file_lines@,
                front_from(spec_remove_back(old(self).state(), Self::SHIFT_AMOUNT).0, Self::SHIFT_AMOUNT),
                Self::SHIFT_AMOUNT as int,
            ) > 0),
            final(self).file_lines == old(self).file_lines,
    {
        self.remove_lines_back(Self::SHIFT_AMOUNT);
        self.add_lines_front(Self::SHIFT_AMOUNT)
    }
}

} // verus!
