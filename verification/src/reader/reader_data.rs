//! The reader: the book it shows and the part of it laid out.

use std::collections::VecDeque;
use vstd::prelude::*;

use crate::reader::local_buffer::{spec_surround, LocalBuffer};
use crate::reader::book_text::{fails_as, BookText};
use crate::reader::portion::{BookPortion, BookProgressData, BufferType, NextDisplay, ReadError};
use crate::sources::chapter::Chapter;
use crate::state::book_info::{reading_recorded, BookInfo, BookSource};
use crate::strs::{lines_of, lines_spec};

verus! {

/// The book in the reader, the chapter shown (for a book from a site) and
/// the portion laid out.
#[derive(Debug)]
pub struct ReaderData {
    pub book_info: BookInfo,
    pub global_chapter: usize,
    pub portion: BookPortion,
}

/// What opening a book needs: for a local book, its progress names a line
/// (a finished book has lines) far enough from the end of the numbers, and
/// its file is not too long; for a book from a site, a chapter and its text,
/// and a finished progress of that chapter has lines.
pub open spec fn can_open(book: BookInfo, chapter_no: Option<usize>, text: Option<Chapter>, file_lines: Seq<String>) -> bool {
    match book.source() {
        BookSource::Local(d) => {
            &&& d.progress.progress is Finished ==> d.progress.total_lines > 0
            &&& d.progress.get_line_spec() <= usize::MAX - 150
            &&& file_lines.len() < usize::MAX - 200
        },
        BookSource::Global(d) => {
            &&& chapter_no is Some
            &&& text is Some
            &&& d.chapter_progress@.contains_key(chapter_no->0) && d.chapter_progress@[chapter_no->0].progress is Finished
                ==> d.chapter_progress@[chapter_no->0].total_lines > 0
        },
    }
}

/// Whether a book can be opened (see `can_open`).
pub fn can_create(book: &BookInfo, chapter_no: Option<usize>, text: &Option<Chapter>, file_lines: &Vec<String>) -> (r: bool)
    ensures
        r == can_open(*book, chapter_no, *text, file_lines@),
{
    match book.get_source_data() {
        BookSource::Local(d) => {
            let finished = matches!(d.progress.progress, crate::reader::portion::BookProgress::Finished);
            if finished && d.progress.total_lines == 0 {
                return false;
            }
            d.progress.get_line() <= usize::MAX - 150 && file_lines.len() < usize::MAX - 200
        },
        BookSource::Global(d) => {
            match chapter_no {
                None => false,
                Some(ch) => text.is_some() && match d.chapter_progress.get(&ch) {
                    Some(p) => !matches!(p.progress, crate::reader::portion::BookProgress::Finished) || p.total_lines > 0,
                    None => true,
                },
            }
        },
    }
}

impl ReaderData {
    /// `f` is the reader `o` once its progress is recorded in its book: for a
    /// book from a site, in the chapter shown (see `reading_recorded`); the
    /// page and the chapter stay.
    pub open spec fn progress_recorded(o: ReaderData, f: ReaderData) -> bool {
        &&& f.portion == o.portion
        &&& f.global_chapter == o.global_chapter
        &&& exists|s: BookSource| #[trigger] BookInfo::with_source(o.book_info, f.book_info, s)
            && reading_recorded(o.book_info.source(), s, o.portion.progress_spec(), o.global_chapter)
    }

    /// The reader's progress in what it shows.
    pub fn get_progress(&self) -> (r: BookProgressData)
        requires
            self.portion.wf(),
            self.portion.progress_defined(),
        ensures
            r == self.portion.progress_spec(),
    {
        self.portion.get_progress()
    }

    /// Records the reader's progress in the book: for a book from a site, in
    /// the chapter shown, which counts as read once finished.
    pub fn set_progress(&mut self)
        requires
            old(self).portion.wf(),
            old(self).portion.progress_defined(),
        ensures
            Self::progress_recorded(*old(self), *final(self)),
    {
        let prog = self.get_progress();
        let ch = self.global_chapter;
        let src = self.book_info.get_source_data_mut();
        src.record_reading(prog, ch);
    }

    /// Asks for a scroll down by `scrolls` display lines at the next draw.
    pub fn scroll_down(&mut self, scrolls: usize)
        ensures
            final(self).portion.display_next == NextDisplay::ScrollDown(scrolls),
            BookPortion::same_but_next(old(self).portion, final(self).portion),
            final(self).book_info == old(self).book_info,
            final(self).global_chapter == old(self).global_chapter,
    {
        self.portion.display_next = NextDisplay::ScrollDown(scrolls);
    }

    /// Asks for a scroll up by `scrolls` display lines at the next draw.
    pub fn scroll_up(&mut self, scrolls: usize)
        ensures
            final(self).portion.display_next == NextDisplay::ScrollUp(scrolls),
            BookPortion::same_but_next(old(self).portion, final(self).portion),
            final(self).book_info == old(self).book_info,
            final(self).global_chapter == old(self).global_chapter,
    {
        self.portion.display_next = NextDisplay::ScrollUp(scrolls);
    }

    /// Whether the reader's progress can be recorded (what `set_progress` needs).
    pub fn can_record(&self) -> (r: bool)
        ensures
            r == (self.portion.wf() && self.portion.progress_defined()),
    {
        let p = &self.portion;
        match &p.buffer {
            BufferType::Local(b) => b.is_wf() && b.file_lines.len() > 0,
            BufferType::Global(lines) => {
                let n = lines.len();
                n > 0 && (p.display_end.0 != n - 1 || crate::text::chars_of(lines[n - 1].as_str()).len() > 0)
            },
        }
    }

    /// Whether the page can be laid out (what `lay_out` needs).
    pub fn can_lay_out(&self) -> (r: bool)
        ensures
            r == BookText::render_ok(self.portion),
    {
        BookText::can_render(&self.portion)
    }

    /// Lays out the reader's page for an area of `width` by `height` as the
    /// next display asks, and then asks for nothing more.
    pub fn lay_out(&mut self, width: u16, height: u16) -> (r: Result<BookText, ReadError>)
        requires
            BookText::render_ok(old(self).portion),
        ensures
            final(self).portion.wf(),
            final(self).book_info == old(self).book_info,
            final(self).global_chapter == old(self).global_chapter,
            r matches Ok(t) ==> {
                &&& t.lines@ == final(self).portion.display_copy@
                &&& final(self).portion.display_next == NextDisplay::NoOp
                &&& final(self).portion.term_width == width
                &&& final(self).portion.term_height == height
            },
            fails_as(r, BookText::render_failure(old(self).portion, width, height)),
            r is Ok && old(self).portion.display_next is Jump ==> BookText::laid_out(old(self).portion, final(self).portion,
                width, height),
    {
        let mut text = BookText::new();
        match text.render_step(&mut self.portion, width, height) {
            Ok(()) => {
                self.portion.display_next = NextDisplay::NoOp;
                Ok(text)
            },
            Err(e) => Err(e),
        }
    }

    pub fn is_local_source(&self) -> (r: bool)
        ensures
            r == (self.book_info.source() is Local),
    {
        self.book_info.is_local()
    }

    /// `r` is the reader opened on `book`: at the line its progress names,
    /// with the next draw laying out the page from there; holding a local
    /// book's lines (`file_lines`) around that line, or the lines of the
    /// text of chapter `chapter_no` of a book from a site.
    pub open spec fn opened(
        r: ReaderData,
        book: BookInfo,
        chapter_no: Option<usize>,
        text: Option<Chapter>,
        file_lines: Vec<String>,
    ) -> bool {
        &&& r.book_info == book
        &&& r.portion.wf()
        &&& r.portion.display_next == NextDisplay::Jump
        &&& match book.source() {
            BookSource::Local(d) => {
                &&& r.global_chapter == 0
                &&& r.portion.display_start == (d.progress.get_line_spec() as usize, 0usize)
                &&& r.portion.buffer matches BufferType::Local(b) && b.file_lines == file_lines
                    && b.file_path == d.path_to_book
                    && b.state() == spec_surround((1usize, 0usize, Seq::<String>::empty()), d.progress.get_line_spec() as usize, file_lines@)
            },
            BookSource::Global(d) => {
                let ch = chapter_no->0;
                let line = if d.chapter_progress@.contains_key(ch) {
                    d.chapter_progress@[ch].get_line_spec()
                } else {
                    0
                };
                &&& r.global_chapter == ch
                &&& r.portion.display_start == (line as usize, 0usize)
                &&& r.portion.buffer matches BufferType::Global(lines)
                    && lines@.len() == lines_spec(text->0.chapter_contents@).len()
                    && forall|i: int| 0 <= i < lines@.len() ==> (#[trigger] lines@[i])@ == lines_spec(text->0.chapter_contents@)[i]
            },
        }
    }

    /// Opens a book in the reader at the line its progress names: a local
    /// book from the lines of its file (`file_lines`), held around that
    /// line; a book from a site at chapter `chapter_no`, from the lines of
    /// the chapter's text.
    pub fn create(book: BookInfo, chapter_no: Option<usize>, text: Option<Chapter>, file_lines: Vec<String>) -> (r: Self)
        requires
            can_open(book, chapter_no, text, file_lines@),
        ensures
            Self::opened(r, book, chapter_no, text, file_lines),
    {
        let (portion, ch) = match book.get_source_data() {
            BookSource::Local(data) => {
                let line = data.progress.get_line();
                let mut buffer = LocalBuffer::empty(data.path_to_book.clone(), file_lines);
                buffer.surround_line(line);
                (BookPortion::with_buffer(BufferType::Local(buffer), (line, 0)), 0)
            },
            BookSource::Global(data) => {
                let ch = match chapter_no {
                    Some(c) => c,
                    None => 0,
                };
                let line = match data.chapter_progress.get(&ch) {
                    Some(progress) => progress.get_line(),
                    None => 0,
                };
                let contents = match &text {
                    Some(t) => t.chapter_contents.as_str(),
                    None => "",
                };
                let lines = lines_of(contents);
                let mut held: VecDeque<String> = VecDeque::new();
                let mut i: usize = 0;
                while i < lines.len()
                    invariant
                        i <= lines@.len(),
                        held@ == lines@.take(i as int),
                    decreases lines@.len() - i,
                {
                    held.push_back(lines[i].clone());
                    proof {
                        assert(held@ =~= lines@.take(i + 1));
                    }
                    i = i + 1;
                }
                proof {
                    assert(lines@.take(lines@.len() as int) =~= lines@);
                }
                (BookPortion::with_buffer(BufferType::Global(held), (line, 0)), ch)
            },
        };
        Self { book_info: book, portion, global_chapter: ch }
    }
}

} // verus!
