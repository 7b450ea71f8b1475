//! A book as the reader app holds it: in the library or opened from a source,
//! read from a local file or from a site.

use std::collections::{HashMap, HashSet};
use vstd::prelude::*;

use crate::clock::nanos_since_epoch;
use crate::reader::portion::{BookProgress, BookProgressData};
use crate::sources::novel::Novel;
use crate::sources::source::SourceID;
use crate::state::local::LocalBookData;

verus! {

broadcast use vstd::std_specs::hash::group_hash_axioms;

/// An ID used to uniquely identify a book.
/// Determined using the current timestamp, resulting in very little risk of collisions.
#[derive(Clone, Copy, Debug, PartialEq, Eq, Structural)]
pub struct ID {
    pub(crate) id: u128,
}

impl ID {
    /// Generates an ID using system time.
    pub fn generate() -> (r: Self) {
        Self { id: nanos_since_epoch() }
    }

    /// The number that makes the ID.
    pub closed spec fn number(self) -> u128 {
        self.id
    }

    /// The ID with the number `id`, as stored.
    pub fn from_u128(id: u128) -> (r: Self)
        ensures
            r.number() == id,
    {
        Self { id }
    }

    /// The number of the ID, to store it.
    pub fn as_u128(&self) -> (r: u128)
        ensures
            r == self.number(),
    {
        self.id
    }
}

/// A book from a site: its chapters read, the current one, and the progress
/// in each chapter opened.
#[derive(Debug)]
pub struct GlobalBookData {
    pub name: String,
    pub read_chapters: HashSet<usize>,
    pub current_chapter: usize,
    pub total_chapters: usize,
    pub chapter_progress: HashMap<usize, BookProgressData>,
    pub novel: Novel,
}

/// `HashSet::clone`: a set holding the same chapter numbers.
#[verifier::external_body]
fn copy_chapter_set(s: &HashSet<usize>) -> (r: HashSet<usize>)
    ensures
        r@ == s@,
{
    s.clone()
}

impl Clone for GlobalBookData {
    fn clone(&self) -> (r: Self)
        ensures
            r.same(*self),
    {
        GlobalBookData {
            name: self.name.clone(),
            read_chapters: copy_chapter_set(&self.read_chapters),
            current_chapter: self.current_chapter,
            total_chapters: self.total_chapters,
            chapter_progress: self.chapter_progress.clone(),
            novel: self.novel.clone(),
        }
    }
}

impl GlobalBookData {
    /// `self` and `o` hold the same: equal fields, the same chapters read and
    /// progress, and the same novel.
    pub open spec fn same(self, o: GlobalBookData) -> bool {
        &&& self.name == o.name
        &&& self.read_chapters@ == o.read_chapters@
        &&& self.current_chapter == o.current_chapter
        &&& self.total_chapters == o.total_chapters
        &&& self.chapter_progress@ == o.chapter_progress@
        &&& self.novel.same(o.novel)
    }

    /// A book from a novel, at chapter `ch`, with nothing read.
    pub fn create(novel: Novel, ch: usize) -> (r: Self)
        ensures
            r.name@ == novel.name@,
            r.read_chapters@ == Set::<usize>::empty(),
            r.current_chapter == ch,
            r.total_chapters == novel.chapters@.len(),
            r.chapter_progress@ == Map::<usize, BookProgressData>::empty(),
            r.novel == novel,
    {
        Self {
            name: novel.name.clone(),
            read_chapters: HashSet::new(),
            current_chapter: ch,
            total_chapters: novel.chapters.len(),
            chapter_progress: HashMap::new(),
            novel,
        }
    }
}

/// What is stored of a downloaded chapter.
#[derive(Debug)]
pub struct ChapterDownloadData {
    pub location: String,
    pub chapter_progress: HashMap<usize, BookProgressData>,
}

/// The type of source from which a book is provided. The variants each
/// contain related info to the source.
#[derive(Debug)]
pub enum BookSource {
    /// A locally sourced book.
    Local(LocalBookData),
    /// A book that is not sourced on the user's device.
    Global(GlobalBookData),
}

/// The progress a source holds: a local book's own, else that of its
/// current chapter, or the start when that chapter was never opened.
pub open spec fn source_progress(s: BookSource) -> BookProgress {
    match s {
        BookSource::Local(d) => d.progress.progress,
        BookSource::Global(d) => if d.chapter_progress@.contains_key(d.current_chapter) {
            d.chapter_progress@[d.current_chapter].progress
        } else {
            BookProgress::Location((0, 0))
        },
    }
}

/// The name a source holds.
pub open spec fn source_name(s: BookSource) -> Seq<char> {
    match s {
        BookSource::Local(d) => d.name@,
        BookSource::Global(d) => d.name@,
    }
}

/// `b` is `a` with the progress `progress` put in place of the local book's,
/// or of chapter `chapter`'s.
pub open spec fn progress_set(a: BookSource, b: BookSource, progress: BookProgressData, chapter: usize) -> bool {
    match (a, b) {
        (BookSource::Local(x), BookSource::Local(y)) => y == LocalBookData { progress, ..x },
        (BookSource::Global(x), BookSource::Global(y)) => {
            &&& y.chapter_progress@ == x.chapter_progress@.insert(chapter, progress)
            &&& y.name == x.name
            &&& y.read_chapters@ == x.read_chapters@
            &&& y.current_chapter == x.current_chapter
            &&& y.total_chapters == x.total_chapters
            &&& y.novel == x.novel
        },
        _ => false,
    }
}

/// `b` is `a` with the position `progress` put in place of the local book's,
/// or of chapter `chapter`'s (which is kept with its number of lines).
pub open spec fn position_set(a: BookSource, b: BookSource, progress: BookProgress, chapter: usize) -> bool {
    match (a, b) {
        (BookSource::Local(x), BookSource::Local(y)) => y == LocalBookData {
            progress: BookProgressData { progress, ..x.progress },
            ..x
        },
        (BookSource::Global(x), BookSource::Global(y)) => {
            &&& y.chapter_progress@ == x.chapter_progress@.insert(
                chapter,
                BookProgressData { progress, ..x.chapter_progress@[chapter] },
            )
            &&& y.name == x.name
            &&& y.read_chapters@ == x.read_chapters@
            &&& y.current_chapter == x.current_chapter
            &&& y.total_chapters == x.total_chapters
            &&& y.novel == x.novel
        },
        _ => false,
    }
}

impl Clone for BookSource {
    fn clone(&self) -> (r: Self)
        ensures
            r.same(*self),
    {
        match self {
            BookSource::Local(d) => BookSource::Local(d.clone()),
            BookSource::Global(d) => BookSource::Global(d.clone()),
        }
    }
}

impl BookSource {
    /// `self` and `o` hold the same (see `GlobalBookData::same`).
    pub open spec fn same(self, o: BookSource) -> bool {
        match (self, o) {
            (BookSource::Local(x), BookSource::Local(y)) => x == y,
            (BookSource::Global(x), BookSource::Global(y)) => x.same(y),
            _ => false,
        }
    }

    /// The current chapter (0 for a local book).
    pub open spec fn get_chapter_spec(self) -> usize {
        match self {
            BookSource::Local(_) => 0,
            BookSource::Global(d) => d.current_chapter,
        }
    }

    /// Get the name of a book from its source.
    pub fn get_name(&self) -> (r: String)
        ensures
            r@ == source_name(*self),
    {
        match self {
            BookSource::Local(d) => d.name.clone(),
            BookSource::Global(d) => d.name.clone(),
        }
    }

    /// The current chapter (0 for a local book).
    pub fn get_chapter(&self) -> (r: usize)
        ensures
            r == self.get_chapter_spec(),
    {
        match self {
            BookSource::Local(_) => 0,
            BookSource::Global(d) => d.current_chapter,
        }
    }

    /// The chapter after the current one, if the book has it.
    pub fn get_next_chapter(&self) -> (r: Option<usize>)
        requires
            self matches BookSource::Global(d) ==> d.current_chapter < usize::MAX,
        ensures
            r == match *self {
                BookSource::Local(_) => None,
                BookSource::Global(d) => if d.current_chapter + 1 <= d.total_chapters {
                    Some((d.current_chapter + 1) as usize)
                } else {
                    None
                },
            },
    {
        match self {
            BookSource::Local(_) => None,
            BookSource::Global(d) => {
                let next = d.current_chapter + 1;
                if next <= d.total_chapters {
                    Some(next)
                } else {
                    None
                }
            },
        }
    }

    /// The chapter before the current one, if any (chapters count from 1).
    pub fn get_prev_chapter(&self) -> (r: Option<usize>)
        ensures
            r == match *self {
                BookSource::Local(_) => None,
                BookSource::Global(d) => if d.current_chapter <= 1 {
                    None
                } else {
                    Some((d.current_chapter - 1) as usize)
                },
            },
    {
        match self {
            BookSource::Local(_) => None,
            BookSource::Global(d) => {
                if d.current_chapter <= 1 {
                    None
                } else {
                    Some(d.current_chapter - 1)
                }
            },
        }
    }

    /// Makes `chapter` the current chapter of a book from a site.
    pub fn set_chapter(&mut self, chapter: usize)
        ensures
            match (*old(self), *final(self)) {
                (BookSource::Local(x), BookSource::Local(y)) => y == x,
                (BookSource::Global(x), BookSource::Global(y)) => y == GlobalBookData { current_chapter: chapter, ..x },
                _ => false,
            },
    {
        match self {
            BookSource::Local(_) => (),
            BookSource::Global(d) => d.current_chapter = chapter,
        }
    }

    /// Clears any progress on any chapters.
    pub fn clear_chapter_data(&mut self)
        ensures
            match (*old(self), *final(self)) {
                (BookSource::Local(x), BookSource::Local(y)) => y == x,
                (BookSource::Global(x), BookSource::Global(y)) => {
                    &&& y.chapter_progress@ == Map::<usize, BookProgressData>::empty()
                    &&& y.name == x.name
                    &&& y.read_chapters == x.read_chapters
                    &&& y.current_chapter == x.current_chapter
                    &&& y.total_chapters == x.total_chapters
                    &&& y.novel == x.novel
                },
                _ => false,
            },
    {
        match self {
            BookSource::Local(_) => (),
            BookSource::Global(d) => d.chapter_progress = HashMap::new(),
        }
    }

    /// The progress the source holds (see `source_progress`).
    pub fn progress(&self) -> (r: BookProgress)
        ensures
            r == source_progress(*self),
    {
        match self {
            BookSource::Local(data) => data.progress.progress,
            BookSource::Global(d) => match d.chapter_progress.get(&d.current_chapter) {
                Some(place) => place.progress,
                None => BookProgress::Location((0, 0)),
            },
        }
    }

    /// Puts `progress` in place of the local book's, or of chapter `chapter`'s.
    pub fn put_progress(&mut self, progress: BookProgressData, chapter: usize)
        ensures
            progress_set(*old(self), *final(self), progress, chapter),
    {
        match self {
            BookSource::Local(data) => {
                data.progress = progress;
            },
            BookSource::Global(data) => {
                data.chapter_progress.insert(chapter, progress);
            },
        }
    }

    /// Puts the position `progress` in place of the local book's, or of
    /// chapter `chapter`'s, which must have been opened.
    pub fn put_position(&mut self, progress: BookProgress, chapter: usize)
        requires
            *old(self) matches BookSource::Global(d) ==> d.chapter_progress@.contains_key(chapter),
        ensures
            position_set(*old(self), *final(self), progress, chapter),
    {
        match self {
            BookSource::Local(data) => {
                data.progress.progress = progress;
            },
            BookSource::Global(data) => {
                let ghost before = data.chapter_progress@;
                let entry = data.chapter_progress.remove(&chapter);
                match entry {
                    Some(mut e) => {
                        e.progress = progress;
                        data.chapter_progress.insert(chapter, e);
                        proof {
                            assert(data.chapter_progress@ =~= before.insert(
                                chapter,
                                BookProgressData { progress, ..before[chapter] },
                            ));
                        }
                    },
                    None => {},
                }
            },
        }
    }
}

/// The chapter named, or 0.
pub open spec fn or_zero(c: Option<usize>) -> usize {
    match c {
        Some(x) => x,
        None => 0,
    }
}

/// `b` is `a` after the reader records `prog` for chapter `ch`: a local
/// book takes it as its progress; a book from a site takes it as the
/// chapter's progress, and counts the chapter read when it is finished.
pub open spec fn reading_recorded(a: BookSource, b: BookSource, prog: BookProgressData, ch: usize) -> bool {
    match (a, b) {
        (BookSource::Local(_), BookSource::Local(_)) => progress_set(a, b, prog, 0),
        (BookSource::Global(x), BookSource::Global(y)) => {
            &&& y.chapter_progress@ == x.chapter_progress@.insert(ch, prog)
            &&& y.read_chapters@ == if prog.progress is Finished {
                x.read_chapters@.insert(ch)
            } else {
                x.read_chapters@
            }
            &&& y.name == x.name
            &&& y.current_chapter == x.current_chapter
            &&& y.total_chapters == x.total_chapters
            &&& y.novel == x.novel
        },
        _ => false,
    }
}

impl BookSource {
    /// Records the reader's progress `prog` in chapter `ch` (see `reading_recorded`).
    pub fn record_reading(&mut self, prog: BookProgressData, ch: usize)
        ensures
            reading_recorded(*old(self), *final(self), prog, ch),
    {
        match self {
            BookSource::Local(data) => {
                data.progress = prog;
            },
            BookSource::Global(d) => {
                if matches!(prog.progress, BookProgress::Finished) {
                    d.read_chapters.insert(ch);
                }
                d.chapter_progress.insert(ch, prog);
            },
        }
    }
}

/// A book in the reader: its name and source.
#[derive(Debug)]
pub struct ReaderBookInfo {
    pub name: String,
    pub source_data: BookSource,
}

impl Clone for ReaderBookInfo {
    fn clone(&self) -> (r: Self)
        ensures
            r.name == self.name && r.source_data.same(self.source_data),
    {
        ReaderBookInfo { name: self.name.clone(), source_data: self.source_data.clone() }
    }
}

/// A book as the app holds it: in the library, or opened in the reader.
#[derive(Debug)]
pub enum BookInfo {
    Library(crate::state::library::LibBookInfo),
    Reader(ReaderBookInfo),
}

impl Clone for BookInfo {
    fn clone(&self) -> (r: Self)
        ensures
            r.same(*self),
    {
        match self {
            BookInfo::Library(d) => BookInfo::Library(d.clone()),
            BookInfo::Reader(d) => BookInfo::Reader(d.clone()),
        }
    }
}

impl BookInfo {
    /// `self` and `o` hold the same book, in the same place.
    pub open spec fn same(self, o: BookInfo) -> bool {
        match (self, o) {
            (BookInfo::Library(x), BookInfo::Library(y)) => x.same(y),
            (BookInfo::Reader(x), BookInfo::Reader(y)) => x.name == y.name && x.source_data.same(y.source_data),
            _ => false,
        }
    }

    /// The book's source.
    pub open spec fn source(self) -> BookSource {
        match self {
            BookInfo::Library(d) => d.source_data,
            BookInfo::Reader(d) => d.source_data,
        }
    }

    /// `b` is `a` with its source replaced by `s`.
    pub open spec fn with_source(a: Self, b: Self, s: BookSource) -> bool {
        match (a, b) {
            (BookInfo::Library(x), BookInfo::Library(y)) => y == crate::state::library::LibBookInfo { source_data: s, ..x },
            (BookInfo::Reader(x), BookInfo::Reader(y)) => y == ReaderBookInfo { source_data: s, ..x },
            _ => false,
        }
    }

    /// Creates an instance of `BookInfo` from a `Novel`: a book in the
    /// reader at chapter `ch`.
    pub fn from_novel_temp(novel: Novel, ch: usize) -> (r: Self)
        ensures
            r matches BookInfo::Reader(d) && (d.name@ == novel.name@ && (d.source_data matches BookSource::Global(g)
                && g.name@ == novel.name@ && g.current_chapter == ch && g.total_chapters == novel.chapters@.len()
                && g.read_chapters@ == Set::<usize>::empty()
                && g.chapter_progress@ == Map::<usize, BookProgressData>::empty() && g.novel == novel)),
    {
        let name = novel.name.clone();
        let source = BookSource::Global(GlobalBookData::create(novel, ch));
        BookInfo::Reader(ReaderBookInfo { name, source_data: source })
    }

    pub fn is_local(&self) -> (r: bool)
        ensures
            r == (self.source() is Local),
    {
        match self {
            BookInfo::Library(d) => matches!(d.source_data, BookSource::Local(_)),
            BookInfo::Reader(d) => matches!(d.source_data, BookSource::Local(_)),
        }
    }

    /// The progress of a local book, or of the current chapter of a book from
    /// a site (its start when the chapter was never opened).
    pub fn get_progress(&self) -> (r: BookProgress)
        ensures
            r == source_progress(self.source()),
    {
        self.get_source_data().progress()
    }

    pub fn get_source_data_mut(&mut self) -> (r: &mut BookSource)
        ensures
            *r == old(self).source(),
            Self::with_source(*old(self), *final(self), *final(r)),
    {
        match self {
            BookInfo::Library(d) => &mut d.source_data,
            BookInfo::Reader(d) => &mut d.source_data,
        }
    }

    pub fn get_source_data(&self) -> (r: &BookSource)
        ensures
            *r == self.source(),
    {
        match self {
            BookInfo::Library(d) => &d.source_data,
            BookInfo::Reader(d) => &d.source_data,
        }
    }

    /// The site of a book from a site.
    pub fn get_source_id(&self) -> (r: Option<SourceID>)
        ensures
            r == match self.source() {
                BookSource::Local(_) => None,
                BookSource::Global(d) => Some(d.novel.source),
            },
    {
        match self.get_source_data() {
            BookSource::Local(_) => None,
            BookSource::Global(d) => Some(d.novel.source),
        }
    }

    /// The novel of a book from a site.
    pub fn get_novel(&self) -> (r: Option<&Novel>)
        ensures
            match self.source() {
                BookSource::Local(_) => r is None,
                BookSource::Global(d) => r == Some(&d.novel),
            },
    {
        match self.get_source_data() {
            BookSource::Local(_) => None,
            BookSource::Global(d) => Some(&d.novel),
        }
    }

    /// Sets the position in a local book, or in chapter `chapter` of a book
    /// from a site (which must have been opened).
    pub fn update_progress(&mut self, progress: BookProgress, chapter: Option<usize>)
        requires
            old(self).source() matches BookSource::Global(d) ==> chapter matches Some(c)
                && d.chapter_progress@.contains_key(c),
        ensures
            exists|s: BookSource| #[trigger] Self::with_source(*old(self), *final(self), s)
                && position_set(old(self).source(), s, progress, or_zero(chapter)),
    {
        let c = match chapter {
            Some(c) => c,
            None => 0,
        };
        let src = self.get_source_data_mut();
        src.put_position(progress, c);
    }

    /// Sets the progress of a local book, or of chapter `chapter` of a book from a site.
    pub fn set_progress(&mut self, progress: BookProgressData, chapter: Option<usize>)
        requires
            old(self).source() is Global ==> chapter is Some,
        ensures
            exists|s: BookSource| #[trigger] Self::with_source(*old(self), *final(self), s)
                && progress_set(old(self).source(), s, progress, or_zero(chapter)),
    {
        let c = match chapter {
            Some(c) => c,
            None => 0,
        };
        let src = self.get_source_data_mut();
        src.put_progress(progress, c);
    }
}

} // verus!
