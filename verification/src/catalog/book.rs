use std::collections::HashMap;
use vstd::prelude::*;

use super::id::ID;
use crate::sources::chapter::ChapterPreview;
use crate::sources::novel::{chapter_url_spec, Novel};
use crate::sources::source::SourceID;

verus! {

broadcast use vstd::std_specs::hash::group_hash_axioms;

/// How far a chapter (or a local book) has been read.
#[derive(Debug, Clone, Copy, PartialEq, Eq)]
pub enum ChapterProgress {
    /// A line number and character
    Location((usize, usize)),
    /// A starting and ending word
    Word((usize, usize)),
    Finished,
}

/// The file format of a local book.
#[derive(Debug, Clone, Copy, PartialEq, Eq, Structural)]
pub enum BookFormat {
    Unknown,
    Txt,
}

/// A book read from a file on the user's machine.
#[derive(Debug)]
pub struct LocalData {
    pub path: String,
    pub hash: String,
    pub progress: ChapterProgress,
    pub format: BookFormat,
}

impl Clone for LocalData {
    fn clone(&self) -> (r: Self)
        ensures
            r == *self,
    {
        LocalData {
            path: self.path.clone(),
            hash: self.hash.clone(),
            progress: self.progress,
            format: self.format,
        }
    }
}

pub fn is_finished(p: ChapterProgress) -> (r: bool)
    ensures
        r == (p == ChapterProgress::Finished),
{
    match p {
        ChapterProgress::Finished => true,
        _ => false,
    }
}

/// The progress recorded for a chapter: the recorded value, or the start of the chapter.
pub open spec fn progress_of(m: Map<usize, ChapterProgress>, chapter: usize) -> ChapterProgress {
    if m.contains_key(chapter) {
        m[chapter]
    } else {
        ChapterProgress::Location((0, 0))
    }
}

/// `n` is where the run of finished chapters that follows `start` ends: every
/// chapter after `start` up to `n` is finished, and chapter `n + 1` is not.
pub open spec fn ordered_run_end(m: Map<usize, ChapterProgress>, start: usize, n: usize) -> bool {
    &&& start <= n
    &&& forall|j: usize| start < j <= n ==> #[trigger] m.contains_key(j) && m[j]
        == ChapterProgress::Finished
    &&& (n == usize::MAX || !(m.contains_key((n + 1) as usize) && m[(n + 1) as usize]
        == ChapterProgress::Finished))
}

/// A book served by a source on the web.
#[derive(Debug)]
pub struct GlobalData {
    pub chapters_read_ordered: usize,
    pub current_chapter: usize,
    pub total_chapters: usize,
    pub chapter_progress: HashMap<usize, ChapterProgress>,
    pub source_novel: Novel,
}

impl GlobalData {
    pub open spec fn same(self, other: GlobalData) -> bool {
        &&& self.chapters_read_ordered == other.chapters_read_ordered
        &&& self.current_chapter == other.current_chapter
        &&& self.total_chapters == other.total_chapters
        &&& self.chapter_progress@ == other.chapter_progress@
        &&& self.source_novel.same(other.source_novel)
    }
}

impl Clone for GlobalData {
    fn clone(&self) -> (r: Self)
        ensures
            r.same(*self),
    {
        GlobalData {
            chapters_read_ordered: self.chapters_read_ordered,
            current_chapter: self.current_chapter,
            total_chapters: self.total_chapters,
            chapter_progress: self.chapter_progress.clone(),
            source_novel: self.source_novel.clone(),
        }
    }
}

/// Which new chapters an update found.
#[derive(Debug, Clone, Copy, PartialEq, Eq)]
pub enum UpdatedChapters {
    /// An fully inclusive range
    Range((usize, usize)),
    Single(usize),
    /// No new chapter.
    NoChapters,
}

impl GlobalData {
    /// A fresh record for a novel: nothing read, chapter 1 current.
    pub fn from_novel(novel: Novel) -> (r: Self)
        ensures
            r.chapters_read_ordered == 0,
            r.current_chapter == 1,
            r.total_chapters == novel.chapters@.len(),
            r.chapter_progress@ == Map::<usize, ChapterProgress>::empty(),
            r.source_novel == novel,
    {
        let total = novel.get_length();
        Self {
            chapters_read_ordered: 0,
            current_chapter: 1,
            total_chapters: total,
            chapter_progress: HashMap::new(),
            source_novel: novel,
        }
    }

    pub fn get_chapter(&self) -> (r: usize)
        ensures
            r == self.current_chapter,
    {
        self.current_chapter
    }

    /// Makes `chapter` the current one, unless it is past the last chapter.
    pub fn set_chapter(&mut self, chapter: usize)
        ensures
            final(self).current_chapter == (if chapter <= old(self).total_chapters {
                chapter
            } else {
                old(self).current_chapter
            }),
            final(self).chapters_read_ordered == old(self).chapters_read_ordered,
            final(self).total_chapters == old(self).total_chapters,
            final(self).chapter_progress@ == old(self).chapter_progress@,
            final(self).source_novel == old(self).source_novel,
    {
        if chapter <= self.total_chapters {
            self.current_chapter = chapter
        }
    }

    pub fn clear_all_chapter_progress(&mut self)
        ensures
            final(self).chapter_progress@ == Map::<usize, ChapterProgress>::empty(),
            final(self).chapters_read_ordered == old(self).chapters_read_ordered,
            final(self).current_chapter == old(self).current_chapter,
            final(self).total_chapters == old(self).total_chapters,
            final(self).source_novel == old(self).source_novel,
    {
        self.chapter_progress = HashMap::new();
    }

    pub fn clear_chapter_progress(&mut self, chapter: usize)
        ensures
            final(self).chapter_progress@ == old(self).chapter_progress@.remove(chapter),
            final(self).chapters_read_ordered == old(self).chapters_read_ordered,
            final(self).current_chapter == old(self).current_chapter,
            final(self).total_chapters == old(self).total_chapters,
            final(self).source_novel == old(self).source_novel,
    {
        self.chapter_progress.remove(&chapter);
    }

    /// Records the progress of a chapter, then extends the run of chapters read in order.
    pub fn set_chapter_prog(&mut self, progress: ChapterProgress, chapter: usize)
        ensures
            final(self).chapter_progress@ == old(self).chapter_progress@.insert(chapter, progress),
            ordered_run_end(
                final(self).chapter_progress@,
                old(self).chapters_read_ordered,
                final(self).chapters_read_ordered,
            ),
            final(self).current_chapter == old(self).current_chapter,
            final(self).total_chapters == old(self).total_chapters,
            final(self).source_novel == old(self).source_novel,
    {
        self.chapter_progress.insert(chapter, progress);
        self.update_ordered_chapters();
    }

    /// The progress recorded for a chapter, or the start of the chapter.
    pub fn get_chapter_prog(&self, chapter: usize) -> (r: ChapterProgress)
        ensures
            r == progress_of(self.chapter_progress@, chapter),
    {
        match self.chapter_progress.get(&chapter) {
            Some(p) => *p,
            None => ChapterProgress::Location((0, 0)),
        }
    }

    /// Marks a chapter as finished, then extends the run of chapters read in order.
    pub fn mark_chapter_complete(&mut self, chapter: usize)
        ensures
            final(self).chapter_progress@ == old(self).chapter_progress@.insert(
                chapter,
                ChapterProgress::Finished,
            ),
            ordered_run_end(
                final(self).chapter_progress@,
                old(self).chapters_read_ordered,
                final(self).chapters_read_ordered,
            ),
            final(self).current_chapter == old(self).current_chapter,
            final(self).total_chapters == old(self).total_chapters,
            final(self).source_novel == old(self).source_novel,
    {
        self.chapter_progress.insert(chapter, ChapterProgress::Finished);
        self.update_ordered_chapters();
    }

    /// Counts on from the chapters read in order over every following chapter
    /// that is finished.
    pub fn update_ordered_chapters(&mut self)
        ensures
            ordered_run_end(
                old(self).chapter_progress@,
                old(self).chapters_read_ordered,
                final(self).chapters_read_ordered,
            ),
            final(self).chapter_progress@ == old(self).chapter_progress@,
            final(self).current_chapter == old(self).current_chapter,
            final(self).total_chapters == old(self).total_chapters,
            final(self).source_novel == old(self).source_novel,
    {
        let ghost start = self.chapters_read_ordered;
        loop
            invariant
                start <= self.chapters_read_ordered,
                self.chapter_progress@ == old(self).chapter_progress@,
                self.current_chapter == old(self).current_chapter,
                self.total_chapters == old(self).total_chapters,
                self.source_novel == old(self).source_novel,
                start == old(self).chapters_read_ordered,
                forall|j: usize|
                    start < j <= self.chapters_read_ordered ==> #[trigger] self.chapter_progress@.contains_key(j)
                        && self.chapter_progress@[j] == ChapterProgress::Finished,
            ensures
                ordered_run_end(self.chapter_progress@, start, self.chapters_read_ordered),
                self.chapter_progress@ == old(self).chapter_progress@,
                self.current_chapter == old(self).current_chapter,
                self.total_chapters == old(self).total_chapters,
                self.source_novel == old(self).source_novel,
            decreases usize::MAX - self.chapters_read_ordered,
        {
            if self.chapters_read_ordered == usize::MAX {
                break;
            }
            let next = self.chapters_read_ordered + 1;
            let finished = match self.chapter_progress.get(&next) {
                None => false,
                Some(p) => is_finished(*p),
            };
            if !finished {
                break;
            }
            self.chapters_read_ordered = next;
        }
    }

    pub fn get_ordered_chapters(&self) -> (r: usize)
        ensures
            r == self.chapters_read_ordered,
    {
        self.chapters_read_ordered
    }

    /// Takes the novel as the source now serves it: the chapter count becomes
    /// its length, and the result names the chapters that are new. `None`
    /// stands for a fetch that failed, which changes nothing.
    pub fn update(&mut self, fetched: Option<Novel>) -> (r: UpdatedChapters)
        requires
            match fetched {
                Some(n) => n.chapters@.len() >= old(self).total_chapters,
                None => true,
            },
        ensures
            match fetched {
                None => r == UpdatedChapters::NoChapters && final(self).same(*old(self)),
                Some(n) => {
                    &&& final(self).total_chapters == n.chapters@.len()
                    &&& final(self).source_novel == n
                    &&& final(self).chapters_read_ordered == old(self).chapters_read_ordered
                    &&& final(self).current_chapter == old(self).current_chapter
                    &&& final(self).chapter_progress@ == old(self).chapter_progress@
                    &&& r == new_chapters(old(self).total_chapters, n.chapters@.len() as usize)
                },
            },
    {
        match fetched {
            None => UpdatedChapters::NoChapters,
            Some(updated) => {
                let current_length = self.total_chapters;
                let updated_length = updated.get_length();
                self.total_chapters = updated_length;
                self.source_novel = updated;
                if updated_length - current_length == 0 {
                    UpdatedChapters::NoChapters
                } else if updated_length - current_length == 1 {
                    UpdatedChapters::Single(updated_length)
                } else {
                    UpdatedChapters::Range((current_length + 1, updated_length))
                }
            },
        }
    }
}

/// The chapters that are new when a novel of `old_len` chapters now has `new_len`.
pub open spec fn new_chapters(old_len: usize, new_len: usize) -> UpdatedChapters {
    if new_len == old_len {
        UpdatedChapters::NoChapters
    } else if new_len == old_len + 1 {
        UpdatedChapters::Single(new_len)
    } else {
        UpdatedChapters::Range(((old_len + 1) as usize, new_len))
    }
}

impl LocalData {
    /// The record of a local book read from `file_path`, whose bytes are
    /// `contents`: their SHA-256 digest, progress at the start, and the
    /// format its extension names.
    pub fn from_path(file_path: String, contents: &Vec<u8>) -> (r: Self)
        ensures
            r.path == file_path,
            r.hash@ == crate::paths::sha256_hex(contents@),
            r.progress == ChapterProgress::Location((0, 0)),
            r.format == format_of(crate::paths::path_extension(file_path@)),
    {
        let hash = crate::paths::digest_bytes(contents);
        let format = match crate::paths::file_extension(file_path.as_str()) {
            Some(ext) => if crate::catalog::books_context::string_eq(ext.as_str(), "txt") {
                BookFormat::Txt
            } else {
                BookFormat::Unknown
            },
            None => BookFormat::Unknown,
        };
        proof {
            reveal_strlit("txt");
        }
        Self { path: file_path, hash, progress: ChapterProgress::Location((0, 0)), format }
    }
}

/// The format a file extension names: `txt` is text, anything else unknown.
pub open spec fn format_of(ext: Option<Seq<char>>) -> BookFormat {
    match ext {
        Some(e) => if e == "txt"@ {
            BookFormat::Txt
        } else {
            BookFormat::Unknown
        },
        None => BookFormat::Unknown,
    }
}

/// Where a book's text comes from.
#[derive(Debug)]
pub enum BookData {
    Local(LocalData),
    Global(GlobalData),
}

impl BookData {
    pub open spec fn same(self, other: BookData) -> bool {
        match (self, other) {
            (BookData::Local(a), BookData::Local(b)) => a == b,
            (BookData::Global(a), BookData::Global(b)) => a.same(b),
            _ => false,
        }
    }
}

impl Clone for BookData {
    fn clone(&self) -> (r: Self)
        ensures
            r.same(*self),
    {
        match self {
            BookData::Local(d) => BookData::Local(d.clone()),
            BookData::Global(d) => BookData::Global(d.clone()),
        }
    }
}

/// A book the reader knows of, with its reading progress and where the user keeps it.
#[derive(Debug)]
pub struct Book {
    pub id: ID,
    pub name: String,
    pub data: BookData,
    pub in_library: bool,
    pub in_history: bool,
    pub in_updates: bool,
    pub category: Option<String>,
}

impl Clone for Book {
    fn clone(&self) -> (r: Self)
        ensures
            r.same(*self),
    {
        Book {
            id: self.id,
            name: self.name.clone(),
            data: self.data.clone(),
            in_library: self.in_library,
            in_history: self.in_history,
            in_updates: self.in_updates,
            category: self.category.clone(),
        }
    }
}

impl Book {
    /// Two books hold the same values.
    pub open spec fn same(self, other: Book) -> bool {
        &&& self.id == other.id
        &&& self.name == other.name
        &&& self.data.same(other.data)
        &&& self.in_library == other.in_library
        &&& self.in_history == other.in_history
        &&& self.in_updates == other.in_updates
        &&& self.category == other.category
    }

    /// `self` differs from `other` at most in its reading data.
    pub open spec fn same_but_data(self, other: Book) -> bool {
        &&& self.id == other.id
        &&& self.name == other.name
        &&& self.in_library == other.in_library
        &&& self.in_history == other.in_history
        &&& self.in_updates == other.in_updates
        &&& self.category == other.category
        &&& (self.data is Local) == (other.data is Local)
    }

    /// The full URL of a web book's novel; `None` for a local book.
    pub open spec fn full_url_spec(self) -> Option<Seq<char>> {
        match self.data {
            BookData::Local(_) => None,
            BookData::Global(d) => Some(d.source_novel.full_url@),
        }
    }

    pub open spec fn novel_spec(self) -> Novel
        recommends
            self.data is Global,
    {
        self.data->Global_0.source_novel
    }

    pub open spec fn global_spec(self) -> GlobalData
        recommends
            self.data is Global,
    {
        self.data->Global_0
    }

    /// The progress of the chapter being read (of the book, for a local one).
    pub open spec fn current_progress_spec(self) -> ChapterProgress {
        match self.data {
            BookData::Local(d) => d.progress,
            BookData::Global(d) => progress_of(d.chapter_progress@, d.current_chapter),
        }
    }

    /// The chapter that reading the book in order continues with.
    pub open spec fn next_ordered_spec(self) -> Option<usize> {
        match self.data {
            BookData::Local(_) => None,
            BookData::Global(d) => {
                let last = d.chapters_read_ordered;
                if last == 0 && d.total_chapters == 0 {
                    None
                } else if last == 0 {
                    Some(1)
                } else if progress_of(d.chapter_progress@, last) == ChapterProgress::Finished
                    && d.total_chapters >= last + 1 {
                    Some((last + 1) as usize)
                } else {
                    Some(last)
                }
            },
        }
    }

    pub fn get_name(&self) -> (r: &str)
        ensures
            r@ == self.name@,
    {
        self.name.as_str()
    }

    /// The chapter list of a web book; `None` for a local one.
    pub fn get_chapters(&self) -> (r: Option<&Vec<ChapterPreview>>)
        ensures
            match self.data {
                BookData::Local(_) => r is None,
                BookData::Global(d) => r is Some && r->0@ == d.source_novel.chapters@,
            },
    {
        match &self.data {
            BookData::Local(_) => None,
            BookData::Global(d) => Some(d.source_novel.get_chapters()),
        }
    }

    /// Gives the book a new name; a web book's novel takes it as its alias.
    pub fn rename(&mut self, new_name: String)
        ensures
            rename_post(*old(self), *final(self), new_name),
    {
        self.name = new_name.clone();
        match &mut self.data {
            BookData::Local(_) => {},
            BookData::Global(d) => d.source_novel.set_alias(new_name),
        }
    }

    pub fn get_id(&self) -> (r: ID)
        ensures
            r == self.id,
    {
        self.id
    }

    /// A new web book for a novel, under the novel's name, in no list yet.
    pub fn from_novel(novel: Novel) -> (r: Self)
        ensures
            r.name == novel.name,
            r.data == BookData::Global(r.data->Global_0),
            r.data->Global_0.chapters_read_ordered == 0,
            r.data->Global_0.current_chapter == 1,
            r.data->Global_0.total_chapters == novel.chapters@.len(),
            r.data->Global_0.chapter_progress@ == Map::<usize, ChapterProgress>::empty(),
            r.data->Global_0.source_novel == novel,
            r.category is None,
            !r.in_library,
            !r.in_history,
            !r.in_updates,
    {
        let id = ID::generate();
        let name = novel.name.clone();
        Self {
            id,
            name,
            data: BookData::Global(GlobalData::from_novel(novel)),
            category: None,
            in_library: false,
            in_history: false,
            in_updates: false,
        }
    }

    /// A new local book for the file at `path` (whose bytes are
    /// `contents`), named after the file's stem, in no list yet.
    pub fn from_local_source(path: String, contents: &Vec<u8>) -> (r: Self)
        requires
            crate::paths::path_stem(path@) is Some,
        ensures
            Some(r.name@) == crate::paths::path_stem(path@),
            r.data == BookData::Local(r.data->Local_0),
            r.data->Local_0.path == path,
            r.data->Local_0.hash@ == crate::paths::sha256_hex(contents@),
            r.data->Local_0.progress == ChapterProgress::Location((0, 0)),
            r.data->Local_0.format == format_of(crate::paths::path_extension(path@)),
            r.category is None,
            !r.in_library,
            !r.in_history,
            !r.in_updates,
    {
        let id = ID::generate();
        let name = match crate::paths::file_stem(path.as_str()) {
            Some(n) => n,
            None => String::new(),
        };
        let data = BookData::Local(LocalData::from_path(path, contents));
        Self { id, name, data, category: None, in_library: false, in_history: false, in_updates: false }
    }

    /// `from_local_source` for a path whose stem may be missing: `None` then.
    pub fn from_local_source_checked(path: String, contents: &Vec<u8>) -> (r: Option<Self>)
        ensures
            crate::paths::path_stem(path@) is None ==> r is None,
            crate::paths::path_stem(path@) is Some ==> r is Some && Some(r->0.name@) == crate::paths::path_stem(
                path@,
            ) && r->0.data is Local && r->0.data->Local_0.path == path,
    {
        if crate::paths::file_stem(path.as_str()).is_none() {
            return None;
        }
        Some(Self::from_local_source(path, contents))
    }

    pub fn is_local(&self) -> (r: bool)
        ensures
            r == self.data is Local,
    {
        match self.data {
            BookData::Local(_) => true,
            BookData::Global(_) => false,
        }
    }

    /// Returns true if a book is not locally sourced.
    pub fn is_global(&self) -> (r: bool)
        ensures
            r == self.data is Global,
    {
        match self.data {
            BookData::Local(_) => false,
            BookData::Global(_) => true,
        }
    }

    pub fn get_current_ch_progress(&self) -> (r: ChapterProgress)
        ensures
            r == self.current_progress_spec(),
    {
        match &self.data {
            BookData::Local(d) => d.progress,
            BookData::Global(d) => d.get_chapter_prog(d.current_chapter),
        }
    }

    /// The progress of every chapter; a local book gives its progress as chapter 0.
    pub fn get_all_ch_progress(&self) -> (r: HashMap<usize, ChapterProgress>)
        ensures
            match self.data {
                BookData::Local(d) => r@ == Map::<usize, ChapterProgress>::empty().insert(
                    0,
                    d.progress,
                ),
                BookData::Global(d) => r@ == d.chapter_progress@,
            },
    {
        match &self.data {
            BookData::Local(d) => {
                let mut m = HashMap::new();
                m.insert(0, d.progress);
                m
            },
            BookData::Global(d) => d.chapter_progress.clone(),
        }
    }

    pub fn get_current_ch(&self) -> (r: Option<usize>)
        ensures
            match self.data {
                BookData::Local(_) => r is None,
                BookData::Global(d) => r == Some(d.current_chapter),
            },
    {
        match &self.data {
            BookData::Local(_) => None,
            BookData::Global(d) => Some(d.current_chapter),
        }
    }

    pub fn get_total_chs(&self) -> (r: Option<usize>)
        ensures
            match self.data {
                BookData::Local(_) => r is None,
                BookData::Global(d) => r == Some(d.total_chapters),
            },
    {
        match &self.data {
            BookData::Local(_) => None,
            BookData::Global(d) => Some(d.total_chapters),
        }
    }

    pub fn global_get_source_id(&self) -> (r: SourceID)
        requires
            self.data is Global,
        ensures
            r == self.novel_spec().source,
    {
        match &self.data {
            BookData::Global(d) => d.source_novel.get_source(),
            BookData::Local(_) => { proof { assert(false); } SourceID(0) },
        }
    }

    pub fn global_get_novel(&self) -> (r: &Novel)
        requires
            self.data is Global,
        ensures
            *r == self.novel_spec(),
    {
        match &self.data {
            BookData::Global(d) => &d.source_novel,
            BookData::Local(_) => { proof { assert(false); } unreached() },
        }
    }

    /// A mutable borrow of a web book's novel; whatever is written through it
    /// becomes the book's novel, and nothing else of the book changes.
    pub fn global_get_novel_mut(&mut self) -> (r: &mut Novel)
        requires
            old(self).data is Global,
        ensures
            *r == old(self).novel_spec(),
            final(self).data is Global,
            final(self).novel_spec() == *final(r),
            final(self).id == old(self).id,
            final(self).name == old(self).name,
            final(self).in_library == old(self).in_library,
            final(self).in_history == old(self).in_history,
            final(self).in_updates == old(self).in_updates,
            final(self).category == old(self).category,
            final(self).global_spec().chapter_progress == old(self).global_spec().chapter_progress,
            final(self).global_spec().current_chapter == old(self).global_spec().current_chapter,
            final(self).global_spec().chapters_read_ordered
                == old(self).global_spec().chapters_read_ordered,
            final(self).global_spec().total_chapters == old(self).global_spec().total_chapters,
    {
        match &mut self.data {
            BookData::Global(d) => &mut d.source_novel,
            BookData::Local(_) => { proof { assert(false); } unreached() },
        }
    }

    pub fn local_set_progress(&mut self, progress: ChapterProgress)
        requires
            old(self).data is Local,
        ensures
            final(self).data == BookData::Local(
                LocalData { progress, ..old(self).data->Local_0 },
            ),
            final(self).same_but_data(*old(self)),
    {
        match &mut self.data {
            BookData::Local(p) => {
                p.progress = progress;
            },
            BookData::Global(_) => {},
        }
    }

    /// Sets a chapter's progress of a web book; a local book gives `BadUse`.
    pub fn global_set_progress(&mut self, progress: ChapterProgress, chapter: usize) -> (r: Result<(), TRError>)
        ensures
            set_progress_post(*old(self), *final(self), progress, chapter, r),
    {
        match &mut self.data {
            BookData::Local(_) => Err(local_misuse_error()),
            BookData::Global(d) => {
                d.set_chapter_prog(progress, chapter);
                Ok(())
            },
        }
    }

    /// Marks a chapter of a web book finished; a local book gives `BadUse`.
    pub fn global_mark_ch_read(&mut self, chapter: usize) -> (r: Result<(), TRError>)
        ensures
            mark_read_post(*old(self), *final(self), chapter, r),
    {
        match &mut self.data {
            BookData::Local(_) => Err(local_misuse_error()),
            BookData::Global(d) => {
                d.mark_chapter_complete(chapter);
                Ok(())
            },
        }
    }

    /// Makes a chapter of a web book current (unless it is past the last one);
    /// a local book gives `BadUse`.
    pub fn global_set_ch(&mut self, chapter: usize) -> (r: Result<(), TRError>)
        ensures
            set_ch_post(*old(self), *final(self), chapter, r),
    {
        match &mut self.data {
            BookData::Local(_) => Err(local_misuse_error()),
            BookData::Global(d) => {
                d.set_chapter(chapter);
                Ok(())
            },
        }
    }

    /// Get the amount of chapters that have been read in order
    pub fn global_get_ordered_chapters(&self) -> (r: Result<usize, TRError>)
        ensures
            match self.data {
                BookData::Local(_) => r matches Err(e) && local_misuse(e),
                BookData::Global(d) => r == Ok::<usize, TRError>(d.chapters_read_ordered),
            },
    {
        match &self.data {
            BookData::Local(_) => Err(local_misuse_error()),
            BookData::Global(d) => Ok(d.get_ordered_chapters()),
        }
    }

    /// Get the url of a book, returning none if the book is locally sourced
    pub fn get_url(&self) -> (r: Option<&str>)
        ensures
            match self.data {
                BookData::Local(_) => r is None,
                BookData::Global(d) => r is Some && r->0@ == d.source_novel.novel_url@,
            },
    {
        match &self.data {
            BookData::Local(_) => None,
            BookData::Global(d) => Some(d.source_novel.get_url()),
        }
    }

    /// Get the full url of a book, returning none if the book is locally sourced
    pub fn get_full_url(&self) -> (r: Option<&str>)
        ensures
            match self.data {
                BookData::Local(_) => r is None,
                BookData::Global(d) => r is Some && r->0@ == d.source_novel.full_url@,
            },
    {
        match &self.data {
            BookData::Local(_) => None,
            BookData::Global(d) => Some(d.source_novel.get_full_url()),
        }
    }

    /// The URL of a chapter of a web book; `None` for a local book or a chapter it does not list.
    pub fn get_chapter_url(&self, chapter: usize) -> (r: Option<String>)
        ensures
            match self.data {
                BookData::Local(_) => r is None,
                BookData::Global(d) => match r {
                    Some(u) => chapter_url_spec(d.source_novel.chapters@, chapter) == Some(u@),
                    None => chapter_url_spec(d.source_novel.chapters@, chapter) is None,
                },
            },
    {
        match &self.data {
            BookData::Local(_) => None,
            BookData::Global(d) => d.source_novel.get_chapter_url(chapter),
        }
    }

    /// Get the chapter that should be read for the book to be read in order
    /// the difference between this and `global_get_ordered_chapters` is that
    /// this function will return the next chapter if it exists
    ///
    /// Returns `None` if a book has no chapters, or is sourced locally
    pub fn global_get_next_ordered_chap(&mut self) -> (r: Option<usize>)
        ensures
            r == old(self).next_ordered_spec(),
            *final(self) == *old(self),
    {
        match &self.data {
            BookData::Local(_) => None,
            BookData::Global(d) => {
                let last = d.get_ordered_chapters();
                if last == 0 && d.total_chapters == 0 {
                    return None;
                } else if last == 0 {
                    return Some(1);
                }
                let finished = is_finished(d.get_chapter_prog(last));
                if finished && d.total_chapters > last {
                    Some(last + 1)
                } else {
                    Some(last)
                }
            },
        }
    }

    /// Clears all reading progress: a local book goes back to its first word,
    /// a web book to chapter 1 with no chapter progress.
    pub fn reset_progress(&mut self)
        ensures
            reset_post(*old(self), *final(self)),
    {
        match &mut self.data {
            BookData::Local(d) => d.progress = ChapterProgress::Word((0, 0)),
            BookData::Global(d) => {
                d.chapters_read_ordered = 0;
                d.current_chapter = 1;
                d.chapter_progress = HashMap::new();
            },
        }
    }

    /// Takes the novel as its source now serves it (see `GlobalData::update`);
    /// a local book is left as it is.
    pub fn update(&mut self, fetched: Option<Novel>) -> (r: UpdatedChapters)
        requires
            old(self).data is Global ==> match fetched {
                Some(n) => n.chapters@.len() >= old(self).global_spec().total_chapters,
                None => true,
            },
        ensures
            final(self).same_but_data(*old(self)),
            old(self).data is Local ==> r == UpdatedChapters::NoChapters && final(self).same(*old(self)),
            old(self).data is Global ==> final(self).data is Global && match fetched {
                None => r == UpdatedChapters::NoChapters && final(self).same(*old(self)),
                Some(n) => {
                    &&& final(self).global_spec().total_chapters == n.chapters@.len()
                    &&& final(self).global_spec().source_novel == n
                    &&& final(self).global_spec().chapters_read_ordered == old(self).global_spec().chapters_read_ordered
                    &&& final(self).global_spec().current_chapter == old(self).global_spec().current_chapter
                    &&& final(self).global_spec().chapter_progress@ == old(self).global_spec().chapter_progress@
                    &&& r == new_chapters(old(self).global_spec().total_chapters, n.chapters@.len() as usize)
                },
            },
    {
        match &mut self.data {
            BookData::Global(data) => data.update(fetched),
            BookData::Local(_) => UpdatedChapters::NoChapters,
        }
    }
}

pub open spec fn rename_post(a: Book, b: Book, new_name: String) -> bool {
    &&& (b.name == new_name)
    &&& (b.id == a.id)
    &&& (b.in_library == a.in_library)
    &&& (b.in_history == a.in_history)
    &&& (b.in_updates == a.in_updates)
    &&& (b.category == a.category)
    &&& (match (a.data, b.data) {
                (BookData::Local(a), BookData::Local(b)) => a == b,
                (BookData::Global(a), BookData::Global(b)) => {
                    &&& b.source_novel.alias == Some(new_name)
                    &&& b.source_novel.name == a.source_novel.name
                    &&& b.source_novel.source == a.source_novel.source
                    &&& b.source_novel.novel_url == a.source_novel.novel_url
                    &&& b.source_novel.full_url == a.source_novel.full_url
                    &&& b.source_novel.chapters == a.source_novel.chapters
                    &&& b.chapters_read_ordered == a.chapters_read_ordered
                    &&& b.current_chapter == a.current_chapter
                    &&& b.total_chapters == a.total_chapters
                    &&& b.chapter_progress@ == a.chapter_progress@
                },
                _ => false,
            })
}

pub open spec fn set_progress_post(a: Book, b: Book, progress: ChapterProgress, chapter: usize, r: Result<(), TRError>) -> bool {
    &&& (a.data is Local ==> (r matches Err(e) && local_misuse(e)) && b.same(a))
    &&& (a.data is Global ==> r is Ok && b.same_but_data(a)
                && b.data is Global
                && b.global_spec().chapter_progress@ == a.global_spec().chapter_progress@.insert(chapter, progress)
                && ordered_run_end(b.global_spec().chapter_progress@,
                    a.global_spec().chapters_read_ordered,
                    b.global_spec().chapters_read_ordered)
                && b.global_spec().current_chapter == a.global_spec().current_chapter
                && b.global_spec().total_chapters == a.global_spec().total_chapters
                && b.global_spec().source_novel == a.global_spec().source_novel)
}

pub open spec fn mark_read_post(a: Book, b: Book, chapter: usize, r: Result<(), TRError>) -> bool {
    &&& (a.data is Local ==> (r matches Err(e) && local_misuse(e)) && b.same(a))
    &&& (a.data is Global ==> r is Ok && b.same_but_data(a)
                && b.data is Global
                && b.global_spec().chapter_progress@ == a.global_spec().chapter_progress@.insert(chapter, ChapterProgress::Finished)
                && ordered_run_end(b.global_spec().chapter_progress@,
                    a.global_spec().chapters_read_ordered,
                    b.global_spec().chapters_read_ordered)
                && b.global_spec().current_chapter == a.global_spec().current_chapter
                && b.global_spec().total_chapters == a.global_spec().total_chapters
                && b.global_spec().source_novel == a.global_spec().source_novel)
}

pub open spec fn set_ch_post(a: Book, b: Book, chapter: usize, r: Result<(), TRError>) -> bool {
    &&& (a.data is Local ==> (r matches Err(e) && local_misuse(e)) && b.same(a))
    &&& (a.data is Global ==> r is Ok && b.same_but_data(a)
                && b.data is Global
                && b.global_spec().current_chapter == (if chapter <= a.global_spec().total_chapters {
                    chapter
                } else {
                    a.global_spec().current_chapter
                })
                && b.global_spec().chapter_progress@ == a.global_spec().chapter_progress@
                && b.global_spec().chapters_read_ordered == a.global_spec().chapters_read_ordered
                && b.global_spec().total_chapters == a.global_spec().total_chapters
                && b.global_spec().source_novel == a.global_spec().source_novel)
}

pub open spec fn reset_post(a: Book, b: Book) -> bool {
    &&& (b.same_but_data(a))
    &&& (match (a.data, b.data) {
                (BookData::Local(a), BookData::Local(b)) => b == LocalData {
                    progress: ChapterProgress::Word((0, 0)),
                    ..a
                },
                (BookData::Global(a), BookData::Global(b)) => {
                    &&& b.chapters_read_ordered == 0
                    &&& b.current_chapter == 1
                    &&& b.chapter_progress@ == Map::<usize, ChapterProgress>::empty()
                    &&& b.total_chapters == a.total_chapters
                    &&& b.source_novel == a.source_novel
                },
                _ => false,
            })
}

/// What went wrong in an operation on the reader's records.
#[derive(Debug, Clone, PartialEq, Eq)]
pub enum TRError {
    /// the same identifier was used more than once
    Duplicate,
    /// an invalid choice was given
    InvalidChoice(String),
    /// a book was referred to but it does not exist in memory
    BookMissing,
    /// the operation was redundant
    Redundant,
    /// the function was used wrongly
    BadUse(String),
    /// the argument was invalid
    InvalidArgument(String),
}

/// The error for an operation on a web book that was given a local one.
pub open spec fn local_misuse(e: TRError) -> bool {
    e matches TRError::BadUse(m) && m@
        == "supplied a local book where a global book should have been supplied"@
}

pub fn local_misuse_error() -> (e: TRError)
    ensures
        local_misuse(e),
{
    TRError::BadUse(String::from_str("supplied a local book where a global book should have been supplied"))
}

} // verus!
