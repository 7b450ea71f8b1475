//! A book in the user's library.

use vstd::prelude::*;

use crate::paths::{path_extension, path_stem, sha256_hex};
use crate::reader::portion::{line_count, BookProgress, BookProgressData};
use crate::sources::novel::Novel;
use crate::state::book_info::{
    or_zero, position_set, progress_set, source_name, source_progress, BookSource, GlobalBookData, ID,
};
use crate::state::local::LocalBookData;
use vstd::string::StringSliceAdditionalSpecFns;

verus! {

/// Contains info about a book that is in a user's library.
#[derive(Debug)]
pub struct LibBookInfo {
    /// The name of the book.
    pub name: String,
    /// Information about the source.
    pub source_data: BookSource,
    /// The category name of which the book is in. None implies that it is in the default category.
    pub category: Option<String>,
    /// The unique ID of the book.
    pub id: ID,
}

impl Clone for LibBookInfo {
    fn clone(&self) -> (r: Self)
        ensures
            r.same(*self),
    {
        LibBookInfo {
            name: self.name.clone(),
            source_data: self.source_data.clone(),
            category: self.category.clone(),
            id: self.id,
        }
    }
}

impl LibBookInfo {
    /// `self` and `o` hold the same (see `BookSource::same`).
    pub open spec fn same(self, o: LibBookInfo) -> bool {
        &&& self.name == o.name
        &&& self.source_data.same(o.source_data)
        &&& self.category == o.category
        &&& self.id == o.id
    }

    /// `b` is a new book of the library for `novel`, under `category`, at
    /// its first chapter with nothing read.
    pub open spec fn from_novel(b: LibBookInfo, novel: Novel, category: Option<String>) -> bool {
        &&& b.name@ == novel.name@
        &&& b.category == category
        &&& b.source_data matches BookSource::Global(g) && (g.name@ == novel.name@ && g.current_chapter == 1
            && g.total_chapters == novel.chapters@.len() && g.novel == novel
            && g.read_chapters@ == Set::<usize>::empty()
            && g.chapter_progress@ == Map::<usize, BookProgressData>::empty())
    }

    /// Returns true when the source is local.
    pub fn is_local(&self) -> (r: bool)
        ensures
            r == (self.source_data is Local),
    {
        matches!(self.source_data, BookSource::Local(_))
    }

    /// Creates an instance of `LibBookInfo` from a local file (its path and contents).
    pub fn from_local(path: &str, contents: &str, category: Option<String>) -> (r: Option<Self>)
        ensures
            r is Some <==> path_stem(path@) is Some,
            r matches Some(b) ==> (Some(b.name@) == path_stem(path@) && b.category == category
                && (b.source_data matches BookSource::Local(d) && d.name@ == b.name@ && d.path_to_book@ == path@
                && d.hash@ == sha256_hex(path.spec_bytes())
                && d.format == crate::state::local::book_type_of(path_extension(path@))
                && d.progress.total_lines == line_count(contents@)
                && d.progress.progress == BookProgress::Location((0, 0)))),
    {
        match LocalBookData::create_checked(path, contents) {
            None => None,
            Some(data) => {
                let source = BookSource::Local(data);
                Some(Self { name: source.get_name(), source_data: source, category, id: ID::generate() })
            },
        }
    }

    /// Creates an instance from a novel, at its first chapter.
    pub fn from_global(novel: Novel, category: Option<String>) -> (r: Self)
        ensures
            Self::from_novel(r, novel, category),
    {
        let data = GlobalBookData::create(novel, 1);
        let source = BookSource::Global(data);
        Self { name: source.get_name(), source_data: source, category, id: ID::generate() }
    }

    /// Creates an instance of `LibBookInfo`, named as its source names it.
    pub fn new(source_data: BookSource, category: Option<String>) -> (r: Self)
        ensures
            r.name@ == source_name(source_data),
            r.source_data == source_data,
            r.category == category,
    {
        Self { name: source_data.get_name(), source_data, category, id: ID::generate() }
    }

    /// Updates the position in the book (in its current chapter, which must
    /// have been opened, for a book from a site).
    pub fn update_progress(&mut self, progress: BookProgress)
        requires
            old(self).source_data matches BookSource::Global(d) ==> d.chapter_progress@.contains_key(d.current_chapter),
        ensures
            final(self).name == old(self).name,
            final(self).category == old(self).category,
            final(self).id == old(self).id,
            position_set(old(self).source_data, final(self).source_data, progress, old(self).source_data.get_chapter_spec()),
    {
        let c = self.source_data.get_chapter();
        self.source_data.put_position(progress, c);
    }

    /// Sets the progress of the book (of its current chapter, for a book from a site).
    pub fn set_progress(&mut self, progress: BookProgressData)
        ensures
            final(self).name == old(self).name,
            final(self).category == old(self).category,
            final(self).id == old(self).id,
            progress_set(old(self).source_data, final(self).source_data, progress, old(self).source_data.get_chapter_spec()),
    {
        let c = self.source_data.get_chapter();
        self.source_data.put_progress(progress, c);
    }

    /// Gets the progress of a book.
    pub fn get_progress(&self) -> (r: BookProgress)
        ensures
            r == source_progress(self.source_data),
    {
        self.source_data.progress()
    }
}

} // verus!
