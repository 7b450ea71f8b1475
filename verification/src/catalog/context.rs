use std::collections::VecDeque;
use vstd::prelude::*;

use super::book::{Book, TRError, UpdatedChapters};
use super::books_context::{holds_id, lists_name, names_distinct, string_eq, unneeded_ids, BookRef, BooksContext};
use super::history::{HistCtxSerialize, HistoryContext, HistoryEntry};
use super::id::ID;
use super::library::{lists_without, LibraryContext};
use super::updates::{UpdatesContext, UpdatesCtxSerialize, UpdatesEntry};
use crate::clock::secs_since_epoch;
use crate::sources::source::{Source, SourceID, Sources};

verus! {

/// Everything the reader keeps: the books in memory, the library, the
/// history, the known sources, the update list, and where all of it is saved.
#[derive(Debug)]
pub struct Context {
    pub books: BooksContext,
    pub library: LibraryContext,
    pub history: HistoryContext,
    pub sources: Sources,
    pub updates: UpdatesContext,
    pub data_path: String,
}

/// The library as it is saved: each category with the IDs of its books.
#[derive(Debug)]
pub struct LibCtxSerialize {
    pub books: Vec<(String, Vec<ID>)>,
    pub default_category_name: String,
    pub category_order: Vec<String>,
}

/// All a `Context` saves, ready to be written out.
#[derive(Debug)]
pub struct SavedContext {
    pub books: BooksContext,
    pub library: LibCtxSerialize,
    pub history: HistCtxSerialize,
    pub updates: UpdatesCtxSerialize,
    pub data_path: String,
}

impl SavedContext {
    /// What loading needs: well-formed books and library, and every book that
    /// the library, the history and the update list name among the books.
    pub open spec fn loadable(self) -> bool {
        &&& self.books.wf()
        &&& self.library.wf()
        &&& self.library.refs_present(&self.books)
        &&& forall|i: int|
            0 <= i < self.history.history@.len() ==> self.books.has((#[trigger] self.history.history@[i]).book)
        &&& forall|i: int|
            0 <= i < self.updates.updates@.len() ==> self.books.has((#[trigger] self.updates.updates@[i]).book)
    }
}

impl SavedContext {
    /// Whether what was saved can be loaded (see `loadable`).
    pub fn is_loadable(&self) -> (r: bool)
        ensures
            r == self.loadable(),
    {
        if !self.books.is_wf() || !self.library.is_wf() || !self.library.names_only(&self.books) {
            return false;
        }
        let mut i: usize = 0;
        while i < self.history.history.len()
            invariant
                self.books.wf(),
                i <= self.history.history@.len(),
                forall|a: int| 0 <= a < i ==> self.books.has((#[trigger] self.history.history@[a]).book),
            decreases self.history.history@.len() - i,
        {
            if self.books.find_index(self.history.history[i].book).is_none() {
                return false;
            }
            i = i + 1;
        }
        let mut u: usize = 0;
        while u < self.updates.updates.len()
            invariant
                self.books.wf(),
                u <= self.updates.updates@.len(),
                forall|a: int| 0 <= a < u ==> self.books.has((#[trigger] self.updates.updates@[a]).book),
            decreases self.updates.updates@.len() - u,
        {
            if self.books.find_index(self.updates.updates[u].book).is_none() {
                return false;
            }
            u = u + 1;
        }
        true
    }
}

impl Context {
    pub open spec fn wf(self) -> bool {
        &&& self.books.wf()
        &&& self.library.wf()
    }

    pub open spec fn has_book(self, id: ID) -> bool {
        self.books.has(id)
    }

    pub open spec fn book(self, id: ID) -> Book {
        self.books.book(id)
    }

    /// `self` holds the same books as `o` but for the one under `id`, which is `b`.
    pub open spec fn books_but(self, o: Context, id: ID, b: Book) -> bool {
        &&& self.books.wf()
        &&& self.books.books@ == o.books.books@.update(o.books.index_of(id), (id, b))
    }

    /// The library, history, update list, sources and save path are those of `o`.
    pub open spec fn same_lists(self, o: Context) -> bool {
        &&& self.library.books@ == o.library.books@
        &&& self.library.default_category_name == o.library.default_category_name
        &&& self.library.category_order@ == o.library.category_order@
        &&& self.history.history@ == o.history.history@
        &&& self.updates.updates@ == o.updates.updates@
        &&& self.sources.sources@ == o.sources.sources@
        &&& self.data_path == o.data_path
    }

    /// `s` is what `c` saves: its books and save path; its library with each
    /// book by its ID; its history and update list with each entry's book by
    /// its ID.
    pub open spec fn saves_as(c: Context, s: SavedContext) -> bool {
        let (cl, sl) = (c.library, s.library);
        let (ch, sh) = (c.history.history@, s.history.history@);
        let (cu, su) = (c.updates.updates@, s.updates.updates@);
        &&& s.books == c.books
        &&& s.data_path == c.data_path
        &&& sl.books@.len() == cl.books@.len()
        &&& forall|k: int|
            0 <= k < sl.books@.len() ==> (#[trigger] sl.books@[k]).0 == cl.books@[k].0
                && sl.books@[k].1@ == cl.books@[k].1@.map_values(|b: BookRef| b.id)
        &&& sl.default_category_name == cl.default_category_name
        &&& sl.category_order == cl.category_order
        &&& sh.len() == ch.len()
        &&& forall|i: int|
            0 <= i < sh.len() ==> (#[trigger] sh[i]).book == ch[i].book.id && sh[i].timestamp == ch[i].timestamp
                && sh[i].chapter == ch[i].chapter
        &&& su.len() == cu.len()
        &&& forall|i: int|
            0 <= i < su.len() ==> (#[trigger] su[i]).book == cu[i].book.id && su[i].timestamp == cu[i].timestamp
                && su[i].chapter == cu[i].chapter
    }

    /// `r` is the well-formed state loaded from `s`: its books and save
    /// path; its library with each ID of `s` as the book of that ID; its
    /// history and update list likewise; the shipped sources.
    pub open spec fn loads_as(s: SavedContext, r: Context) -> bool {
        let (rl, sl) = (r.library, s.library);
        let (rh, sh) = (r.history.history@, s.history.history@);
        let (ru, su) = (r.updates.updates@, s.updates.updates@);
        &&& r.wf()
        &&& r.books == s.books
        &&& r.data_path == s.data_path
        &&& rl.books@.len() == sl.books@.len()
        &&& forall|k: int|
            0 <= k < rl.books@.len() ==> (#[trigger] rl.books@[k]).0 == sl.books@[k].0
                && rl.books@[k].1@.map_values(|b: BookRef| b.id) == sl.books@[k].1@
        &&& rl.default_category_name == sl.default_category_name
        &&& rl.category_order == sl.category_order
        &&& rh.len() == sh.len()
        &&& forall|i: int|
            0 <= i < rh.len() ==> (#[trigger] rh[i]).book.id == sh[i].book && rh[i].timestamp == sh[i].timestamp
                && rh[i].chapter == sh[i].chapter
        &&& ru.len() == su.len()
        &&& forall|i: int|
            0 <= i < ru.len() ==> (#[trigger] ru[i]).book.id == su[i].book && ru[i].timestamp == su[i].timestamp
                && ru[i].chapter == su[i].chapter
        &&& crate::sources::source::shipped_sources(r.sources.sources@)
    }

    /// An empty reader state saved at `data_path`: no books, an empty library
    /// with its default category, no history, no updates, the shipped sources.
    pub fn new(data_path: String) -> (r: Self)
        ensures
            r.wf(),
            r.books.books@.len() == 0,
            r.library.lists() == Map::<Seq<char>, Seq<BookRef>>::empty().insert("Default"@, Seq::empty()),
            r.library.default_category_name@ == "Default"@,
            r.history.history@.len() == 0,
            r.updates.updates@.len() == 0,
            crate::sources::source::shipped_sources(r.sources.sources@),
            r.data_path == data_path,
    {
        let library = LibraryContext::new();
        proof {
            library.lemma_cat_index("Default"@, 0);
            assert forall|n: Seq<char>| #![auto] library.lists().contains_key(n) implies n == "Default"@ by {
                let i = library.cat_index(n);
            }
            assert(library.category("Default"@) =~= Seq::<BookRef>::empty());
            assert(library.lists() =~= Map::<Seq<char>, Seq<BookRef>>::empty().insert("Default"@, Seq::empty()));
        }
        Self {
            books: BooksContext::new(),
            library,
            history: HistoryContext::new(),
            sources: Sources::build(),
            updates: UpdatesContext::new(),
            data_path,
        }
    }

    /// Builds a state from what was saved (see `loads_as`). Every book that
    /// the library, the history and the update list name must be among
    /// `books`.
    pub fn from_saved(saved: SavedContext) -> (r: Self)
        requires
            saved.loadable(),
        ensures
            Context::loads_as(saved, r),
    {
        let SavedContext { books, library, history, updates, data_path } = saved;
        let library = library.to_lib_ctx(&books);
        let history = history.to_hist_ctx(&books);
        let updates = updates.to_updates_ctx(&books);
        Self { books, library, history, sources: Sources::build(), updates, data_path }
    }

    /// Hands over all that is saved, ready to be written out (see `saves_as`).
    pub fn save(self) -> (r: SavedContext)
        requires
            self.wf(),
        ensures
            Context::saves_as(self, r),
    {
        let Context { books, library, history, sources: _, updates, data_path } = self;
        SavedContext {
            books,
            library: LibCtxSerialize::from_lib_ctx(library),
            history: HistCtxSerialize::from_hist_ctx(history),
            updates: UpdatesCtxSerialize::from_updates_ctx(updates),
            data_path,
        }
    }

    /// Clear all history data
    pub fn clear_history(&mut self)
        ensures
            final(self).history.history@.len() == 0,
            final(self).books == old(self).books,
            final(self).library == old(self).library,
            final(self).updates == old(self).updates,
    {
        self.history.clear();
    }

    /// Get the history of the user
    pub fn get_history(&self) -> (r: &VecDeque<HistoryEntry>)
        ensures
            r@ == self.history.history@,
    {
        self.history.get_history()
    }

    /// Removes every history entry of the book, and marks it as not in the history.
    pub fn remove_history_entry(&mut self, id: ID)
        requires
            old(self).wf(),
        ensures
            final(self).wf(),
            final(self).history.history@ == old(self).history.history@.filter(
                |h: HistoryEntry| h.book.id != id,
            ),
            old(self).has_book(id) ==> final(self).books_but(
                *old(self),
                id,
                Book { in_history: false, ..old(self).book(id) },
            ),
            !old(self).has_book(id) ==> final(self).books == old(self).books,
            final(self).library == old(self).library,
            final(self).updates == old(self).updates,
    {
        if let Some(i) = self.books.find_index(id) {
            self.books.books[i].1.in_history = false;
            proof {
                self.books.lemma_keys_kept(old(self).books);
            }
        }
        self.history.remove_entry(id)
    }

    /// Puts the book at the front of the history (see `HistoryContext::add_entry`)
    /// and marks it as in the history; a book not in memory changes nothing.
    pub fn add_history_entry(&mut self, book: ID)
        requires
            old(self).wf(),
        ensures
            final(self).wf(),
            !old(self).has_book(book) ==> final(self).books == old(self).books
                && final(self).history.history@ == old(self).history.history@,
            old(self).has_book(book) ==> {
                &&& final(self).books_but(*old(self), book, Book { in_history: true, ..old(self).book(book) })
                &&& final(self).history.history@.drop_first() == old(self).history.history@
                &&& final(self).history.history@.len() == old(self).history.history@.len() + 1
                &&& final(self).history.history@[0].book == BookRef { id: book }
                &&& final(self).history.history@[0].chapter == super::history::history_chapter(
                    old(self).book(book),
                )
            },
            final(self).library == old(self).library,
            final(self).updates == old(self).updates,
    {
        if let Some(i) = self.books.find_index(book) {
            self.books.books[i].1.in_history = true;
            proof {
                self.books.lemma_keys_kept(old(self).books);
                self.books.lemma_index_of(book, i as int);
            }
            self.history.add_entry(BookRef { id: book }, &self.books);
        }
    }

    /// Get the history entry count
    pub fn get_history_entry_count(&self) -> (r: usize)
        ensures
            r == self.history.history@.len(),
    {
        self.history.history.len()
    }

    /// Get a list of all library categories
    ///
    /// The categories are given in the order in which they should be displayed
    pub fn get_library_categories(&self) -> (r: &Vec<String>)
        ensures
            r@ == self.library.category_order@,
    {
        self.library.get_categories()
    }

    /// Returns a source from it's ID, returning `None` if the source ID is not valid
    pub fn get_source_by_id(&self, source_id: SourceID) -> (r: Option<&Source>)
        ensures
            match r {
                Some(s) => s.id_spec() == source_id && exists|i: int|
                    0 <= i < self.sources.sources@.len() && self.sources.sources@[i] == *s,
                None => forall|j: int|
                    0 <= j < self.sources.sources@.len() ==> (#[trigger] self.sources.sources@[j]).id_spec()
                        != source_id,
            },
    {
        self.sources.get_source_by_id(source_id)
    }

    /// Returns a vector of all source IDs and the sources' names
    pub fn get_source_info(&self) -> (r: Vec<(SourceID, String)>)
        ensures
            r@.len() == self.sources.sources@.len(),
            forall|i: int|
                0 <= i < r@.len() ==> (#[trigger] r@[i]).0 == self.sources.sources@[i].id_spec()
                    && r@[i].1@ == self.sources.sources@[i].name_spec(),
    {
        self.sources.get_source_info()
    }

    /// The source of a book in memory; `None` for a book that has none (a
    /// book not in memory, a local book) or a source the reader does not know.
    pub fn get_book_source(&self, book_id: ID) -> (r: Option<&Source>)
        requires
            self.wf(),
        ensures
            !self.has_book(book_id) ==> r is None,
            self.has_book(book_id) && self.book(book_id).data is Local ==> r is None,
            self.has_book(book_id) && self.book(book_id).data is Global ==> match r {
                Some(s) => s.id_spec() == self.book(book_id).novel_spec().source,
                None => forall|j: int|
                    0 <= j < self.sources.sources@.len() ==> (#[trigger] self.sources.sources@[j]).id_spec()
                        != self.book(book_id).novel_spec().source,
            },
    {
        match self.books.find_index(book_id) {
            None => None,
            Some(i) => {
                if self.books.books[i].1.is_local() {
                    return None;
                }
                let source_id = self.books.books[i].1.global_get_source_id();
                self.get_source_by_id(source_id)
            },
        }
    }

    /// Returns the current save directory
    pub fn get_save_dir(&self) -> (r: String)
        ensures
            r == self.data_path,
    {
        self.data_path.clone()
    }

    /// Clear all update data
    pub fn clear_updates(&mut self)
        ensures
            final(self).updates.updates@.len() == 0,
            final(self).books == old(self).books,
            final(self).library == old(self).library,
            final(self).history == old(self).history,
    {
        self.updates.clear()
    }

    /// Get update data
    pub fn get_updates(&self) -> (r: &VecDeque<UpdatesEntry>)
        ensures
            r@ == self.updates.updates@,
    {
        self.updates.get_updates()
    }

    /// Puts an entry for the book at the front of the update list, stamped
    /// with the current time; a book not in memory changes nothing.
    pub fn add_updates_entry(&mut self, book: ID, chapters: UpdatedChapters)
        requires
            old(self).wf(),
        ensures
            final(self).wf(),
            final(self).books == old(self).books,
            final(self).library == old(self).library,
            final(self).history == old(self).history,
            !old(self).has_book(book) ==> final(self).updates.updates@ == old(self).updates.updates@,
            old(self).has_book(book) ==> {
                &&& final(self).updates.updates@.len() == old(self).updates.updates@.len() + 1
                &&& final(self).updates.updates@.drop_first() == old(self).updates.updates@
                &&& final(self).updates.updates@[0].book == BookRef { id: book }
                &&& final(self).updates.updates@[0].chapter == chapters
            },
    {
        if self.books.find_index(book).is_none() {
            return;
        }
        let timestamp = secs_since_epoch();
        self.updates.updates.push_front(UpdatesEntry { book: BookRef { id: book }, timestamp, chapter: chapters });
        proof {
            assert(self.updates.updates@.drop_first() =~= old(self).updates.updates@);
        }
    }

    /// Get the amount of update entries
    pub fn get_updates_entry_count(&self) -> (r: usize)
        ensures
            r == self.updates.updates@.len(),
    {
        self.updates.get_len()
    }

    /// Removes every update entry of the book.
    pub fn remove_updates_entry(&mut self, book: ID)
        ensures
            final(self).updates.updates@ == old(self).updates.updates@.filter(
                |u: UpdatesEntry| u.book.id != book,
            ),
            final(self).books == old(self).books,
            final(self).library == old(self).library,
            final(self).history == old(self).history,
    {
        self.updates.remove_book(book);
    }

    /// Returns true if a book is stored in memory
    pub fn book_exists(&self, id: ID) -> (r: bool)
        requires
            self.wf(),
        ensures
            r == self.has_book(id),
    {
        self.books.find_index(id).is_some()
    }

    /// Returns true if a book with the given full URL is stored in memory
    pub fn book_exists_by_url(&self, url: String) -> (r: bool)
        requires
            self.wf(),
        ensures
            r == exists|i: int|
                0 <= i < self.books.books@.len() && (#[trigger] self.books.books@[i]).1.full_url_spec()
                    == Some(url@),
    {
        let r = self.books.find_book_by_url(&url);
        proof {
            if let Some(b) = r {
                let i = self.books.index_of(b.id);
                assert(self.books.books@[i].1.full_url_spec() == Some(url@));
            }
        }
        r.is_some()
    }

    /// A handle on the book, if it is stored in memory.
    pub fn get_book(&self, id: ID) -> (r: Option<BookRef>)
        requires
            self.wf(),
        ensures
            r == (if self.has_book(id) {
                Some(BookRef { id })
            } else {
                None::<BookRef>
            }),
    {
        self.books.get(id)
    }

    /// A handle on a book with the given full URL, if one is stored in memory.
    pub fn get_book_url(&self, url: String) -> (r: Option<BookRef>)
        requires
            self.wf(),
        ensures
            match r {
                Some(b) => self.has_book(b.id) && self.book(b.id).full_url_spec() == Some(url@),
                None => forall|i: int|
                    0 <= i < self.books.books@.len() ==> (#[trigger] self.books.books@[i]).1.full_url_spec()
                        != Some(url@),
            },
    {
        self.books.find_book_by_url(&url)
    }

    /// Adds a `Book` to memory, unless a book with its ID is already there.
    pub fn add_book(&mut self, book: Book)
        requires
            old(self).wf(),
        ensures
            final(self).wf(),
            old(self).has_book(book.id) ==> final(self).books.books@ == old(self).books.books@,
            !old(self).has_book(book.id) ==> final(self).books.books@ == old(self).books.books@.push(
                (book.id, book),
            ),
            final(self).same_lists(*old(self)),
    {
        self.books.add_book(book)
    }

    /// Puts `new_book` in the place of the book stored under `book_id`, if there is one.
    pub fn replace_book(&mut self, book_id: ID, new_book: Book)
        requires
            old(self).wf(),
        ensures
            final(self).wf(),
            old(self).has_book(book_id) ==> final(self).books_but(*old(self), book_id, new_book),
            !old(self).has_book(book_id) ==> final(self).books == old(self).books,
            final(self).same_lists(*old(self)),
    {
        if let Some(i) = self.books.find_index(book_id) {
            self.books.books.set(i, (book_id, new_book));
            proof {
                self.books.lemma_keys_kept(old(self).books);
            }
        }
    }

    /// The library's categories with their books.
    pub fn get_library_books(&self) -> (r: &Vec<(String, Vec<BookRef>)>)
        ensures
            r@ == self.library.books@,
    {
        &self.library.books
    }

    /// Move a category forwards by one in order
    ///
    /// Returns the new position of the category, or None if the index was out of bounds.
    pub fn reorder_category_forwards(&mut self, category_idx: usize) -> (r: Option<usize>)
        requires
            old(self).wf(),
        ensures
            final(self).wf(),
            final(self).books == old(self).books,
            final(self).library.books@ == old(self).library.books@,
            category_idx >= old(self).library.category_order@.len() ==> r is None
                && final(self).library.category_order@ == old(self).library.category_order@,
            category_idx == 0 < old(self).library.category_order@.len() ==> r == Some(0usize)
                && final(self).library.category_order@ == old(self).library.category_order@,
            0 < category_idx < old(self).library.category_order@.len() ==> r == Some(
                (category_idx - 1) as usize,
            ) && final(self).library.category_order@ == super::library::swap_spec(
                old(self).library.category_order@,
                category_idx - 1,
                category_idx as int,
            ),
    {
        self.library.reorder_category_forwards(category_idx)
    }

    /// Move a category backwards by one in order
    ///
    /// Returns the new position of the category, or None if the index was out of bounds.
    pub fn reorder_category_backwards(&mut self, category_idx: usize) -> (r: Option<usize>)
        requires
            old(self).wf(),
        ensures
            final(self).wf(),
            final(self).books == old(self).books,
            final(self).library.books@ == old(self).library.books@,
            category_idx >= old(self).library.category_order@.len() ==> r is None
                && final(self).library.category_order@ == old(self).library.category_order@,
            category_idx + 1 == old(self).library.category_order@.len() ==> r == Some(category_idx)
                && final(self).library.category_order@ == old(self).library.category_order@,
            category_idx + 1 < old(self).library.category_order@.len() ==> r == Some(
                (category_idx + 1) as usize,
            ) && final(self).library.category_order@ == super::library::swap_spec(
                old(self).library.category_order@,
                category_idx as int,
                category_idx + 1,
            ),
    {
        self.library.reorder_category_backwards(category_idx)
    }
}

impl Book {
    /// The source of this web book among the sources `ctx` knows.
    pub fn get_source<'a>(&self, ctx: &'a Context) -> (r: &'a Source)
        requires
            self.data is Global,
            exists|i: int|
                0 <= i < ctx.sources.sources@.len() && (#[trigger] ctx.sources.sources@[i]).id_spec()
                    == self.novel_spec().source,
        ensures
            r.id_spec() == self.novel_spec().source,
            exists|i: int| 0 <= i < ctx.sources.sources@.len() && ctx.sources.sources@[i] == *r,
    {
        let s_id = self.global_get_source_id();
        ctx.get_source_by_id(s_id).unwrap()
    }
}

/// The characters of an optional `String`.
pub open spec fn opt_view(o: Option<String>) -> Option<Seq<char>> {
    match o {
        Some(s) => Some(s@),
        None => None,
    }
}

/// The characters of an optional `&str`.
pub open spec fn opt_str(o: Option<&str>) -> Option<Seq<char>> {
    match o {
        Some(s) => Some(s@),
        None => None,
    }
}

/// The categories of `lib` with a handle on `id` added at the end of `name`.
pub open spec fn push_to(lib: LibraryContext, name: Seq<char>, id: ID) -> Map<Seq<char>, Seq<BookRef>> {
    lib.lists().insert(name, lib.category(name).push(BookRef { id }))
}

/// The IDs of the books in the categories, category by category.
pub open spec fn lib_ids(cats: Seq<(String, Vec<BookRef>)>) -> Seq<ID>
    decreases cats.len(),
{
    if cats.len() == 0 {
        Seq::empty()
    } else {
        lib_ids(cats.drop_last()) + cats.last().1@.map_values(|b: BookRef| b.id)
    }
}

/// The IDs that the library, the history and the update list of `c` name.
pub open spec fn ref_seq(c: Context) -> Seq<ID> {
    lib_ids(c.library.books@) + c.history.history@.map_values(|h: HistoryEntry| h.book.id)
        + c.updates.updates@.map_values(|e: UpdatesEntry| e.book.id)
}

/// The store `s` after the books not named in `keep` were dropped.
pub open spec fn after_unneeded_removed(s: Seq<(ID, Book)>, keep: Seq<ID>) -> Seq<(ID, Book)> {
    s.filter(|e: (ID, Book)| !holds_id(unneeded_ids(s, keep), e.0))
}

/// What `add_to_lib` does to `o`, giving `f` and the result `r`.
pub open spec fn add_to_lib_post(
    o: Context,
    f: Context,
    id: ID,
    category: Option<Seq<char>>,
    r: Result<(), TRError>,
) -> bool {
    &&& f.wf()
    &&& f.history == o.history
    &&& f.updates == o.updates
    &&& f.sources == o.sources
    &&& f.data_path == o.data_path
    &&& if !o.has_book(id) {
        r == Err::<(), TRError>(TRError::BookMissing) && f.books == o.books && f.library == o.library
    } else if o.book(id).in_library {
        r == Err::<(), TRError>(TRError::Redundant) && f.books == o.books && f.library == o.library
    } else {
        let nb = f.book(id);
        let target = match category {
            Some(c) => if o.library.has_category(c) {
                Some(c)
            } else {
                None
            },
            None => None,
        };
        &&& r is Ok
        &&& f.books_but(o, id, nb)
        &&& nb == Book { in_library: true, category: nb.category, ..o.book(id) }
        &&& opt_view(nb.category) == target
        &&& f.library.default_category_name == o.library.default_category_name
        &&& f.library.order_names() == o.library.order_names()
        &&& f.library.lists() == push_to(
            o.library,
            match target {
                Some(c) => c,
                None => o.library.default_category_name@,
            },
            id,
        )
    }
}

impl Context {
    /// Adds a book in memory to the library: to `category` if one is given and
    /// exists, else to the default category. The book is marked as in the
    /// library under that category (none for the default). A book not in
    /// memory gives `BookMissing`, one already in the library `Redundant`.
    pub fn add_to_lib(&mut self, id: ID, category: Option<&str>) -> (r: Result<(), TRError>)
        requires
            old(self).wf(),
        ensures
            add_to_lib_post(*old(self), *final(self), id, opt_str(category), r),
    {
        let i = match self.books.find_index(id) {
            None => return Err(TRError::BookMissing),
            Some(i) => i,
        };
        if self.books.books[i].1.in_library {
            return Err(TRError::Redundant);
        }
        let found = match category {
            None => None,
            Some(c) => match self.library.find_category(c) {
                Some(k) => Some((k, c)),
                None => None,
            },
        };
        self.books.books[i].1.in_library = true;
        self.books.books[i].1.category = match found {
            None => None,
            Some((_, c)) => Some(String::from_str(c)),
        };
        proof {
            self.books.lemma_keys_kept(old(self).books);
            self.books.lemma_index_of(id, i as int);
            assert(self.books.books@ =~= old(self).books.books@.update(i as int, (id, self.books.books@[i as int].1)));
        }
        match found {
            None => {
                let d = self.library.find_category(self.library.default_category_name.as_str()).unwrap();
                let ghost lo = self.library;
                self.library.books[d].1.push(BookRef { id });
                proof {
                    super::library::lemma_lists_update(lo, self.library, d as int);
                    lo.lemma_cat_index(lo.default_category_name@, d as int);
                }
                Ok(())
            },
            Some((k, c)) => {
                let ghost lo = self.library;
                self.library.books[k].1.push(BookRef { id });
                proof {
                    super::library::lemma_lists_update(lo, self.library, k as int);
                    lo.lemma_cat_index(c@, k as int);
                }
                Ok(())
            },
        }
    }

    /// Takes a book out of the library: out of every category, marked as not in
    /// the library and with no category; then drops from memory every other
    /// book that neither the library, the history nor the update list names.
    /// The book taken out stays in memory, so a handle on it still reaches it
    /// and reports it as out of the library.
    pub fn remove_from_lib(&mut self, id: ID)
        requires
            old(self).wf(),
        ensures
            final(self).wf(),
            final(self).history == old(self).history,
            final(self).updates == old(self).updates,
            !old(self).has_book(id) ==> final(self).books == old(self).books && final(self).library == old(self).library,
            old(self).has_book(id) ==> {
                &&& final(self).library.lists() == lists_without(old(self).library.lists(), id)
                &&& final(self).library.order_names() == old(self).library.order_names()
                &&& final(self).library.default_category_name == old(self).library.default_category_name
                &&& final(self).books.books@ == after_unneeded_removed(
                    old(self).books.books@.update(
                        old(self).books.index_of(id),
                        (id, Book { in_library: false, category: None, ..old(self).book(id) }),
                    ),
                    ref_seq(*final(self)).push(id),
                )
            },
    {
        let i = match self.books.find_index(id) {
            None => return,
            Some(i) => i,
        };
        self.library.remove_book(id);
        self.books.books[i].1.in_library = false;
        self.books.books[i].1.category = None;
        proof {
            self.books.lemma_keys_kept(old(self).books);
            assert(self.books.books@ =~= old(self).books.books@.update(
                i as int,
                (id, Book { in_library: false, category: None, ..old(self).book(id) }),
            ));
        }
        let mut keep = self.referenced_ids();
        keep.push(id);
        self.books.remove_unneeded(&keep);
    }

    /// The IDs that the library (category by category), the history and the
    /// update list name, in that order.
    pub fn referenced_ids(&self) -> (r: Vec<ID>)
        ensures
            r@ == ref_seq(*self),
    {
        let mut out: Vec<ID> = Vec::new();
        let mut k: usize = 0;
        while k < self.library.books.len()
            invariant
                k <= self.library.books@.len(),
                out@ == lib_ids(self.library.books@.take(k as int)),
            decreases self.library.books@.len() - k,
        {
            let list = &self.library.books[k].1;
            let ghost base = out@;
            let mut j: usize = 0;
            while j < list.len()
                invariant
                    j <= list@.len(),
                    out@ == base + list@.take(j as int).map_values(|b: BookRef| b.id),
                decreases list@.len() - j,
            {
                out.push(list[j].id);
                proof {
                    assert(out@ =~= base + list@.take(j + 1).map_values(|b: BookRef| b.id));
                }
                j = j + 1;
            }
            proof {
                crate::seqs::lemma_take_all(list@);
                let t = self.library.books@.take(k + 1);
                assert(t.drop_last() =~= self.library.books@.take(k as int));
                assert(t.last() == self.library.books@[k as int]);
            }
            k = k + 1;
        }
        proof {
            crate::seqs::lemma_take_all(self.library.books@);
        }
        let ghost lib = out@;
        let mut i: usize = 0;
        while i < self.history.history.len()
            invariant
                i <= self.history.history@.len(),
                out@ == lib + self.history.history@.take(i as int).map_values(|h: HistoryEntry| h.book.id),
            decreases self.history.history@.len() - i,
        {
            out.push(self.history.history[i].book.id);
            proof {
                assert(out@ =~= lib + self.history.history@.take(i + 1).map_values(|h: HistoryEntry| h.book.id));
            }
            i = i + 1;
        }
        proof {
            crate::seqs::lemma_take_all(self.history.history@);
        }
        let ghost lh = out@;
        let mut u: usize = 0;
        while u < self.updates.updates.len()
            invariant
                u <= self.updates.updates@.len(),
                out@ == lh + self.updates.updates@.take(u as int).map_values(|e: UpdatesEntry| e.book.id),
            decreases self.updates.updates@.len() - u,
        {
            out.push(self.updates.updates[u].book.id);
            proof {
                assert(out@ =~= lh + self.updates.updates@.take(u + 1).map_values(|e: UpdatesEntry| e.book.id));
            }
            u = u + 1;
        }
        proof {
            crate::seqs::lemma_take_all(self.updates.updates@);
        }
        out
    }
}

/// `mid` is `o` with the book `id` taken out of the library: out of every
/// category, marked as not in the library and with no category.
pub open spec fn moved_out(o: Context, mid: Context, id: ID) -> bool {
    &&& mid.wf()
    &&& mid.books_but(o, id, Book { in_library: false, category: None, ..o.book(id) })
    &&& mid.library.lists() == lists_without(o.library.lists(), id)
    &&& mid.library.order_names() == o.library.order_names()
    &&& mid.library.default_category_name == o.library.default_category_name
    &&& mid.history == o.history
    &&& mid.updates == o.updates
    &&& mid.sources == o.sources
    &&& mid.data_path == o.data_path
}

impl Context {
    /// Moves a book of the library to another category (the default one for
    /// `None`). A book not in memory gives `BookMissing`, one not in the
    /// library `BadUse`, one already in that category `Redundant`. Otherwise
    /// the book is taken out of the library and added again as `add_to_lib` does.
    pub fn move_book_category(&mut self, id: ID, category: Option<&str>) -> (r: Result<(), TRError>)
        requires
            old(self).wf(),
        ensures
            final(self).wf(),
            !old(self).has_book(id) ==> r == Err::<(), TRError>(TRError::BookMissing)
                && final(self).books == old(self).books && final(self).library == old(self).library,
            old(self).has_book(id) && !old(self).book(id).in_library ==> (r matches Err(TRError::BadUse(m))
                && m@ == "the book is not in the library"@) && final(self).books == old(self).books
                && final(self).library == old(self).library,
            old(self).has_book(id) && old(self).book(id).in_library && opt_view(old(self).book(id).category)
                == opt_str(category) ==> r == Err::<(), TRError>(TRError::Redundant)
                && final(self).books == old(self).books && final(self).library == old(self).library,
            old(self).has_book(id) && old(self).book(id).in_library && opt_view(old(self).book(id).category)
                != opt_str(category) ==> exists|mid: Context|
                #[trigger] moved_out(*old(self), mid, id) && add_to_lib_post(
                    mid,
                    *final(self),
                    id,
                    opt_str(category),
                    r,
                ),
            final(self).history == old(self).history,
            final(self).updates == old(self).updates,
    {
        let i = match self.books.find_index(id) {
            None => return Err(TRError::BookMissing),
            Some(i) => i,
        };
        if !self.books.books[i].1.in_library {
            return Err(TRError::BadUse(String::from_str("the book is not in the library")));
        }
        let same = match (&self.books.books[i].1.category, category) {
            (None, None) => true,
            (Some(a), Some(c)) => string_eq(a.as_str(), c),
            _ => false,
        };
        if same {
            return Err(TRError::Redundant);
        }
        self.library.remove_book(id);
        self.books.books[i].1.category = None;
        self.books.books[i].1.in_library = false;
        proof {
            self.books.lemma_keys_kept(old(self).books);
            assert(self.books.books@ =~= old(self).books.books@.update(
                i as int,
                (id, Book { in_library: false, category: None, ..old(self).book(id) }),
            ));
        }
        let ghost mid = *self;
        let r = self.add_to_lib(id, category);
        proof {
            assert(moved_out(*old(self), mid, id));
        }
        r
    }

    /// Create a new category in the library
    ///
    /// Errors if the category name is already in use
    pub fn create_library_category(&mut self, name: String) -> (r: Result<(), TRError>)
        requires
            old(self).wf(),
        ensures
            final(self).wf(),
            final(self).books == old(self).books,
            old(self).library.has_category(name@) ==> r == Err::<(), TRError>(TRError::Duplicate)
                && final(self).library.books@ == old(self).library.books@
                && final(self).library.category_order@ == old(self).library.category_order@,
            !old(self).library.has_category(name@) ==> r is Ok
                && final(self).library.books@ == old(self).library.books@.push(
                    (name, final(self).library.books@.last().1),
                ) && final(self).library.books@.last().1@.len() == 0
                && final(self).library.category_order@ == old(self).library.category_order@.push(name),
            final(self).library.default_category_name == old(self).library.default_category_name,
    {
        self.library.create_category(name)
    }

    /// Deletes a library category (see `LibraryContext::delete_category`).
    ///
    /// Errors if the default category is selected for deletion
    pub fn delete_library_category(&mut self, name: String) -> (r: Result<(), TRError>)
        requires
            old(self).wf(),
        ensures
            final(self).wf(),
            name@ == old(self).library.default_category_name@ ==> (r matches Err(TRError::InvalidChoice(m))
                && m@ == "the default category cannot be deleted"@)
                && final(self).library.lists() == old(self).library.lists()
                && final(self).books.books@ == old(self).books.books@,
            name@ != old(self).library.default_category_name@ ==> r is Ok,
            name@ != old(self).library.default_category_name@ && !old(self).library.has_category(name@)
                ==> final(self).library.lists() == old(self).library.lists()
                && final(self).books.books@ == old(self).books.books@,
            name@ != old(self).library.default_category_name@ && old(self).library.has_category(name@) ==> {
                &&& final(self).library.lists() == old(self).library.lists().remove(name@).insert(
                    old(self).library.default_category_name@,
                    old(self).library.category(old(self).library.default_category_name@)
                        + old(self).library.category(name@),
                )
                &&& final(self).library.order_names() == super::library::without(
                    old(self).library.order_names(),
                    name@,
                )
                &&& final(self).books.categories_cleared(old(self).books, old(self).library.category(name@))
            },
            final(self).history == old(self).history,
            final(self).updates == old(self).updates,
    {
        self.library.delete_category(name, &mut self.books)
    }

    /// Rename a library category (see `LibraryContext::rename_category`).
    ///
    /// Errors if the new category name is already in use
    pub fn rename_library_category(&mut self, old_name: String, new_name: String) -> (r: Result<(), TRError>)
        requires
            old(self).wf(),
        ensures
            final(self).wf(),
            final(self).books == old(self).books,
            final(self).history == old(self).history,
            final(self).updates == old(self).updates,
            final(self).sources == old(self).sources,
            final(self).data_path == old(self).data_path,
            old(self).library.has_category(new_name@) ==> r == Err::<(), TRError>(TRError::Duplicate)
                && final(self).library.lists() == old(self).library.lists()
                && final(self).library.order_names() == old(self).library.order_names()
                && final(self).library.default_category_name == old(self).library.default_category_name,
            !old(self).library.has_category(new_name@) ==> r is Ok,
            !old(self).library.has_category(new_name@) && old(self).library.has_category(old_name@) ==> {
                &&& final(self).library.lists() == old(self).library.lists().remove(old_name@).insert(
                    new_name@,
                    old(self).library.category(old_name@),
                )
                &&& final(self).library.order_names() == super::library::renamed(
                    old(self).library.order_names(),
                    old_name@,
                    new_name@,
                )
                &&& final(self).library.default_category_name@ == (if old(self).library.default_category_name@
                    == old_name@ {
                    new_name@
                } else {
                    old(self).library.default_category_name@
                })
            },
            !old(self).library.has_category(new_name@) && !old(self).library.has_category(old_name@)
                ==> final(self).library.lists() == old(self).library.lists()
                && final(self).library.order_names() == old(self).library.order_names()
                && final(self).library.default_category_name == old(self).library.default_category_name,
    {
        self.library.rename_category(old_name, new_name)
    }
}

impl BookRef {
    /// The ID the book holds.
    pub fn get_id(&self, ctx: &Context) -> (r: ID)
        requires
            ctx.wf(),
            ctx.has_book(self.id),
        ensures
            r == ctx.book(self.id).id,
    {
        let i = ctx.books.find_index(self.id).unwrap();
        ctx.books.books[i].1.get_id()
    }

    /// Returns the name of the `Book`
    pub fn get_name(&self, ctx: &Context) -> (r: String)
        requires
            ctx.wf(),
            ctx.has_book(self.id),
        ensures
            r == ctx.book(self.id).name,
    {
        let i = ctx.books.find_index(self.id).unwrap();
        ctx.books.books[i].1.name.clone()
    }

    /// Returns true if the `Book` is in the library
    pub fn in_library(&self, ctx: &Context) -> (r: bool)
        requires
            ctx.wf(),
            ctx.has_book(self.id),
        ensures
            r == ctx.book(self.id).in_library,
    {
        let i = ctx.books.find_index(self.id).unwrap();
        ctx.books.books[i].1.in_library
    }

    /// The book's own part of its URL; `None` for a local book.
    pub fn get_url(&self, ctx: &Context) -> (r: Option<String>)
        requires
            ctx.wf(),
            ctx.has_book(self.id),
        ensures
            opt_view(r) == match ctx.book(self.id).data {
                super::book::BookData::Local(_) => None,
                super::book::BookData::Global(d) => Some(d.source_novel.novel_url@),
            },
    {
        let i = ctx.books.find_index(self.id).unwrap();
        match ctx.books.books[i].1.get_url() {
            Some(u) => Some(String::from_str(u)),
            None => None,
        }
    }

    /// The URL of a chapter; `None` for a local book or a chapter it does not list.
    pub fn get_chapter_url(&self, ctx: &Context, chapter: usize) -> (r: Option<String>)
        requires
            ctx.wf(),
            ctx.has_book(self.id),
        ensures
            opt_view(r) == match ctx.book(self.id).data {
                super::book::BookData::Local(_) => None,
                super::book::BookData::Global(d) => crate::sources::novel::chapter_url_spec(
                    d.source_novel.chapters@,
                    chapter,
                ),
            },
    {
        let i = ctx.books.find_index(self.id).unwrap();
        ctx.books.books[i].1.get_chapter_url(chapter)
    }

    /// The book's full URL; `None` for a local book.
    pub fn get_full_url(&self, ctx: &Context) -> (r: Option<String>)
        requires
            ctx.wf(),
            ctx.has_book(self.id),
        ensures
            opt_view(r) == ctx.book(self.id).full_url_spec(),
    {
        let i = ctx.books.find_index(self.id).unwrap();
        match ctx.books.books[i].1.get_full_url() {
            Some(u) => Some(String::from_str(u)),
            None => None,
        }
    }

    /// Renames the referenced `Book`
    pub fn rename(&self, ctx: &mut Context, new_name: String)
        requires
            old(ctx).wf(),
            old(ctx).has_book(self.id),
        ensures
            final(ctx).wf(),
            final(ctx).books_but(*old(ctx), self.id, final(ctx).book(self.id)),
            super::book::rename_post(old(ctx).book(self.id), final(ctx).book(self.id), new_name),
            final(ctx).same_lists(*old(ctx)),
    {
        let i = ctx.books.find_index(self.id).unwrap();
        ctx.books.books[i].1.rename(new_name);
        proof {
            ctx.books.lemma_keys_kept(old(ctx).books);
            ctx.books.lemma_index_of(self.id, i as int);
            assert(ctx.books.books@ =~= old(ctx).books.books@.update(i as int, (self.id, ctx.books.books@[i as int].1)));
        }
    }

    /// Resets all progress related to the `Book`
    pub fn reset_progress(&self, ctx: &mut Context)
        requires
            old(ctx).wf(),
            old(ctx).has_book(self.id),
        ensures
            final(ctx).wf(),
            final(ctx).books_but(*old(ctx), self.id, final(ctx).book(self.id)),
            super::book::reset_post(old(ctx).book(self.id), final(ctx).book(self.id)),
            final(ctx).same_lists(*old(ctx)),
    {
        let i = ctx.books.find_index(self.id).unwrap();
        ctx.books.books[i].1.reset_progress();
        proof {
            ctx.books.lemma_keys_kept(old(ctx).books);
            ctx.books.lemma_index_of(self.id, i as int);
            assert(ctx.books.books@ =~= old(ctx).books.books@.update(i as int, (self.id, ctx.books.books@[i as int].1)));
        }
    }

    /// Returns true if a book is locally sourced
    pub fn is_local(&self, ctx: &Context) -> (r: bool)
        requires
            ctx.wf(),
            ctx.has_book(self.id),
        ensures
            r == ctx.book(self.id).data is Local,
    {
        let i = ctx.books.find_index(self.id).unwrap();
        ctx.books.books[i].1.is_local()
    }

    /// Returns true if a book is not locally sourced
    pub fn is_global(&self, ctx: &Context) -> (r: bool)
        requires
            ctx.wf(),
            ctx.has_book(self.id),
        ensures
            r == ctx.book(self.id).data is Global,
    {
        let i = ctx.books.find_index(self.id).unwrap();
        ctx.books.books[i].1.is_global()
    }

    /// Returns the progress for the chapter currently being read
    pub fn get_current_ch_progress(&self, ctx: &Context) -> (r: super::book::ChapterProgress)
        requires
            ctx.wf(),
            ctx.has_book(self.id),
        ensures
            r == ctx.book(self.id).current_progress_spec(),
    {
        let i = ctx.books.find_index(self.id).unwrap();
        ctx.books.books[i].1.get_current_ch_progress()
    }

    /// The progress of every chapter (of a local book: chapter 0).
    pub fn get_all_chapter_progress(&self, ctx: &Context) -> (r: std::collections::HashMap<usize, super::book::ChapterProgress>)
        requires
            ctx.wf(),
            ctx.has_book(self.id),
        ensures
            match ctx.book(self.id).data {
                super::book::BookData::Local(d) => r@ == Map::<usize, super::book::ChapterProgress>::empty().insert(
                    0,
                    d.progress,
                ),
                super::book::BookData::Global(d) => r@ == d.chapter_progress@,
            },
    {
        let i = ctx.books.find_index(self.id).unwrap();
        ctx.books.books[i].1.get_all_ch_progress()
    }

    /// Returns the current chapter
    ///
    /// Returns `None` when called on a locally sourced book
    pub fn get_current_ch(&self, ctx: &Context) -> (r: Option<usize>)
        requires
            ctx.wf(),
            ctx.has_book(self.id),
        ensures
            match ctx.book(self.id).data {
                super::book::BookData::Local(_) => r is None,
                super::book::BookData::Global(d) => r == Some(d.current_chapter),
            },
    {
        let i = ctx.books.find_index(self.id).unwrap();
        ctx.books.books[i].1.get_current_ch()
    }

    /// Returns the total chapter count
    ///
    /// Returns `None` when called on a locally sourced book
    pub fn get_total_ch_count(&self, ctx: &Context) -> (r: Option<usize>)
        requires
            ctx.wf(),
            ctx.has_book(self.id),
        ensures
            match ctx.book(self.id).data {
                super::book::BookData::Local(_) => r is None,
                super::book::BookData::Global(d) => r == Some(d.total_chapters),
            },
    {
        let i = ctx.books.find_index(self.id).unwrap();
        ctx.books.books[i].1.get_total_chs()
    }

    /// Sets the progress for a chapter of a global book
    ///
    /// Errors when called on a locally sourced book
    pub fn global_set_progress(
        &self,
        ctx: &mut Context,
        progress: super::book::ChapterProgress,
        chapter: usize,
    ) -> (r: Result<(), TRError>)
        requires
            old(ctx).wf(),
            old(ctx).has_book(self.id),
        ensures
            final(ctx).wf(),
            final(ctx).books_but(*old(ctx), self.id, final(ctx).book(self.id)),
            super::book::set_progress_post(old(ctx).book(self.id), final(ctx).book(self.id), progress, chapter, r),
            final(ctx).same_lists(*old(ctx)),
    {
        let i = ctx.books.find_index(self.id).unwrap();
        let r = ctx.books.books[i].1.global_set_progress(progress, chapter);
        proof {
            ctx.books.lemma_keys_kept(old(ctx).books);
            ctx.books.lemma_index_of(self.id, i as int);
            assert(ctx.books.books@ =~= old(ctx).books.books@.update(i as int, (self.id, ctx.books.books@[i as int].1)));
        }
        r
    }

    /// Marks a chapter as read for a global book
    ///
    /// Errors when called on a locally sourced book
    pub fn global_mark_ch_read(&self, ctx: &mut Context, chapter: usize) -> (r: Result<(), TRError>)
        requires
            old(ctx).wf(),
            old(ctx).has_book(self.id),
        ensures
            final(ctx).wf(),
            final(ctx).books_but(*old(ctx), self.id, final(ctx).book(self.id)),
            super::book::mark_read_post(old(ctx).book(self.id), final(ctx).book(self.id), chapter, r),
            final(ctx).same_lists(*old(ctx)),
    {
        let i = ctx.books.find_index(self.id).unwrap();
        let r = ctx.books.books[i].1.global_mark_ch_read(chapter);
        proof {
            ctx.books.lemma_keys_kept(old(ctx).books);
            ctx.books.lemma_index_of(self.id, i as int);
            assert(ctx.books.books@ =~= old(ctx).books.books@.update(i as int, (self.id, ctx.books.books@[i as int].1)));
        }
        r
    }

    /// Sets the current chapter for a global book
    ///
    /// Errors when called on a locally sourced book (`BadUse`), or when the
    /// chapter is outside the chapter range, which runs from 1 to the number
    /// of chapters (`InvalidArgument`)
    pub fn global_set_chapter(&self, ctx: &mut Context, chapter: usize) -> (r: Result<(), TRError>)
        requires
            old(ctx).wf(),
            old(ctx).has_book(self.id),
        ensures
            final(ctx).wf(),
            final(ctx).same_lists(*old(ctx)),
            old(ctx).book(self.id).data is Local ==> (r matches Err(e) && super::book::local_misuse(e))
                && final(ctx).books == old(ctx).books,
            old(ctx).book(self.id).data is Global && (chapter == 0 || chapter > old(ctx).book(self.id).global_spec().total_chapters)
                ==> (r matches Err(TRError::InvalidArgument(m)) && m@ == "chapter outside of range"@)
                && final(ctx).books == old(ctx).books,
            old(ctx).book(self.id).data is Global && 1 <= chapter <= old(ctx).book(self.id).global_spec().total_chapters
                ==> r is Ok && final(ctx).books_but(*old(ctx), self.id, final(ctx).book(self.id))
                && super::book::set_ch_post(old(ctx).book(self.id), final(ctx).book(self.id), chapter, r)
                && final(ctx).book(self.id).global_spec().current_chapter == chapter,
    {
        let i = ctx.books.find_index(self.id).unwrap();
        let total_chapters = match ctx.books.books[i].1.get_total_chs() {
            None => return Err(super::book::local_misuse_error()),
            Some(t) => t,
        };
        if 1 <= chapter && chapter <= total_chapters {
            let r = ctx.books.books[i].1.global_set_ch(chapter);
            proof {
                ctx.books.lemma_keys_kept(old(ctx).books);
                ctx.books.lemma_index_of(self.id, i as int);
                assert(ctx.books.books@ =~= old(ctx).books.books@.update(i as int, (self.id, ctx.books.books@[i as int].1)));
            }
            r
        } else {
            Err(TRError::InvalidArgument(String::from_str("chapter outside of range")))
        }
    }

    /// Returns the amount of chapters that have been read in order from the start
    ///
    /// Errors when called on a locally sourced book
    pub fn global_get_ordered_chapters(&self, ctx: &Context) -> (r: Result<usize, TRError>)
        requires
            ctx.wf(),
            ctx.has_book(self.id),
        ensures
            match ctx.book(self.id).data {
                super::book::BookData::Local(_) => r matches Err(e) && super::book::local_misuse(e),
                super::book::BookData::Global(d) => r == Ok::<usize, TRError>(d.chapters_read_ordered),
            },
    {
        let i = ctx.books.find_index(self.id).unwrap();
        ctx.books.books[i].1.global_get_ordered_chapters()
    }

    /// The chapter that reading the book in order continues with (see
    /// `Book::global_get_next_ordered_chap`).
    pub fn global_get_next_ordered_chap(&self, ctx: &Context) -> (r: Option<usize>)
        requires
            ctx.wf(),
            ctx.has_book(self.id),
        ensures
            r == ctx.book(self.id).next_ordered_spec(),
    {
        let i = ctx.books.find_index(self.id).unwrap();
        let mut b = ctx.books.books[i].1.clone();
        let r = b.global_get_next_ordered_chap();
        proof {
            assert(b.same(ctx.book(self.id)));
        }
        r
    }

    /// Returns a global novels original name
    pub fn global_get_original_name(&self, ctx: &Context) -> (r: Result<String, TRError>)
        requires
            ctx.wf(),
            ctx.has_book(self.id),
        ensures
            match ctx.book(self.id).data {
                super::book::BookData::Local(_) => r matches Err(e) && super::book::local_misuse(e),
                super::book::BookData::Global(d) => r matches Ok(n) && n@ == d.source_novel.name@,
            },
    {
        let i = ctx.books.find_index(self.id).unwrap();
        let b = &ctx.books.books[i].1;
        if b.is_global() {
            Ok(String::from_str(b.global_get_novel().get_name()))
        } else {
            Err(super::book::local_misuse_error())
        }
    }

    /// The synopsis of a web book.
    pub fn get_synopsis(&self, ctx: &Context) -> (r: String)
        requires
            ctx.wf(),
            ctx.has_book(self.id),
            ctx.book(self.id).data is Global,
        ensures
            r@ == crate::sources::novel::synopsis_spec(
                ctx.book(self.id).novel_spec().author@,
                ctx.book(self.id).novel_spec().status,
                ctx.book(self.id).novel_spec().genres@,
                ctx.book(self.id).novel_spec().summary@,
            ),
    {
        let i = ctx.books.find_index(self.id).unwrap();
        ctx.books.books[i].1.global_get_novel().get_synopsis()
    }

    /// Returns the chapters a book has
    ///
    /// Errors when called on a locally sourced book
    pub fn get_chapters(&self, ctx: &Context) -> (r: Result<Vec<crate::sources::chapter::ChapterPreview>, TRError>)
        requires
            ctx.wf(),
            ctx.has_book(self.id),
        ensures
            match ctx.book(self.id).data {
                super::book::BookData::Local(_) => r matches Err(e) && super::book::local_misuse(e),
                super::book::BookData::Global(d) => r matches Ok(v) && v@ == d.source_novel.chapters@,
            },
    {
        let i = ctx.books.find_index(self.id).unwrap();
        match ctx.books.books[i].1.get_chapters() {
            Some(chs) => {
                let v = chs.clone();
                proof {
                    assert forall|k: int| 0 <= k < v@.len() implies v@[k] == chs@[k] by {
                        assert(cloned(chs@[k], v@[k]));
                    }
                    assert(v@ =~= chs@);
                }
                Ok(v)
            },
            None => Err(super::book::local_misuse_error()),
        }
    }

    /// Get a copy of the `Book` that is referenced
    pub fn get_book(self, ctx: &Context) -> (r: Book)
        requires
            ctx.wf(),
            ctx.has_book(self.id),
        ensures
            r.same(ctx.book(self.id)),
    {
        let i = ctx.books.find_index(self.id).unwrap();
        ctx.books.books[i].1.clone()
    }
}

impl HistoryEntry {
    /// The name of the entry's book.
    pub fn get_book_name(&self, ctx: &Context) -> (r: String)
        requires
            ctx.wf(),
            ctx.has_book(self.book.id),
        ensures
            r == ctx.book(self.book.id).name,
    {
        self.book.get_name(ctx)
    }
}

impl BooksContext {
    /// Changing the book at one position keeps the keys, so the store stays well formed.
    pub proof fn lemma_keys_kept(self, o: BooksContext)
        requires
            o.wf(),
            self.books@.len() == o.books@.len(),
            forall|j: int| 0 <= j < self.books@.len() ==> (#[trigger] self.books@[j]).0 == o.books@[j].0,
        ensures
            self.wf(),
            forall|id: ID| o.has(id) ==> self.has(id) && self.index_of(id) == o.index_of(id),
    {
        assert forall|i: int, j: int|
            0 <= i < self.books@.len() && 0 <= j < self.books@.len() && i != j implies
            (#[trigger] self.books@[i]).0 != (#[trigger] self.books@[j]).0 by {
            assert(o.books@[i].0 != o.books@[j].0);
        }
        assert forall|id: ID| o.has(id) implies self.has(id) && self.index_of(id) == o.index_of(id) by {
            let i = o.index_of(id);
            assert(self.books@[i].0 == o.books@[i].0);
            self.lemma_index_of(id, i);
        }
    }
}

/// Whether a category of `cats` is named `name`.
fn names_category(cats: &Vec<(String, Vec<ID>)>, name: &str) -> (r: bool)
    ensures
        r == exists|k: int| 0 <= k < cats@.len() && (#[trigger] cats@[k]).0@ == name@,
{
    let mut k: usize = 0;
    while k < cats.len()
        invariant
            k <= cats@.len(),
            forall|j: int| 0 <= j < k ==> (#[trigger] cats@[j]).0@ != name@,
        decreases cats@.len() - k,
    {
        if string_eq(cats[k].0.as_str(), name) {
            return true;
        }
        k = k + 1;
    }
    false
}

impl LibCtxSerialize {
    /// Every book the saved library names is among `books`.
    pub open spec fn refs_present(&self, books: &BooksContext) -> bool {
        forall|k: int, j: int|
            0 <= k < self.books@.len() && 0 <= j < self.books@[k].1@.len() ==> books.has(
                #[trigger] self.books@[k].1@[j],
            )
    }

    /// The saved library is well formed as a `LibraryContext` is: no two
    /// categories share a name, the default exists, and the order lists each
    /// category once.
    pub open spec fn wf(&self) -> bool {
        &&& forall|i: int, j: int|
            0 <= i < self.books@.len() && 0 <= j < self.books@.len() && i != j
                ==> (#[trigger] self.books@[i]).0@ != (#[trigger] self.books@[j]).0@
        &&& exists|i: int| 0 <= i < self.books@.len() && (#[trigger] self.books@[i]).0@ == self.default_category_name@
        &&& forall|i: int, j: int|
            0 <= i < self.category_order@.len() && 0 <= j < self.category_order@.len() && i != j
                ==> (#[trigger] self.category_order@[i])@ != (#[trigger] self.category_order@[j])@
        &&& forall|i: int|
            0 <= i < self.category_order@.len() ==> exists|k: int|
                0 <= k < self.books@.len() && (#[trigger] self.books@[k]).0@ == (#[trigger] self.category_order@[i])@
        &&& forall|k: int|
            0 <= k < self.books@.len() ==> exists|i: int|
                0 <= i < self.category_order@.len() && (#[trigger] self.category_order@[i])@ == (#[trigger] self.books@[k]).0@
    }

    /// Whether the saved library is well formed (see `wf`).
    pub fn is_wf(&self) -> (r: bool)
        ensures
            r == self.wf(),
    {
        let mut names: Vec<String> = Vec::new();
        let mut k: usize = 0;
        while k < self.books.len()
            invariant
                k <= self.books@.len(),
                names@.len() == k,
                forall|j: int| 0 <= j < k ==> (#[trigger] names@[j]) == self.books@[j].0,
            decreases self.books@.len() - k,
        {
            names.push(self.books[k].0.clone());
            k = k + 1;
        }
        let distinct = names_distinct(&names);
        proof {
            if distinct {
                assert forall|i: int, j: int|
                    0 <= i < self.books@.len() && 0 <= j < self.books@.len() && i != j
                        implies (#[trigger] self.books@[i]).0@ != (#[trigger] self.books@[j]).0@ by {
                    assert(names@[i] == self.books@[i].0 && names@[j] == self.books@[j].0);
                }
            } else {
                let (i, j) = choose|i: int, j: int|
                    0 <= i < names@.len() && 0 <= j < names@.len() && i != j && (#[trigger] names@[i])@ == (#[trigger] names@[j])@;
                assert(self.books@[i].0@ == self.books@[j].0@);
            }
        }
        if !distinct {
            return false;
        }
        if !names_category(&self.books, self.default_category_name.as_str()) {
            return false;
        }
        if !names_distinct(&self.category_order) {
            return false;
        }
        let mut i: usize = 0;
        while i < self.category_order.len()
            invariant
                i <= self.category_order@.len(),
                forall|a: int|
                    0 <= a < i ==> exists|k: int|
                        0 <= k < self.books@.len() && (#[trigger] self.books@[k]).0@ == (#[trigger] self.category_order@[a])@,
            decreases self.category_order@.len() - i,
        {
            if !names_category(&self.books, self.category_order[i].as_str()) {
                return false;
            }
            i = i + 1;
        }
        let mut k: usize = 0;
        while k < self.books.len()
            invariant
                k <= self.books@.len(),
                forall|b: int|
                    0 <= b < k ==> exists|i: int|
                        0 <= i < self.category_order@.len() && (#[trigger] self.category_order@[i])@ == (#[trigger] self.books@[b]).0@,
            decreases self.books@.len() - k,
        {
            if !lists_name(&self.category_order, self.books[k].0.as_str()) {
                return false;
            }
            k = k + 1;
        }
        true
    }

    /// Whether every book the saved library names is among `books` (see
    /// `refs_present`).
    pub fn names_only(&self, books: &BooksContext) -> (r: bool)
        requires
            books.wf(),
        ensures
            r == self.refs_present(books),
    {
        let mut k: usize = 0;
        while k < self.books.len()
            invariant
                books.wf(),
                k <= self.books@.len(),
                forall|a: int, j: int|
                    0 <= a < k && 0 <= j < self.books@[a].1@.len() ==> books.has(#[trigger] self.books@[a].1@[j]),
            decreases self.books@.len() - k,
        {
            let ids = &self.books[k].1;
            let mut j: usize = 0;
            while j < ids.len()
                invariant
                    books.wf(),
                    ids@ == self.books@[k as int].1@,
                    k < self.books@.len(),
                    j <= ids@.len(),
                    forall|a: int, x: int|
                        0 <= a < k && 0 <= x < self.books@[a].1@.len() ==> books.has(#[trigger] self.books@[a].1@[x]),
                    forall|x: int| 0 <= x < j ==> books.has(#[trigger] ids@[x]),
                decreases ids@.len() - j,
            {
                if books.find_index(ids[j]).is_none() {
                    return false;
                }
                j = j + 1;
            }
            k = k + 1;
        }
        true
    }

    /// The library for a saved one; every book it names must be in memory.
    pub fn to_lib_ctx(self, books: &BooksContext) -> (r: LibraryContext)
        requires
            self.wf(),
            books.wf(),
            self.refs_present(books),
        ensures
            r.wf(),
            r.books@.len() == self.books@.len(),
            forall|k: int|
                0 <= k < r.books@.len() ==> (#[trigger] r.books@[k]).0 == self.books@[k].0
                    && r.books@[k].1@.map_values(|b: BookRef| b.id) == self.books@[k].1@,
            r.default_category_name == self.default_category_name,
            r.category_order == self.category_order,
    {
        let ghost sb = self.books@;
        let LibCtxSerialize { books: saved, default_category_name, category_order } = self;
        let mut out: Vec<(String, Vec<BookRef>)> = Vec::new();
        let mut k: usize = 0;
        while k < saved.len()
            invariant
                saved@ == sb,
                books.wf(),
                forall|a: int, j: int|
                    0 <= a < sb.len() && 0 <= j < sb[a].1@.len() ==> books.has(#[trigger] sb[a].1@[j]),
                k <= saved@.len(),
                out@.len() == k,
                forall|i: int|
                    0 <= i < k ==> (#[trigger] out@[i]).0 == saved@[i].0 && out@[i].1@.map_values(
                        |b: BookRef| b.id,
                    ) == saved@[i].1@,
            decreases saved@.len() - k,
        {
            let ids = &saved[k].1;
            let mut refs: Vec<BookRef> = Vec::new();
            let mut j: usize = 0;
            while j < ids.len()
                invariant
                    books.wf(),
                    forall|x: int| 0 <= x < ids@.len() ==> books.has(#[trigger] ids@[x]),
                    j <= ids@.len(),
                    refs@.map_values(|b: BookRef| b.id) == ids@.take(j as int),
                decreases ids@.len() - j,
            {
                let ghost before = refs@;
                let b = books.get(ids[j]).unwrap();
                refs.push(b);
                proof {
                    assert(b.id == ids@[j as int]);
                    assert(before.push(b).map_values(|b: BookRef| b.id) =~= before.map_values(|b: BookRef| b.id).push(b.id));
                    assert(ids@.take(j + 1) =~= ids@.take(j as int).push(ids@[j as int]));
                    assert(refs@.map_values(|b: BookRef| b.id) =~= ids@.take(j + 1));
                }
                j = j + 1;
            }
            proof {
                crate::seqs::lemma_take_all(ids@);
            }
            out.push((saved[k].0.clone(), refs));
            k = k + 1;
        }
        let r = LibraryContext { books: out, default_category_name, category_order };
        proof {
            assert forall|a: int| 0 <= a < r.books@.len() implies #[trigger] r.books@[a].0@ == sb[a].0@ by {}
            let d = choose|i: int| 0 <= i < sb.len() && (#[trigger] sb[i]).0@ == r.default_category_name@;
            assert(r.books@[d].0@ == r.default_category_name@);
            assert forall|i: int| 0 <= i < r.category_order@.len() implies r.has_category((#[trigger] r.category_order@[i])@) by {
                let k = choose|k: int| 0 <= k < sb.len() && (#[trigger] sb[k]).0@ == (#[trigger] r.category_order@[i])@;
                assert(r.books@[k].0@ == sb[k].0@);
            }
            assert forall|a: int| 0 <= a < r.books@.len() implies r.in_order((#[trigger] r.books@[a]).0@) by {
                assert(r.books@[a].0@ == sb[a].0@);
                let i = choose|i: int| 0 <= i < r.category_order@.len() && (#[trigger] r.category_order@[i])@ == (#[trigger] sb[a]).0@;
            }
            assert forall|a: int, b: int|
                0 <= a < r.books@.len() && 0 <= b < r.books@.len() && a != b
                    implies (#[trigger] r.books@[a]).0@ != (#[trigger] r.books@[b]).0@ by {
                assert(sb[a].0@ != sb[b].0@);
            }
        }
        r
    }

    /// The library as it is saved: each book by its ID.
    pub fn from_lib_ctx(lib_ctx: LibraryContext) -> (r: Self)
        ensures
            r.books@.len() == lib_ctx.books@.len(),
            forall|k: int|
                0 <= k < r.books@.len() ==> (#[trigger] r.books@[k]).0 == lib_ctx.books@[k].0
                    && r.books@[k].1@ == lib_ctx.books@[k].1@.map_values(|b: BookRef| b.id),
            r.default_category_name == lib_ctx.default_category_name,
            r.category_order == lib_ctx.category_order,
    {
        let LibraryContext { books, default_category_name, category_order } = lib_ctx;
        let mut out: Vec<(String, Vec<ID>)> = Vec::new();
        let mut k: usize = 0;
        while k < books.len()
            invariant
                k <= books@.len(),
                out@.len() == k,
                forall|i: int|
                    0 <= i < k ==> (#[trigger] out@[i]).0 == books@[i].0 && out@[i].1@ == books@[i].1@.map_values(
                        |b: BookRef| b.id,
                    ),
            decreases books@.len() - k,
        {
            let list = &books[k].1;
            let mut ids: Vec<ID> = Vec::new();
            let mut j: usize = 0;
            while j < list.len()
                invariant
                    j <= list@.len(),
                    ids@ == list@.take(j as int).map_values(|b: BookRef| b.id),
                decreases list@.len() - j,
            {
                ids.push(list[j].id);
                proof {
                    assert(ids@ =~= list@.take(j + 1).map_values(|b: BookRef| b.id));
                }
                j = j + 1;
            }
            proof {
                crate::seqs::lemma_take_all(list@);
            }
            out.push((books[k].0.clone(), ids));
            k = k + 1;
        }
        Self { books: out, default_category_name, category_order }
    }
}

} // verus!
