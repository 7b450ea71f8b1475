use std::collections::VecDeque;
use vstd::prelude::*;

use super::book::Book;
use super::books_context::{BookRef, BooksContext};
use super::id::ID;
use crate::clock::secs_since_epoch;

verus! {

/// One entry of the reading history: which book, when, and at which chapter.
#[derive(Debug, Clone, Copy, PartialEq, Eq, Structural)]
pub struct HistoryEntry {
    pub book: BookRef,
    pub timestamp: u64,
    pub chapter: usize,
}

/// The reading history, most recent first.
#[derive(Debug)]
pub struct HistoryContext {
    pub history: VecDeque<HistoryEntry>,
}

/// The chapter a history entry records for a book: 0 for a local book, else its current chapter.
pub open spec fn history_chapter(b: Book) -> usize {
    match b.data {
        super::book::BookData::Local(_) => 0,
        super::book::BookData::Global(d) => d.current_chapter,
    }
}

impl HistoryContext {
    pub fn new() -> (r: Self)
        ensures
            r.history@.len() == 0,
    {
        Self { history: VecDeque::new() }
    }

    /// Forgets every entry.
    pub fn clear(&mut self)
        ensures
            final(self).history@.len() == 0,
    {
        self.history = VecDeque::new();
    }

    pub fn get_history(&self) -> (r: &VecDeque<HistoryEntry>)
        ensures
            r@ == self.history@,
    {
        &self.history
    }

    /// Drops every entry of the book `id`.
    pub fn remove_entry(&mut self, id: ID)
        ensures
            final(self).history@ == old(self).history@.filter(|h: HistoryEntry| h.book.id != id),
    {
        let ghost s = self.history@;
        let ghost pred = |h: HistoryEntry| h.book.id != id;
        let mut kept: VecDeque<HistoryEntry> = VecDeque::new();
        let mut i: usize = 0;
        while i < self.history.len()
            invariant
                self.history@ == s,
                i <= s.len(),
                kept@ == s.take(i as int).filter(pred),
                pred == (|h: HistoryEntry| h.book.id != id),
            decreases s.len() - i,
        {
            proof {
                crate::seqs::lemma_filter_take_step(s, pred, i as int);
            }
            let h = self.history[i];
            if h.book.id != id {
                kept.push_back(h);
            }
            i = i + 1;
        }
        proof {
            crate::seqs::lemma_take_all(s);
        }
        self.history = kept;
    }

    /// Puts a new entry for `book` at the front, stamped with the current
    /// time, recording chapter 0 for a local book or its current chapter.
    pub fn add_entry(&mut self, book: BookRef, store: &BooksContext)
        requires
            store.wf(),
            store.has(book.id),
        ensures
            final(self).history@.len() == old(self).history@.len() + 1,
            final(self).history@.drop_first() == old(self).history@,
            final(self).history@[0].book == book,
            final(self).history@[0].chapter == history_chapter(store.book(book.id)),
    {
        let timestamp = secs_since_epoch();
        let i = store.find_index(book.id).unwrap();
        let b = &store.books[i].1;
        let chapter = match b.get_current_ch() {
            None => 0,
            Some(ch) => ch,
        };
        self.history.push_front(HistoryEntry { book, timestamp, chapter });
        proof {
            assert(self.history@.drop_first() =~= old(self).history@);
        }
    }
}

impl HistoryEntry {
    pub fn get_timestamp(&self) -> (r: u64)
        ensures
            r == self.timestamp,
    {
        self.timestamp
    }

    pub fn get_chapter(&self) -> (r: usize)
        ensures
            r == self.chapter,
    {
        self.chapter
    }

    pub fn get_book_id(&self) -> (r: ID)
        ensures
            r == self.book.id,
    {
        self.book.id
    }

    pub fn get_book_ref(&self) -> (r: BookRef)
        ensures
            r == self.book,
    {
        self.book
    }
}

/// A history entry as it is saved: the book by its ID.
#[derive(Debug, Clone, Copy, PartialEq, Eq, Structural)]
pub struct HistEntrySerialize {
    pub book: ID,
    pub timestamp: u64,
    pub chapter: usize,
}

impl HistEntrySerialize {
    pub fn from_hist_entry(entry: HistoryEntry) -> (r: Self)
        ensures
            r.book == entry.book.id,
            r.timestamp == entry.timestamp,
            r.chapter == entry.chapter,
    {
        Self { book: entry.book.id, timestamp: entry.timestamp, chapter: entry.chapter }
    }

    /// The entry for a saved one; its book must be in memory.
    pub fn to_hist_entry(self, books: &BooksContext) -> (r: HistoryEntry)
        requires
            books.wf(),
            books.has(self.book),
        ensures
            r.book.id == self.book,
            r.timestamp == self.timestamp,
            r.chapter == self.chapter,
    {
        let b = books.get(self.book).unwrap();
        HistoryEntry { book: b, timestamp: self.timestamp, chapter: self.chapter }
    }
}

/// The history as it is saved.
#[derive(Debug)]
pub struct HistCtxSerialize {
    pub history: VecDeque<HistEntrySerialize>,
}

impl HistCtxSerialize {
    pub fn from_hist_ctx(hist_ctx: HistoryContext) -> (r: Self)
        ensures
            r.history@.len() == hist_ctx.history@.len(),
            forall|i: int|
                0 <= i < r.history@.len() ==> (#[trigger] r.history@[i]).book == hist_ctx.history@[i].book.id
                    && r.history@[i].timestamp == hist_ctx.history@[i].timestamp
                    && r.history@[i].chapter == hist_ctx.history@[i].chapter,
    {
        let mut out: VecDeque<HistEntrySerialize> = VecDeque::new();
        let mut i: usize = 0;
        while i < hist_ctx.history.len()
            invariant
                i <= hist_ctx.history@.len(),
                out@.len() == i,
                forall|k: int|
                    0 <= k < i ==> (#[trigger] out@[k]).book == hist_ctx.history@[k].book.id
                        && out@[k].timestamp == hist_ctx.history@[k].timestamp
                        && out@[k].chapter == hist_ctx.history@[k].chapter,
            decreases hist_ctx.history@.len() - i,
        {
            out.push_back(HistEntrySerialize::from_hist_entry(hist_ctx.history[i]));
            i = i + 1;
        }
        Self { history: out }
    }

    /// The history for a saved one; every book it names must be in memory.
    pub fn to_hist_ctx(self, books: &BooksContext) -> (r: HistoryContext)
        requires
            books.wf(),
            forall|i: int| 0 <= i < self.history@.len() ==> books.has((#[trigger] self.history@[i]).book),
        ensures
            r.history@.len() == self.history@.len(),
            forall|i: int|
                0 <= i < r.history@.len() ==> (#[trigger] r.history@[i]).book.id == self.history@[i].book
                    && r.history@[i].timestamp == self.history@[i].timestamp
                    && r.history@[i].chapter == self.history@[i].chapter,
    {
        let mut out: VecDeque<HistoryEntry> = VecDeque::new();
        let mut i: usize = 0;
        while i < self.history.len()
            invariant
                books.wf(),
                forall|k: int| 0 <= k < self.history@.len() ==> books.has((#[trigger] self.history@[k]).book),
                i <= self.history@.len(),
                out@.len() == i,
                forall|k: int|
                    0 <= k < i ==> (#[trigger] out@[k]).book.id == self.history@[k].book
                        && out@[k].timestamp == self.history@[k].timestamp
                        && out@[k].chapter == self.history@[k].chapter,
            decreases self.history@.len() - i,
        {
            let e = self.history[i];
            out.push_back(e.to_hist_entry(books));
            i = i + 1;
        }
        HistoryContext { history: out }
    }
}

} // verus!
