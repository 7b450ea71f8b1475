use std::collections::VecDeque;
use vstd::prelude::*;

use super::book::UpdatedChapters;
use super::books_context::{BookRef, BooksContext};
use super::id::ID;
use crate::text::{decimal, usize_to_string};

verus! {

/// One entry of the update list: which book, when, and which chapters were new.
#[derive(Debug, Clone, Copy, PartialEq, Eq)]
pub struct UpdatesEntry {
    pub book: BookRef,
    pub timestamp: u64,
    pub chapter: UpdatedChapters,
}

/// The text that names an update's new chapters.
pub open spec fn new_chs_text(c: UpdatedChapters) -> Seq<char> {
    match c {
        UpdatedChapters::Range((start, end)) => "Chs. "@ + decimal(start as nat) + " - "@ + decimal(
            end as nat,
        ),
        UpdatedChapters::Single(ch) => "Ch. "@ + decimal(ch as nat),
        UpdatedChapters::NoChapters => "(seeing text is an error and should be reported)"@,
    }
}

impl UpdatesEntry {
    pub fn get_timestamp(&self) -> (r: u64)
        ensures
            r == self.timestamp,
    {
        self.timestamp
    }

    /// Names the new chapters: `Chs. a - b`, or `Ch. n`.
    pub fn display_new_chs(&self) -> (r: String)
        ensures
            r@ == new_chs_text(self.chapter),
    {
        match self.chapter {
            UpdatedChapters::Range((start, end)) => {
                let mut s = String::from_str("Chs. ");
                let a = usize_to_string(start);
                s.append(a.as_str());
                s.append(" - ");
                let b = usize_to_string(end);
                s.append(b.as_str());
                s
            },
            UpdatedChapters::Single(ch) => {
                let mut s = String::from_str("Ch. ");
                let a = usize_to_string(ch);
                s.append(a.as_str());
                s
            },
            UpdatedChapters::NoChapters => String::from_str(
                "(seeing text is an error and should be reported)",
            ),
        }
    }

    pub fn get_chapter(&self) -> (r: UpdatedChapters)
        ensures
            r == self.chapter,
    {
        self.chapter
    }

    pub fn get_book_ref(&self) -> (r: BookRef)
        ensures
            r == self.book,
    {
        self.book
    }
}

/// The update list, most recent first.
#[derive(Debug)]
pub struct UpdatesContext {
    pub updates: VecDeque<UpdatesEntry>,
}

impl UpdatesContext {
    pub fn new() -> (r: Self)
        ensures
            r.updates@.len() == 0,
    {
        Self { updates: VecDeque::new() }
    }

    pub fn clear(&mut self)
        ensures
            final(self).updates@.len() == 0,
    {
        self.updates = VecDeque::new();
    }

    /// Drops every entry of the book `book_id`.
    pub fn remove_book(&mut self, book_id: ID)
        ensures
            final(self).updates@ == old(self).updates@.filter(|u: UpdatesEntry| u.book.id != book_id),
    {
        let ghost s = self.updates@;
        let ghost pred = |u: UpdatesEntry| u.book.id != book_id;
        let mut kept: VecDeque<UpdatesEntry> = VecDeque::new();
        let mut i: usize = 0;
        while i < self.updates.len()
            invariant
                self.updates@ == s,
                i <= s.len(),
                kept@ == s.take(i as int).filter(pred),
                pred == (|u: UpdatesEntry| u.book.id != book_id),
            decreases s.len() - i,
        {
            proof {
                crate::seqs::lemma_filter_take_step(s, pred, i as int);
            }
            let u = self.updates[i];
            if u.book.id != book_id {
                kept.push_back(u);
            }
            i = i + 1;
        }
        proof {
            crate::seqs::lemma_take_all(s);
        }
        self.updates = kept;
    }

    pub fn get_updates(&self) -> (r: &VecDeque<UpdatesEntry>)
        ensures
            r@ == self.updates@,
    {
        &self.updates
    }

    pub fn get_len(&self) -> (r: usize)
        ensures
            r == self.updates@.len(),
    {
        self.updates.len()
    }
}

/// An update entry as it is saved: the book by its ID.
#[derive(Debug, Clone, Copy, PartialEq, Eq)]
pub struct UpdatesEntrySerialize {
    pub book: ID,
    pub timestamp: u64,
    pub chapter: UpdatedChapters,
}

impl UpdatesEntrySerialize {
    pub fn from_updates_entry(entry: UpdatesEntry) -> (r: Self)
        ensures
            r.book == entry.book.id,
            r.timestamp == entry.timestamp,
            r.chapter == entry.chapter,
    {
        Self { book: entry.book.id, timestamp: entry.timestamp, chapter: entry.chapter }
    }

    /// The entry for a saved one; its book must be in memory.
    pub fn to_updates_entry(self, books: &BooksContext) -> (r: UpdatesEntry)
        requires
            books.wf(),
            books.has(self.book),
        ensures
            r.book.id == self.book,
            r.timestamp == self.timestamp,
            r.chapter == self.chapter,
    {
        let b = books.get(self.book).unwrap();
        UpdatesEntry { book: b, timestamp: self.timestamp, chapter: self.chapter }
    }
}

/// The update list as it is saved.
#[derive(Debug)]
pub struct UpdatesCtxSerialize {
    pub updates: VecDeque<UpdatesEntrySerialize>,
}

impl UpdatesCtxSerialize {
    pub fn from_updates_ctx(updates_ctx: UpdatesContext) -> (r: Self)
        ensures
            r.updates@.len() == updates_ctx.updates@.len(),
            forall|i: int|
                0 <= i < r.updates@.len() ==> (#[trigger] r.updates@[i]).book == updates_ctx.updates@[i].book.id
                    && r.updates@[i].timestamp == updates_ctx.updates@[i].timestamp
                    && r.updates@[i].chapter == updates_ctx.updates@[i].chapter,
    {
        let mut out: VecDeque<UpdatesEntrySerialize> = VecDeque::new();
        let mut i: usize = 0;
        while i < updates_ctx.updates.len()
            invariant
                i <= updates_ctx.updates@.len(),
                out@.len() == i,
                forall|k: int|
                    0 <= k < i ==> (#[trigger] out@[k]).book == updates_ctx.updates@[k].book.id
                        && out@[k].timestamp == updates_ctx.updates@[k].timestamp
                        && out@[k].chapter == updates_ctx.updates@[k].chapter,
            decreases updates_ctx.updates@.len() - i,
        {
            out.push_back(UpdatesEntrySerialize::from_updates_entry(updates_ctx.updates[i]));
            i = i + 1;
        }
        Self { updates: out }
    }

    /// The update list for a saved one; every book it names must be in memory.
    pub fn to_updates_ctx(self, books: &BooksContext) -> (r: UpdatesContext)
        requires
            books.wf(),
            forall|i: int| 0 <= i < self.updates@.len() ==> books.has((#[trigger] self.updates@[i]).book),
        ensures
            r.updates@.len() == self.updates@.len(),
            forall|i: int|
                0 <= i < r.updates@.len() ==> (#[trigger] r.updates@[i]).book.id == self.updates@[i].book
                    && r.updates@[i].timestamp == self.updates@[i].timestamp
                    && r.updates@[i].chapter == self.updates@[i].chapter,
    {
        let mut out: VecDeque<UpdatesEntry> = VecDeque::new();
        let mut i: usize = 0;
        while i < self.updates.len()
            invariant
                books.wf(),
                forall|k: int| 0 <= k < self.updates@.len() ==> books.has((#[trigger] self.updates@[k]).book),
                i <= self.updates@.len(),
                out@.len() == i,
                forall|k: int|
                    0 <= k < i ==> (#[trigger] out@[k]).book.id == self.updates@[k].book
                        && out@[k].timestamp == self.updates@[k].timestamp
                        && out@[k].chapter == self.updates@[k].chapter,
            decreases self.updates@.len() - i,
        {
            let e = self.updates[i];
            out.push_back(e.to_updates_entry(books));
            i = i + 1;
        }
        UpdatesContext { updates: out }
    }
}

} // verus!
