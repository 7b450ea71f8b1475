//! The user's reading history as the app shows it.

use vstd::prelude::*;

use crate::state::book_info::BookInfo;
use crate::state::lists::ListSelection;
use crate::state::same::same_book;
use std::collections::VecDeque;

verus! {

/// The data related to the history of a single novel.
#[derive(Debug)]
pub struct HistoryEntry {
    /// The book's info.
    pub book: BookInfo,
    /// The timestamp at which the book was last read.
    pub timestamp: u64,
    /// The chapter the user was last reading.
    pub chapter: usize,
}

/// A user's reading history, and which entry is selected.
#[derive(Debug)]
pub struct HistoryData {
    /// The history entries.
    pub history: VecDeque<HistoryEntry>,
    /// The currently selected history entry.
    pub selected: ListSelection,
}

impl Default for HistoryData {
    fn default() -> (r: Self)
        ensures
            r.history@ == Seq::<HistoryEntry>::empty(),
            r.selected == ListSelection::none(),
    {
        HistoryData { history: VecDeque::new(), selected: ListSelection::default() }
    }
}

/// The place of the last entry of `h` for the same book as `b`, if one is.
pub open spec fn last_same(h: Seq<HistoryEntry>, b: BookInfo) -> Option<int>
    decreases h.len(),
{
    if h.len() == 0 {
        None
    } else if same_book(h.last().book, b) {
        Some(h.len() - 1)
    } else {
        last_same(h.drop_last(), b)
    }
}

/// `h` without its last entry for the same book as `b`, if it has one.
pub open spec fn without_last_same(h: Seq<HistoryEntry>, b: BookInfo) -> Seq<HistoryEntry> {
    match last_same(h, b) {
        Some(i) => h.remove(i),
        None => h,
    }
}

/// `last_same` gives a place of `h` whose entry is for the same book as
/// `b`; where it gives none, no entry is.
pub proof fn lemma_last_same(h: Seq<HistoryEntry>, b: BookInfo)
    ensures
        last_same(h, b) matches Some(i) ==> 0 <= i < h.len() && same_book(h[i].book, b),
        last_same(h, b) is None ==> forall|j: int| 0 <= j < h.len() ==> !same_book(#[trigger] h[j].book, b),
    decreases h.len(),
{
    if h.len() > 0 && !same_book(h.last().book, b) {
        let t = h.drop_last();
        lemma_last_same(t, b);
        if last_same(h, b) is None {
            assert forall|j: int| 0 <= j < h.len() implies !same_book(#[trigger] h[j].book, b) by {
                if j < h.len() - 1 {
                    assert(h[j] == t[j]);
                }
            }
        }
    }
}

impl HistoryData {
    /// Clears all history.
    pub fn clear(&mut self)
        ensures
            final(self).history@ == Seq::<HistoryEntry>::empty(),
            final(self).selected == old(self).selected.select_spec(None),
    {
        self.history = VecDeque::new();
        self.selected.select(None);
    }
}

} // verus!
