//! Whether two books are the same book, as the history tells them apart:
//! library books by their IDs, others by their names and sources (a book
//! from a site by its novel, a local book by all it holds).

use vstd::prelude::*;

use crate::catalog::books_context::string_eq;
use crate::sources::chapter::ChapterPreview;
use crate::sources::novel::Novel;
use crate::state::book_info::{BookInfo, BookSource};
use crate::state::local::LocalBookData;

verus! {

pub open spec fn chapter_eq(a: ChapterPreview, b: ChapterPreview) -> bool {
    &&& a.chapter_no == b.chapter_no
    &&& a.release_date@ == b.release_date@
    &&& a.name@ == b.name@
    &&& a.url@ == b.url@
}

pub open spec fn chapters_eq(a: Seq<ChapterPreview>, b: Seq<ChapterPreview>) -> bool {
    &&& a.len() == b.len()
    &&& forall|i: int| 0 <= i < a.len() ==> chapter_eq(#[trigger] a[i], b[i])
}

pub open spec fn text_opt_eq(a: Option<String>, b: Option<String>) -> bool {
    match (a, b) {
        (Some(x), Some(y)) => x@ == y@,
        (None, None) => true,
        _ => false,
    }
}

pub open spec fn novel_eq(a: Novel, b: Novel) -> bool {
    &&& a.source == b.source
    &&& a.source_name@ == b.source_name@
    &&& a.full_url@ == b.full_url@
    &&& a.novel_url@ == b.novel_url@
    &&& a.name@ == b.name@
    &&& a.author@ == b.author@
    &&& a.status == b.status
    &&& a.genres@ == b.genres@
    &&& a.summary@ == b.summary@
    &&& chapters_eq(a.chapters@, b.chapters@)
    &&& text_opt_eq(a.alias, b.alias)
}

pub open spec fn local_eq(a: LocalBookData, b: LocalBookData) -> bool {
    &&& a.name@ == b.name@
    &&& a.path_to_book@ == b.path_to_book@
    &&& a.hash@ == b.hash@
    &&& a.progress == b.progress
    &&& a.format == b.format
}

pub open spec fn source_eq(a: BookSource, b: BookSource) -> bool {
    match (a, b) {
        (BookSource::Local(x), BookSource::Local(y)) => local_eq(x, y),
        (BookSource::Global(x), BookSource::Global(y)) => novel_eq(x.novel, y.novel),
        _ => false,
    }
}

/// Whether `a` and `b` are the same book: library books with the same ID,
/// or books in the reader with the same name and the same source (for a
/// book from a site, the same novel).
pub open spec fn same_book(a: BookInfo, b: BookInfo) -> bool {
    match (a, b) {
        (BookInfo::Library(x), BookInfo::Library(y)) => x.id == y.id,
        (BookInfo::Reader(x), BookInfo::Reader(y)) => x.name@ == y.name@ && source_eq(x.source_data, y.source_data),
        _ => false,
    }
}

fn chapters_eq_exec(a: &Vec<ChapterPreview>, b: &Vec<ChapterPreview>) -> (r: bool)
    ensures
        r == chapters_eq(a@, b@),
{
    if a.len() != b.len() {
        return false;
    }
    let mut i: usize = 0;
    while i < a.len()
        invariant
            a@.len() == b@.len(),
            i <= a@.len(),
            forall|j: int| 0 <= j < i ==> chapter_eq(#[trigger] a@[j], b@[j]),
        decreases a@.len() - i,
    {
        let x = &a[i];
        let y = &b[i];
        if !(x.chapter_no == y.chapter_no && string_eq(x.release_date.as_str(), y.release_date.as_str())
            && string_eq(x.name.as_str(), y.name.as_str()) && string_eq(x.url.as_str(), y.url.as_str())) {
            return false;
        }
        i = i + 1;
    }
    true
}

fn novel_eq_exec(a: &Novel, b: &Novel) -> (r: bool)
    ensures
        r == novel_eq(*a, *b),
{
    let alias = match (&a.alias, &b.alias) {
        (Some(x), Some(y)) => string_eq(x.as_str(), y.as_str()),
        (None, None) => true,
        _ => false,
    };
    a.source == b.source && string_eq(a.source_name.as_str(), b.source_name.as_str())
        && string_eq(a.full_url.as_str(), b.full_url.as_str())
        && string_eq(a.novel_url.as_str(), b.novel_url.as_str()) && string_eq(a.name.as_str(), b.name.as_str())
        && string_eq(a.author.as_str(), b.author.as_str()) && a.status == b.status
        && string_eq(a.genres.as_str(), b.genres.as_str()) && string_eq(a.summary.as_str(), b.summary.as_str())
        && chapters_eq_exec(&a.chapters, &b.chapters) && alias
}

fn source_eq_exec(a: &BookSource, b: &BookSource) -> (r: bool)
    ensures
        r == source_eq(*a, *b),
{
    match (a, b) {
        (BookSource::Local(x), BookSource::Local(y)) => {
            let progress = x.progress.total_lines == y.progress.total_lines && match (x.progress.progress, y.progress.progress) {
                (crate::reader::portion::BookProgress::Location(p), crate::reader::portion::BookProgress::Location(q)) => p.0 == q.0 && p.1 == q.1,
                (crate::reader::portion::BookProgress::Finished, crate::reader::portion::BookProgress::Finished) => true,
                _ => false,
            };
            string_eq(x.name.as_str(), y.name.as_str()) && string_eq(x.path_to_book.as_str(), y.path_to_book.as_str())
                && string_eq(x.hash.as_str(), y.hash.as_str()) && progress && x.format == y.format
        },
        (BookSource::Global(x), BookSource::Global(y)) => novel_eq_exec(&x.novel, &y.novel),
        _ => false,
    }
}

/// Being the same book is symmetric and transitive.
pub proof fn lemma_same_book_equivalence(a: BookInfo, b: BookInfo, c: BookInfo)
    ensures
        same_book(a, b) == same_book(b, a),
        same_book(a, b) && same_book(b, c) ==> same_book(a, c),
{
    if let (BookInfo::Reader(x), BookInfo::Reader(y), BookInfo::Reader(z)) = (a, b, c) {
        if let (BookSource::Global(p), BookSource::Global(q), BookSource::Global(r)) = (x.source_data, y.source_data, z.source_data) {
            let (u, v, w) = (p.novel.chapters@, q.novel.chapters@, r.novel.chapters@);
            if chapters_eq(u, v) {
                assert forall|i: int| 0 <= i < v.len() implies chapter_eq(#[trigger] v[i], u[i]) by {
                    assert(chapter_eq(u[i], v[i]));
                }
                if chapters_eq(v, w) {
                    assert forall|i: int| 0 <= i < u.len() implies chapter_eq(#[trigger] u[i], w[i]) by {
                        assert(chapter_eq(u[i], v[i]));
                        assert(chapter_eq(v[i], w[i]));
                    }
                }
            }
            if chapters_eq(v, u) {
                assert forall|i: int| 0 <= i < u.len() implies chapter_eq(#[trigger] u[i], v[i]) by {
                    assert(chapter_eq(v[i], u[i]));
                }
            }
        }
    }
}

/// Whether `a` and `b` are the same book (see `same_book`).
pub fn is_same_book(a: &BookInfo, b: &BookInfo) -> (r: bool)
    ensures
        r == same_book(*a, *b),
{
    match (a, b) {
        (BookInfo::Library(x), BookInfo::Library(y)) => x.id == y.id,
        (BookInfo::Reader(x), BookInfo::Reader(y)) => string_eq(x.name.as_str(), y.name.as_str())
            && source_eq_exec(&x.source_data, &y.source_data),
        _ => false,
    }
}

} // verus!
