//! The user's library as the app shows it: named categories of books, one
//! of them the default, each a list with a selection.

use vstd::prelude::*;

use crate::catalog::books_context::string_eq;
use crate::state::book_info::{BookSource, GlobalBookData, ID};
use crate::state::library::LibBookInfo;
use crate::state::lists::{ListSelection, StatefulList};
use crate::state::local::LocalBookData;
use crate::sources::novel::Novel;

verus! {

/// A category's list, seen as its selection and its books.
pub type ListView = (ListSelection, Seq<LibBookInfo>);

/// `l` with `b` added at the end; the first book is selected when the list was empty.
pub open spec fn pushed(l: ListView, b: LibBookInfo) -> ListView {
    (if l.1.len() == 0 { l.0.select_spec(Some(0)) } else { l.0 }, l.1.push(b))
}

/// Whether `p` is the first place in `s` of a book with the ID `id`.
pub open spec fn first_book_at(s: Seq<LibBookInfo>, id: ID, p: int) -> bool {
    &&& 0 <= p < s.len()
    &&& s[p].id == id
    &&& forall|q: int| 0 <= q < p ==> (#[trigger] s[q]).id != id
}

pub open spec fn holds_book(s: Seq<LibBookInfo>, id: ID) -> bool {
    exists|p: int| 0 <= p < s.len() && (#[trigger] s[p]).id == id
}

/// The list `l` without its first book with the ID `id`. When that book was
/// the selected one, the first book is selected, or nothing if none is left.
pub open spec fn without_book(l: ListView, id: ID) -> ListView {
    if holds_book(l.1, id) {
        let p = choose|p: int| first_book_at(l.1, id, p);
        let rest = l.1.remove(p);
        let st = if l.0.selected == Some(p as usize) {
            if rest.len() > 0 { l.0.select_spec(Some(0)) } else { l.0.select_spec(None) }
        } else {
            l.0
        };
        (st, rest)
    } else {
        l
    }
}

/// The first book with the ID `id` in `s`.
pub open spec fn first_of(s: Seq<LibBookInfo>, id: ID) -> LibBookInfo {
    s[choose|p: int| first_book_at(s, id, p)]
}

/// `l` with its first book with the ID `id` replaced by `c`.
pub open spec fn replaced_in(l: ListView, id: ID, c: LibBookInfo) -> ListView {
    let p = choose|p: int| first_book_at(l.1, id, p);
    (l.0, l.1.update(p, c))
}

/// `b` with the novel `novel` fetched anew: a book from a site takes it and
/// its number of chapters; a local book stays as it is.
pub open spec fn refreshed(b: LibBookInfo, novel: Novel) -> LibBookInfo {
    match b.source_data {
        BookSource::Global(d) => LibBookInfo {
            source_data: BookSource::Global(
                GlobalBookData { total_chapters: novel.chapters@.len() as usize, novel, ..d },
            ),
            ..b
        },
        BookSource::Local(_) => b,
    }
}

/// `l` with its first book with the ID `id` given the novel `novel`.
pub open spec fn refreshed_in(l: ListView, id: ID, novel: Novel) -> ListView {
    let p = choose|p: int| first_book_at(l.1, id, p);
    (l.0, l.1.update(p, refreshed(l.1[p], novel)))
}

/// `l` with its first book with the ID `id` renamed to `n`.
pub open spec fn renamed_in(l: ListView, id: ID, n: String) -> ListView {
    let p = choose|p: int| first_book_at(l.1, id, p);
    (l.0, l.1.update(p, renamed(l.1[p], n)))
}

/// `b` under the name `n`, in its own record and in its source's.
pub open spec fn renamed(b: LibBookInfo, n: String) -> LibBookInfo {
    LibBookInfo {
        name: n,
        source_data: match b.source_data {
            BookSource::Local(d) => BookSource::Local(LocalBookData { name: n, ..d }),
            BookSource::Global(d) => BookSource::Global(GlobalBookData { name: n, ..d }),
        },
        ..b
    }
}

/// Whether the first place of the name `n` in `s` is `p`.
pub open spec fn first_name_at(s: Seq<String>, n: Seq<char>, p: int) -> bool {
    &&& 0 <= p < s.len()
    &&& s[p]@ == n
    &&& forall|q: int| 0 <= q < p ==> (#[trigger] s[q])@ != n
}

pub open spec fn lists_name(s: Seq<String>, n: Seq<char>) -> bool {
    exists|p: int| 0 <= p < s.len() && (#[trigger] s[p])@ == n
}

pub open spec fn first_name(s: Seq<String>, n: Seq<char>) -> int {
    choose|p: int| first_name_at(s, n, p)
}

/// Data related to the user's library of novels.
#[derive(Debug)]
pub struct LibraryData {
    /// Each category's name, with the list of the books under it.
    pub books: Vec<(String, StatefulList<LibBookInfo>)>,
    /// The name of the default category.
    pub default_category_name: String,
    /// The categories in the order they are shown; this list manages which is selected.
    pub categories: StatefulList<String>,
}

/// A category entry: its name and its list.
pub type Entry = (String, StatefulList<LibBookInfo>);

pub open spec fn has_key(s: Seq<Entry>, n: Seq<char>) -> bool {
    exists|i: int| 0 <= i < s.len() && (#[trigger] s[i]).0@ == n
}

pub open spec fn key_index(s: Seq<Entry>, n: Seq<char>) -> int {
    choose|i: int| 0 <= i < s.len() && (#[trigger] s[i]).0@ == n
}

/// No name is used twice.
pub open spec fn keys_unique(s: Seq<Entry>) -> bool {
    forall|i: int, j: int|
        0 <= i < s.len() && 0 <= j < s.len() && i != j ==> (#[trigger] s[i]).0@ != (#[trigger] s[j]).0@
}

/// The lists of the entries, by name.
pub open spec fn lists_of(s: Seq<Entry>) -> Map<Seq<char>, ListView> {
    Map::new(|n: Seq<char>| has_key(s, n), |n: Seq<char>| s[key_index(s, n)].1@)
}

pub proof fn lemma_key_index(s: Seq<Entry>, n: Seq<char>, i: int)
    requires
        keys_unique(s),
        0 <= i < s.len(),
        s[i].0@ == n,
    ensures
        has_key(s, n),
        key_index(s, n) == i,
        lists_of(s).contains_key(n),
        lists_of(s)[n] == s[i].1@,
{
    assert(has_key(s, n));
    let k = key_index(s, n);
    assert(s[k].0@ == n);
}

/// Dropping an entry drops its name from the lists.
pub proof fn lemma_lists_remove(s: Seq<Entry>, j: int)
    requires
        keys_unique(s),
        0 <= j < s.len(),
    ensures
        keys_unique(s.remove(j)),
        lists_of(s.remove(j)) == lists_of(s).remove(s[j].0@),
        forall|n: Seq<char>| has_key(s.remove(j), n) <==> has_key(s, n) && n != s[j].0@,
{
    let t = s.remove(j);
    assert forall|a: int, b: int| 0 <= a < t.len() && 0 <= b < t.len() && a != b
        implies (#[trigger] t[a]).0@ != (#[trigger] t[b]).0@ by {
        let a2 = if a < j { a } else { a + 1 };
        let b2 = if b < j { b } else { b + 1 };
        assert(t[a] == s[a2]);
        assert(t[b] == s[b2]);
    }
    assert forall|n: Seq<char>| has_key(t, n) <==> has_key(s, n) && n != s[j].0@ by {
        if has_key(t, n) {
            let a = key_index(t, n);
            let a2 = if a < j { a } else { a + 1 };
            assert(t[a] == s[a2]);
            assert(a2 != j);
        }
        if has_key(s, n) && n != s[j].0@ {
            let a = key_index(s, n);
            assert(a != j);
            let a2 = if a < j { a } else { a - 1 };
            assert(t[a2] == s[a]);
        }
    }
    let expected = lists_of(s).remove(s[j].0@);
    assert forall|n: Seq<char>| #[trigger] lists_of(t).contains_key(n) implies lists_of(t)[n] == expected[n] by {
        let a = key_index(t, n);
        lemma_key_index(t, n, a);
        let a2 = if a < j { a } else { a + 1 };
        assert(t[a] == s[a2]);
        lemma_key_index(s, n, a2);
    }
    assert(lists_of(t).dom() =~= expected.dom());
    assert(lists_of(t) =~= expected);
}

/// Replacing the entry at `k` by `e`, whose name no other entry has, swaps
/// the old name's list for the new one.
pub proof fn lemma_lists_update(s: Seq<Entry>, k: int, e: Entry)
    requires
        keys_unique(s),
        0 <= k < s.len(),
        forall|i: int| 0 <= i < s.len() && i != k ==> (#[trigger] s[i]).0@ != e.0@,
    ensures
        keys_unique(s.update(k, e)),
        lists_of(s.update(k, e)) == lists_of(s).remove(s[k].0@).insert(e.0@, e.1@),
        forall|n: Seq<char>| has_key(s.update(k, e), n) <==> (has_key(s, n) && n != s[k].0@) || n == e.0@,
{
    let t = s.update(k, e);
    assert forall|a: int, b: int| 0 <= a < t.len() && 0 <= b < t.len() && a != b
        implies (#[trigger] t[a]).0@ != (#[trigger] t[b]).0@ by {}
    assert forall|n: Seq<char>| has_key(t, n) <==> (has_key(s, n) && n != s[k].0@) || n == e.0@ by {
        if has_key(t, n) {
            let a = key_index(t, n);
            if a != k {
                assert(t[a] == s[a]);
                if n == s[k].0@ {
                    assert(s[a].0@ != s[k].0@);
                }
            }
        }
        if has_key(s, n) && n != s[k].0@ {
            let a = key_index(s, n);
            assert(t[a] == s[a]);
        }
        if n == e.0@ {
            assert(t[k] == e);
        }
    }
    let expected = lists_of(s).remove(s[k].0@).insert(e.0@, e.1@);
    assert forall|n: Seq<char>| #[trigger] lists_of(t).contains_key(n) implies lists_of(t)[n] == expected[n] by {
        let a = key_index(t, n);
        lemma_key_index(t, n, a);
        if a != k {
            lemma_key_index(s, n, a);
        }
    }
    assert(lists_of(t).dom() =~= expected.dom());
    assert(lists_of(t) =~= expected);
}

/// Adding an entry under a new name adds its list.
pub proof fn lemma_lists_push(s: Seq<Entry>, e: Entry)
    requires
        keys_unique(s),
        !has_key(s, e.0@),
    ensures
        keys_unique(s.push(e)),
        lists_of(s.push(e)) == lists_of(s).insert(e.0@, e.1@),
        forall|n: Seq<char>| has_key(s.push(e), n) <==> has_key(s, n) || n == e.0@,
{
    let t = s.push(e);
    assert forall|a: int, b: int| 0 <= a < t.len() && 0 <= b < t.len() && a != b
        implies (#[trigger] t[a]).0@ != (#[trigger] t[b]).0@ by {
        if a == s.len() {
            assert(t[b] == s[b]);
        } else if b == s.len() {
            assert(t[a] == s[a]);
        } else {
            assert(t[a] == s[a]);
            assert(t[b] == s[b]);
        }
    }
    assert forall|n: Seq<char>| has_key(t, n) <==> has_key(s, n) || n == e.0@ by {
        if has_key(t, n) {
            let a = key_index(t, n);
            if a < s.len() {
                assert(t[a] == s[a]);
            }
        }
        if has_key(s, n) {
            let a = key_index(s, n);
            assert(t[a] == s[a]);
        }
        if n == e.0@ {
            assert(t[s.len() as int] == e);
        }
    }
    let expected = lists_of(s).insert(e.0@, e.1@);
    assert forall|n: Seq<char>| #[trigger] lists_of(t).contains_key(n) implies lists_of(t)[n] == expected[n] by {
        let a = key_index(t, n);
        lemma_key_index(t, n, a);
        if a < s.len() {
            assert(t[a] == s[a]);
            lemma_key_index(s, n, a);
        }
    }
    assert(lists_of(t).dom() =~= expected.dom());
    assert(lists_of(t) =~= expected);
}

/// Entries with the same names in the same places have the same keys, each
/// for the list in that place.
pub proof fn lemma_same_names(s: Seq<Entry>, t: Seq<Entry>)
    requires
        keys_unique(s),
        t.len() == s.len(),
        forall|j: int| 0 <= j < s.len() ==> (#[trigger] t[j]).0 == s[j].0,
    ensures
        keys_unique(t),
        forall|n: Seq<char>| has_key(t, n) <==> has_key(s, n),
        lists_of(t).dom() == lists_of(s).dom(),
        forall|j: int| 0 <= j < s.len() ==> lists_of(t)[(#[trigger] s[j]).0@] == t[j].1@,
        forall|j: int| 0 <= j < s.len() ==> lists_of(s)[(#[trigger] s[j]).0@] == s[j].1@,
{
    assert forall|a: int, b: int| 0 <= a < t.len() && 0 <= b < t.len() && a != b
        implies (#[trigger] t[a]).0@ != (#[trigger] t[b]).0@ by {
        assert(s[a].0@ != s[b].0@);
    }
    assert forall|n: Seq<char>| has_key(t, n) <==> has_key(s, n) by {
        if has_key(s, n) {
            let i = key_index(s, n);
            assert(t[i].0 == s[i].0);
        }
        if has_key(t, n) {
            let i = key_index(t, n);
            assert(t[i].0 == s[i].0);
        }
    }
    assert(lists_of(t).dom() =~= lists_of(s).dom());
    assert forall|j: int| 0 <= j < s.len() implies lists_of(t)[(#[trigger] s[j]).0@] == t[j].1@
        && lists_of(s)[s[j].0@] == s[j].1@ by {
        lemma_key_index(s, s[j].0@, j);
        assert(t[j].0 == s[j].0);
        lemma_key_index(t, s[j].0@, j);
    }
}

impl LibraryData {
    pub open spec fn has(self, name: Seq<char>) -> bool {
        has_key(self.books@, name)
    }

    pub open spec fn index_of(self, name: Seq<char>) -> int {
        key_index(self.books@, name)
    }

    /// Each category's list, by name.
    pub open spec fn lists(self) -> Map<Seq<char>, ListView> {
        lists_of(self.books@)
    }

    /// No name is used twice, the default category exists, and each category is listed.
    pub open spec fn wf(self) -> bool {
        &&& keys_unique(self.books@)
        &&& self.has(self.default_category_name@)
        &&& forall|i: int|
            0 <= i < self.books@.len() ==> lists_name(
                self.categories.items@,
                (#[trigger] self.books@[i]).0@,
            )
    }

    pub proof fn lemma_index_of(self, name: Seq<char>, i: int)
        requires
            self.wf(),
            0 <= i < self.books@.len(),
            self.books@[i].0@ == name,
        ensures
            self.has(name),
            self.index_of(name) == i,
            self.lists().contains_key(name),
            self.lists()[name] == self.books@[i].1@,
    {
        lemma_key_index(self.books@, name, i);
    }

    /// Creates an empty library: one category, the default, named "Default".
    pub fn empty() -> (r: Self)
        ensures
            r.wf(),
            r.default_category_name@ == "Default"@,
            r.lists() == map![r.default_category_name@ => (ListSelection::none(), Seq::<LibBookInfo>::empty())],
            r.categories@ == (ListSelection::none().select_spec(Some(0)), seq![r.default_category_name]),
    {
        let default_name = String::from_str("Default");
        let mut books: Vec<(String, StatefulList<LibBookInfo>)> = Vec::new();
        books.push((default_name.clone(), StatefulList::new()));
        let r = Self {
            books,
            default_category_name: default_name.clone(),
            categories: StatefulList::with_item(default_name),
        };
        proof {
            assert(r.categories.items@[0]@ == r.books@[0].0@);
            assert(lists_name(r.categories.items@, r.books@[0].0@));
            r.lemma_index_of(r.default_category_name@, 0);
            assert(r.lists() =~= map![r.default_category_name@ => (ListSelection::none(), Seq::<LibBookInfo>::empty())]);
        }
        r
    }

    /// The place in `books` of the category `name`, if there is one.
    pub fn find_key(&self, name: &str) -> (r: Option<usize>)
        requires
            self.wf(),
        ensures
            r is Some <==> self.has(name@),
            r matches Some(i) ==> i < self.books@.len() && self.books@[i as int].0@ == name@
                && self.index_of(name@) == i,
    {
        let mut i: usize = 0;
        while i < self.books.len()
            invariant
                self.wf(),
                i <= self.books@.len(),
                forall|j: int| 0 <= j < i ==> (#[trigger] self.books@[j]).0@ != name@,
            decreases self.books@.len() - i,
        {
            if string_eq(self.books[i].0.as_str(), name) {
                proof {
                    self.lemma_index_of(name@, i as int);
                }
                return Some(i);
            }
            i = i + 1;
        }
        None
    }

    /// The category a book asked for `category` is filed under: that one if
    /// it exists, else the default.
    pub open spec fn target(self, category: Option<String>) -> Seq<char> {
        match category {
            Some(c) => if self.has(c@) { c@ } else { self.default_category_name@ },
            None => self.default_category_name@,
        }
    }

    /// The book as it is filed: its category is the one asked for if that
    /// exists, else none (the default).
    pub open spec fn filed(self, book: LibBookInfo, category: Option<String>) -> LibBookInfo {
        LibBookInfo {
            category: match category {
                Some(c) => if self.has(c@) { Some(c) } else { None },
                None => None,
            },
            ..book
        }
    }

    /// Adds a book to a category, to the default one if the category isn't recognized.
    pub fn add_book(&mut self, book: LibBookInfo, category: Option<String>)
        requires
            old(self).wf(),
        ensures
            final(self).wf(),
            final(self).categories == old(self).categories,
            final(self).default_category_name == old(self).default_category_name,
            final(self).lists() == old(self).lists().insert(
                old(self).target(category),
                pushed(old(self).lists()[old(self).target(category)], old(self).filed(book, category)),
            ),
    {
        let found = match &category {
            Some(c) => self.find_key(c.as_str()),
            None => None,
        };
        let mut book = book;
        let k = match found {
            Some(i) => {
                book.category = category;
                i
            },
            None => {
                book.category = None;
                let d = self.find_key(self.default_category_name.as_str());
                d.unwrap()
            },
        };
        let ghost o = *self;
        proof {
            o.lemma_index_of(o.books@[k as int].0@, k as int);
            assert(o.books@[k as int].0@ == o.target(category));
            assert(book == o.filed(book, category));
        }
        let ghost filed = book;
        self.books[k].1.items.push(book);
        if self.books[k].1.items.len() == 1 {
            self.books[k].1.select_first();
        }
        proof {
            assert(self.books@[k as int].1@ == pushed(o.books@[k as int].1@, filed));
            assert(self.books@ == o.books@.update(k as int, self.books@[k as int]));
            lemma_lists_update(o.books@, k as int, self.books@[k as int]);
            lemma_same_names(o.books@, self.books@);
            o.lemma_index_of(o.default_category_name@, o.index_of(o.default_category_name@));
            self.lemma_wf_from(o);
            assert(self.lists() =~= o.lists().insert(o.target(category), pushed(o.lists()[o.target(category)], filed)));
        }
    }

    /// Creates a new category; a name in use is left as it is.
    pub fn create_category(&mut self, name: String)
        requires
            old(self).wf(),
        ensures
            LibraryData::category_created(*old(self), *final(self), name),
    {
        if self.find_key(name.as_str()).is_some() {
            return;
        }
        let ghost o = *self;
        self.books.push((name.clone(), StatefulList::new()));
        self.categories.items.push(name);
        proof {
            let n = o.books@.len() as int;
            lemma_lists_push(o.books@, self.books@[n]);
            assert(self.books@ == o.books@.push(self.books@[n]));
            assert(self.has(self.default_category_name@));
            assert forall|i: int| 0 <= i < self.books@.len() implies lists_name(
                self.categories.items@,
                (#[trigger] self.books@[i]).0@,
            ) by {
                if i < n {
                    assert(self.books@[i] == o.books@[i]);
                    let p = choose|p: int| 0 <= p < o.categories.items@.len() && (#[trigger] o.categories.items@[p])@ == o.books@[i].0@;
                    assert(self.categories.items@[p] == o.categories.items@[p]);
                } else {
                    assert(self.categories.items@[o.categories.items@.len() as int]@ == self.books@[n].0@);
                }
            }
        }
    }
}


impl LibraryData {
    /// `f` is `o` with the category `name` deleted, its books appended to
    /// the default category's, and the first category selected if it was
    /// the selected one; the default category, or an unknown name, leaves
    /// `o` as it is.
    pub open spec fn category_deleted(o: LibraryData, f: LibraryData, name: String) -> bool {
        &&& f.wf()
        &&& o.default_category_name@ == name@ || !o.has(name@) ==> f == o
        &&& o.default_category_name@ != name@ && o.has(name@) ==> {
            let p = first_name(o.categories.items@, name@);
            let d = o.default_category_name@;
            &&& f.lists() == o.lists().remove(name@).insert(
                d,
                (o.lists()[d].0, o.lists()[d].1 + o.lists()[name@].1),
            )
            &&& f.categories.items@ == o.categories.items@.remove(p)
            &&& f.categories.state == (if o.categories.state.selected == Some(p as usize) {
                o.categories.state.select_spec(Some(0))
            } else {
                o.categories.state
            })
            &&& f.default_category_name == o.default_category_name
        }
    }

    /// `f` is `o` with the first book with the ID `id` of each category
    /// dropped, and one of them (the first of a category) added to the
    /// category `category` (to the default one if that is unknown or `None`).
    pub open spec fn book_moved(o: LibraryData, f: LibraryData, id: ID, category: Option<String>) -> bool {
        &&& f.wf()
        &&& f.categories == o.categories
        &&& f.default_category_name == o.default_category_name
        &&& exists|b: LibBookInfo| #[trigger] o.first_held(id, b) && {
            let mid = o.lists().map_values(|l: ListView| without_book(l, id));
            let t = o.target(category);
            f.lists() == mid.insert(t, pushed(mid[t], o.filed(b, category)))
        }
    }

    /// `f` is `o` with the first book with the ID `id` renamed to `new_name`,
    /// in the first category holding one (`o` itself if none does).
    pub open spec fn book_renamed(o: LibraryData, f: LibraryData, id: ID, new_name: String) -> bool {
        &&& f.wf()
        &&& f.categories == o.categories
        &&& f.default_category_name == o.default_category_name
        &&& !o.holds(id) ==> f.lists() == o.lists()
        &&& o.holds(id) ==> exists|n: Seq<char>|
            #[trigger] o.lists().contains_key(n) && holds_book(o.lists()[n].1, id)
                && f.lists() == o.lists().insert(n, renamed_in(o.lists()[n], id, new_name))
    }

    /// `f` is `o` with the first book with the ID `id`, in a category
    /// holding one, given the novel `novel` (`o` itself if none holds one).
    pub open spec fn book_refreshed(o: LibraryData, f: LibraryData, id: ID, novel: Novel) -> bool {
        &&& !o.holds(id) ==> f == o
        &&& o.holds(id) ==> {
            &&& f.wf()
            &&& f.categories == o.categories
            &&& f.default_category_name == o.default_category_name
            &&& exists|n: Seq<char>|
                #[trigger] o.lists().contains_key(n) && holds_book(o.lists()[n].1, id)
                    && f.lists() == o.lists().insert(n, refreshed_in(o.lists()[n], id, novel))
        }
    }

    /// `f` is `o` with the first book with the ID of `b`, in a category
    /// holding one, replaced by a copy of `b`.
    pub open spec fn book_replaced(o: LibraryData, f: LibraryData, b: LibBookInfo) -> bool {
        &&& f.wf()
        &&& f.categories == o.categories
        &&& f.default_category_name == o.default_category_name
        &&& exists|n: Seq<char>, c: LibBookInfo|
            #![trigger o.lists().contains_key(n), c.same(b)]
            o.lists().contains_key(n) && holds_book(o.lists()[n].1, b.id) && c.same(b)
                && f.lists() == o.lists().insert(n, replaced_in(o.lists()[n], b.id, c))
    }

    /// `f` is `o` with an empty category `name` added at the end, unless
    /// `o` has one by that name.
    pub open spec fn category_created(o: LibraryData, f: LibraryData, name: String) -> bool {
        &&& f.wf()
        &&& o.has(name@) ==> f == o
        &&& !o.has(name@) ==> {
            &&& f.lists() == o.lists().insert(name@, (ListSelection::none(), Seq::<LibBookInfo>::empty()))
            &&& f.categories.items@ == o.categories.items@.push(name)
            &&& f.categories.state == o.categories.state
            &&& f.default_category_name == o.default_category_name
        }
    }

    /// `f` is `o` with the category `old_name` renamed to `new_name` (one
    /// by that name replaced), unless `o` has no category `old_name`.
    pub open spec fn category_renamed(o: LibraryData, f: LibraryData, old_name: String, new_name: String) -> bool {
        &&& f.wf()
        &&& !o.has(old_name@) ==> f == o
        &&& o.has(old_name@) ==> {
            &&& f.lists() == o.lists().remove(old_name@).insert(new_name@, o.lists()[old_name@])
            &&& f.categories.items@ == o.categories.items@.update(
                first_name(o.categories.items@, old_name@),
                new_name,
            )
            &&& f.categories.state == o.categories.state
            &&& f.default_category_name@ == (if o.default_category_name@ == old_name@ {
                new_name@
            } else {
                o.default_category_name@
            })
        }
    }
}

/// The place of the first name `name` in `items`, if it is there.
pub fn first_position(items: &Vec<String>, name: &str) -> (r: Option<usize>)
    ensures
        r is Some <==> lists_name(items@, name@),
        r matches Some(p) ==> first_name_at(items@, name@, p as int),
{
    let mut i: usize = 0;
    while i < items.len()
        invariant
            i <= items@.len(),
            forall|q: int| 0 <= q < i ==> (#[trigger] items@[q])@ != name@,
        decreases items@.len() - i,
    {
        if string_eq(items[i].as_str(), name) {
            return Some(i);
        }
        i = i + 1;
    }
    None
}

pub proof fn lemma_first_name_unique(s: Seq<String>, n: Seq<char>, p: int)
    requires
        first_name_at(s, n, p),
    ensures
        first_name(s, n) == p,
{
    let q = first_name(s, n);
    assert(first_name_at(s, n, q));
    if q < p {
        assert(s[q]@ != n);
    }
    if p < q {
        assert(s[p]@ != n);
    }
}

/// A name listed in `s` has a first place there.
pub proof fn lemma_first_name_exists(s: Seq<String>, n: Seq<char>, p: int)
    requires
        0 <= p < s.len(),
        s[p]@ == n,
    ensures
        first_name_at(s, n, first_name(s, n)),
    decreases p,
{
    if exists|q: int| 0 <= q < p && (#[trigger] s[q])@ == n {
        let q = choose|q: int| 0 <= q < p && (#[trigger] s[q])@ == n;
        lemma_first_name_exists(s, n, q);
    } else {
        assert(first_name_at(s, n, p));
    }
}

pub proof fn lemma_first_book_unique(s: Seq<LibBookInfo>, id: ID, p: int)
    requires
        first_book_at(s, id, p),
    ensures
        holds_book(s, id),
        (choose|q: int| first_book_at(s, id, q)) == p,
{
    assert(holds_book(s, id));
    let q = choose|q: int| first_book_at(s, id, q);
    assert(first_book_at(s, id, q));
    if q < p {
        assert(s[q].id != id);
    }
    if p < q {
        assert(s[p].id != id);
    }
}

/// The first place in `s` of a book with the ID `id`, if there is one.
fn first_book(s: &Vec<LibBookInfo>, id: ID) -> (r: Option<usize>)
    ensures
        r is Some <==> holds_book(s@, id),
        r matches Some(p) ==> first_book_at(s@, id, p as int),
{
    let mut p: usize = 0;
    while p < s.len()
        invariant
            p <= s@.len(),
            forall|q: int| 0 <= q < p ==> (#[trigger] s@[q]).id != id,
        decreases s@.len() - p,
    {
        if s[p].id == id {
            return Some(p);
        }
        p = p + 1;
    }
    None
}

impl LibraryData {
    /// A library whose entries have `o`'s names in the same places, whose
    /// default and category names are `o`'s, is well formed.
    pub proof fn lemma_wf_from(self, o: LibraryData)
        requires
            o.wf(),
            self.books@.len() == o.books@.len(),
            forall|j: int| 0 <= j < o.books@.len() ==> (#[trigger] self.books@[j]).0 == o.books@[j].0,
            self.default_category_name == o.default_category_name,
            self.categories.items@ == o.categories.items@,
        ensures
            self.wf(),
    {
        lemma_same_names(o.books@, self.books@);
        assert forall|i: int| 0 <= i < self.books@.len() implies lists_name(
            self.categories.items@,
            (#[trigger] self.books@[i]).0@,
        ) by {
            assert(self.books@[i].0 == o.books@[i].0);
            assert(lists_name(o.categories.items@, o.books@[i].0@));
        }
    }

    /// Renames a category; an unknown name is left as it is. A category that
    /// already had the new name is replaced by the renamed one.
    pub fn rename_category(&mut self, old_name: String, new_name: String)
        requires
            old(self).wf(),
        ensures
            LibraryData::category_renamed(*old(self), *final(self), old_name, new_name),
    {
        let k0 = match self.find_key(old_name.as_str()) {
            Some(k) => k,
            None => return,
        };
        let ghost o = *self;
        let j = self.find_key(new_name.as_str());
        proof {
            let p0 = choose|p: int| 0 <= p < o.categories.items@.len() && (#[trigger] o.categories.items@[p])@ == o.books@[k0 as int].0@;
            assert(lists_name(o.categories.items@, old_name@)) by {
                assert(o.categories.items@[p0]@ == old_name@);
            }
        }
        let pos = first_position(&self.categories.items, old_name.as_str()).unwrap();
        proof {
            lemma_first_name_unique(o.categories.items@, old_name@, pos as int);
        }
        if string_eq(self.default_category_name.as_str(), old_name.as_str()) {
            self.default_category_name = new_name.clone();
        }
        self.categories.items.set(pos, new_name.clone());
        let mut k = k0;
        match j {
            Some(jj) => {
                if jj != k0 {
                    self.books.remove(jj);
                    if jj < k0 {
                        k = k0 - 1;
                    }
                }
            },
            None => {},
        }
        let ghost mid = self.books@;
        self.books[k].0 = new_name;
        proof {
            assert(self.books@ == mid.update(k as int, (self.books@[k as int].0, o.books@[k0 as int].1)));
            lemma_renamed_category(o, *self, k0 as int, j, k as int, pos as int, old_name@, mid);
        }
    }

    /// Deletes a category, its books going to the default one. The default
    /// category cannot be deleted, so a category always exists. When the
    /// deleted category was the selected one, the first is selected.
    pub fn delete_category(&mut self, name: String)
        requires
            old(self).wf(),
            old(self).default_category_name@ != name@ && old(self).has(name@)
                ==> old(self).categories.state.selected is Some,
        ensures
            LibraryData::category_deleted(*old(self), *final(self), name),
    {
        if string_eq(self.default_category_name.as_str(), name.as_str()) {
            return;
        }
        let k = match self.find_key(name.as_str()) {
            Some(k) => k,
            None => return,
        };
        let ghost o = *self;
        proof {
            let p0 = choose|p: int| 0 <= p < o.categories.items@.len() && (#[trigger] o.categories.items@[p])@ == o.books@[k as int].0@;
            assert(lists_name(o.categories.items@, name@)) by {
                assert(o.categories.items@[p0]@ == name@);
            }
        }
        let pos = first_position(&self.categories.items, name.as_str()).unwrap();
        proof {
            lemma_first_name_unique(o.categories.items@, name@, pos as int);
        }
        let sel = self.categories.selected_idx().unwrap();
        if pos == sel {
            self.categories.select_first();
        }
        self.categories.items.remove(pos);
        let (_, mut gone) = self.books.remove(k);
        let ghost mid = *self;
        proof {
            lemma_deleted_category_keys(o, mid, k as int, pos as int);
        }
        let ghost gone_list = gone@;
        let d = self.find_key(self.default_category_name.as_str()).unwrap();
        self.books[d].1.items.append(&mut gone.items);
        proof {
            let dn = o.default_category_name@;
            assert(self.books@ == mid.books@.update(d as int, self.books@[d as int]));
            lemma_lists_update(mid.books@, d as int, self.books@[d as int]);
            self.lemma_wf_from(mid);
            o.lemma_index_of(name@, k as int);
            mid.lemma_index_of(dn, d as int);
            assert(o.lists()[name@] == gone_list);
            assert(self.lists() =~= o.lists().remove(name@).insert(
                dn,
                (o.lists()[dn].0, o.lists()[dn].1 + o.lists()[name@].1),
            ));
        }
    }
}


/// What renaming the category at `k0` to the name `f.books@[k]` (found at
/// `j` before, if it was there) does to the library `o`, `mid` being the
/// entries once that other category was dropped.
proof fn lemma_renamed_category(
    o: LibraryData,
    f: LibraryData,
    k0: int,
    j: Option<usize>,
    k: int,
    pos: int,
    old_name: Seq<char>,
    mid: Seq<Entry>,
)
    requires
        o.wf(),
        0 <= k0 < o.books@.len(),
        o.books@[k0].0@ == old_name,
        first_name_at(o.categories.items@, old_name, pos),
        j is Some <==> o.has(f.books@[k].0@),
        j matches Some(jj) ==> jj < o.books@.len() && o.books@[jj as int].0@ == f.books@[k].0@,
        mid == (match j {
            Some(jj) => if jj as int != k0 { o.books@.remove(jj as int) } else { o.books@ },
            None => o.books@,
        }),
        k == (match j {
            Some(jj) => if (jj as int) < k0 { k0 - 1 } else { k0 },
            None => k0,
        }),
        0 <= k < mid.len(),
        f.books@ == mid.update(k, (f.books@[k].0, o.books@[k0].1)),
        f.categories.items@ == o.categories.items@.update(pos, f.books@[k].0),
        f.default_category_name == (if o.default_category_name@ == old_name {
            f.books@[k].0
        } else {
            o.default_category_name
        }),
    ensures
        f.wf(),
        f.lists() == o.lists().remove(old_name).insert(f.books@[k].0@, o.lists()[old_name]),
{
    let new = f.books@[k].0@;
    let s0 = o.books@;
    lemma_key_index(s0, old_name, k0);
    match j {
        Some(jj) => {
            if jj as int != k0 {
                lemma_lists_remove(s0, jj as int);
                assert(mid[k] == s0[k0]);
            }
        },
        None => {},
    }
    assert(keys_unique(mid));
    assert forall|i: int| 0 <= i < mid.len() && i != k implies (#[trigger] mid[i]).0@ != new by {
        match j {
            Some(jj) => {
                if jj as int != k0 {
                    if mid[i].0@ == new {
                        assert(has_key(mid, new));
                    }
                } else {
                    assert(s0[i].0@ != s0[k0].0@);
                }
            },
            None => {
                if mid[i].0@ == new {
                    assert(o.has(new));
                }
            },
        }
    }
    lemma_lists_update(mid, k, f.books@[k]);
    assert(f.lists() =~= o.lists().remove(old_name).insert(new, o.lists()[old_name]));
    // the default category is still there
    if o.default_category_name@ != old_name {
        let d = o.default_category_name@;
        if d != new {
            assert(has_key(s0, d));
            assert(has_key(mid, d));
            assert(has_key(f.books@, d));
        }
    }
    assert(f.has(f.default_category_name@));
    // every category is listed
    assert forall|i: int| 0 <= i < f.books@.len() implies lists_name(
        f.categories.items@,
        (#[trigger] f.books@[i]).0@,
    ) by {
        let n = f.books@[i].0@;
        if n == new {
            assert(f.categories.items@[pos]@ == new);
        } else {
            assert(has_key(f.books@, n));
            assert(has_key(s0, n) && n != old_name);
            let a = key_index(s0, n);
            assert(lists_name(o.categories.items@, s0[a].0@));
            let p = choose|p: int| 0 <= p < o.categories.items@.len() && (#[trigger] o.categories.items@[p])@ == n;
            assert(p != pos);
            assert(f.categories.items@[p] == o.categories.items@[p]);
        }
    }
}


/// Dropping the category at `k` (listed first at `pos`) from `o` leaves a
/// well formed library without it.
proof fn lemma_deleted_category_keys(o: LibraryData, mid: LibraryData, k: int, pos: int)
    requires
        o.wf(),
        0 <= k < o.books@.len(),
        o.books@[k].0@ != o.default_category_name@,
        first_name_at(o.categories.items@, o.books@[k].0@, pos),
        mid.books@ == o.books@.remove(k),
        mid.categories.items@ == o.categories.items@.remove(pos),
        mid.default_category_name == o.default_category_name,
    ensures
        mid.wf(),
        mid.lists() == o.lists().remove(o.books@[k].0@),
{
    lemma_lists_remove(o.books@, k);
    assert(mid.has(mid.default_category_name@));
    assert forall|i: int| 0 <= i < mid.books@.len() implies lists_name(
        mid.categories.items@,
        (#[trigger] mid.books@[i]).0@,
    ) by {
        let i2 = if i < k { i } else { i + 1 };
        assert(mid.books@[i] == o.books@[i2]);
        let n = o.books@[i2].0@;
        assert(n != o.books@[k].0@);
        assert(lists_name(o.categories.items@, n));
        let p = choose|p: int| 0 <= p < o.categories.items@.len() && (#[trigger] o.categories.items@[p])@ == n;
        assert(p != pos);
        let p2 = if p < pos { p } else { p - 1 };
        assert(mid.categories.items@[p2] == o.categories.items@[p]);
    }
}


impl LibraryData {
    /// Some category holds a book with the ID `id`.
    pub open spec fn holds(self, id: ID) -> bool {
        exists|n: Seq<char>| #[trigger] self.lists().contains_key(n) && holds_book(self.lists()[n].1, id)
    }

    /// Each category holding a book with the ID `id` has a selection.
    pub open spec fn selects_where_held(self, id: ID) -> bool {
        forall|n: Seq<char>|
            #[trigger] self.lists().contains_key(n) && holds_book(self.lists()[n].1, id)
                ==> self.lists()[n].0.selected is Some
    }

    /// Whether `b` is the first book with the ID `id` in one of the categories.
    pub open spec fn first_held(self, id: ID, b: LibBookInfo) -> bool {
        exists|n: Seq<char>|
            #[trigger] self.lists().contains_key(n) && holds_book(self.lists()[n].1, id)
                && b == first_of(self.lists()[n].1, id)
    }

    /// Drops the first book with the ID `id` from every category, and hands
    /// back the one dropped from the first category in storage order.
    fn remove_book_taking(&mut self, id: ID) -> (r: Option<LibBookInfo>)
        requires
            old(self).wf(),
            old(self).selects_where_held(id),
        ensures
            final(self).wf(),
            final(self).categories == old(self).categories,
            final(self).default_category_name == old(self).default_category_name,
            final(self).lists() == old(self).lists().map_values(|l: ListView| without_book(l, id)),
            r is Some <==> old(self).holds(id),
            r matches Some(b) ==> old(self).first_held(id, b),
    {
        let ghost o = *self;
        let n = self.books.len();
        let mut taken: Option<LibBookInfo> = None;
        let mut k: usize = 0;
        while k < n
            invariant
                o.wf(),
                o.selects_where_held(id),
                n == self.books@.len(),
                n == o.books@.len(),
                k <= n,
                self.categories == o.categories,
                self.default_category_name == o.default_category_name,
                forall|j: int| 0 <= j < n ==> (#[trigger] self.books@[j]).0 == o.books@[j].0,
                forall|j: int| 0 <= j < k ==> (#[trigger] self.books@[j]).1@ == without_book(o.books@[j].1@, id),
                forall|j: int| k <= j < n ==> (#[trigger] self.books@[j]).1 == o.books@[j].1,
                taken is None <==> forall|j: int| 0 <= j < k ==> !holds_book((#[trigger] o.books@[j]).1.items@, id),
                taken matches Some(b) ==> o.first_held(id, b),
            decreases n - k,
        {
            let found = first_book(&self.books[k].1.items, id);
            match found {
                Some(p) => {
                    proof {
                        o.lemma_index_of(o.books@[k as int].0@, k as int);
                        lemma_first_book_unique(o.books@[k as int].1.items@, id, p as int);
                    }
                    let ghost before = self.books@;
                    let sel = self.books[k].1.selected_idx().unwrap();
                    let b = self.books[k].1.items.remove(p);
                    if sel == p {
                        if self.books[k].1.items.len() > 0 {
                            self.books[k].1.select_first();
                        } else {
                            self.books[k].1.unselect();
                        }
                    }
                    proof {
                        assert(self.books@[k as int].1@ == without_book(o.books@[k as int].1@, id));
                        assert forall|j: int| 0 <= j < n && j != k implies (#[trigger] self.books@[j]) == before[j] by {}
                        if taken is None {
                            assert(b == first_of(o.lists()[o.books@[k as int].0@].1, id));
                            assert(o.lists().contains_key(o.books@[k as int].0@));
                        }
                    }
                    if taken.is_none() {
                        taken = Some(b);
                    }
                },
                None => {
                    proof {
                        assert(without_book(o.books@[k as int].1@, id) == o.books@[k as int].1@);
                    }
                },
            }
            k = k + 1;
        }
        proof {
            lemma_same_names(o.books@, self.books@);
            self.lemma_wf_from(o);
            let expected = o.lists().map_values(|l: ListView| without_book(l, id));
            assert forall|m: Seq<char>| #[trigger] self.lists().contains_key(m) implies self.lists()[m] == expected[m] by {
                let j = o.index_of(m);
                o.lemma_index_of(m, j);
            }
            assert(self.lists() =~= expected);
            if o.holds(id) {
                let m = choose|m: Seq<char>| #[trigger] o.lists().contains_key(m) && holds_book(o.lists()[m].1, id);
                let j = o.index_of(m);
                o.lemma_index_of(m, j);
                assert(!(forall|j: int| 0 <= j < n ==> !holds_book((#[trigger] o.books@[j]).1.items@, id)));
            }
            if taken is Some {
                let j = choose|j: int| 0 <= j < n && holds_book((#[trigger] o.books@[j]).1.items@, id);
                o.lemma_index_of(o.books@[j].0@, j);
                assert(o.lists().contains_key(o.books@[j].0@));
            }
        }
        taken
    }

    /// Removes a book from the library: the first book with its ID in each
    /// category. When that was the selected book, the first is selected, or
    /// nothing if the category is left empty.
    pub fn remove_book(&mut self, id: ID)
        requires
            old(self).wf(),
            old(self).selects_where_held(id),
        ensures
            final(self).wf(),
            final(self).categories == old(self).categories,
            final(self).default_category_name == old(self).default_category_name,
            final(self).lists() == old(self).lists().map_values(|l: ListView| without_book(l, id)),
    {
        let _ = self.remove_book_taking(id);
    }

    /// Moves a book to a category: to the default one if `category_name` is
    /// `None` or unknown.
    pub fn move_category(&mut self, id: ID, category_name: Option<String>)
        requires
            old(self).wf(),
            old(self).holds(id),
            old(self).selects_where_held(id),
        ensures
            LibraryData::book_moved(*old(self), *final(self), id, category_name),
    {
        let ghost o = *self;
        let book = self.remove_book_taking(id).unwrap();
        let ghost mid = *self;
        proof {
            assert forall|c: Seq<char>| mid.has(c) <==> o.has(c) by {
                assert(mid.lists().dom().contains(c) == o.lists().dom().contains(c));
            }
            assert(mid.target(category_name) == o.target(category_name));
            assert(mid.filed(book, category_name) == o.filed(book, category_name));
        }
        self.add_book(book, category_name);
        proof {
            assert(o.first_held(id, book));
        }
    }

    /// The first book with the ID `id`, from the first category in storage order holding one.
    pub fn find_book(&self, id: ID) -> (r: Option<&LibBookInfo>)
        requires
            self.wf(),
        ensures
            r is Some <==> self.holds(id),
            r matches Some(b) ==> b.id == id && self.first_held(id, *b),
    {
        let mut k: usize = 0;
        while k < self.books.len()
            invariant
                self.wf(),
                k <= self.books@.len(),
                forall|j: int| 0 <= j < k ==> !holds_book((#[trigger] self.books@[j]).1.items@, id),
            decreases self.books@.len() - k,
        {
            match first_book(&self.books[k].1.items, id) {
                Some(p) => {
                    proof {
                        self.lemma_index_of(self.books@[k as int].0@, k as int);
                        lemma_first_book_unique(self.books@[k as int].1.items@, id, p as int);
                        assert(self.lists().contains_key(self.books@[k as int].0@));
                    }
                    return Some(&self.books[k].1.items[p]);
                },
                None => {},
            }
            k = k + 1;
        }
        proof {
            if self.holds(id) {
                let m = choose|m: Seq<char>| #[trigger] self.lists().contains_key(m) && holds_book(self.lists()[m].1, id);
                let j = self.index_of(m);
                self.lemma_index_of(m, j);
            }
        }
        None
    }

    /// Renames the first book with the ID `id` in the first category in
    /// storage order holding one; nothing changes if there is none.
    pub fn rename_book(&mut self, id: ID, new_name: String)
        requires
            old(self).wf(),
        ensures
            LibraryData::book_renamed(*old(self), *final(self), id, new_name),
    {
        let ghost o = *self;
        let mut k: usize = 0;
        while k < self.books.len()
            invariant
                *self == o,
                o == *old(self),
                o.wf(),
                k <= self.books@.len(),
                forall|j: int| 0 <= j < k ==> !holds_book((#[trigger] self.books@[j]).1.items@, id),
            decreases self.books@.len() - k,
        {
            match first_book(&self.books[k].1.items, id) {
                Some(p) => {
                    proof {
                        o.lemma_index_of(o.books@[k as int].0@, k as int);
                        lemma_first_book_unique(o.books@[k as int].1.items@, id, p as int);
                    }
                    let mut b = self.books[k].1.items.remove(p);
                    let ghost b0 = b;
                    b.name = new_name.clone();
                    match &mut b.source_data {
                        BookSource::Local(d) => d.name = new_name,
                        BookSource::Global(d) => d.name = new_name,
                    }
                    proof {
                        assert(b == renamed(b0, new_name));
                    }
                    self.books[k].1.items.insert(p, b);
                    proof {
                        let m = o.books@[k as int].0@;
                        assert(self.books@[k as int].1.items@ =~= o.books@[k as int].1.items@.update(p as int, renamed(b0, new_name)));
                        assert(self.books@[k as int].1@ == renamed_in(o.lists()[m], id, new_name));
                        assert(self.books@ == o.books@.update(k as int, self.books@[k as int]));
                        lemma_lists_update(o.books@, k as int, self.books@[k as int]);
                        lemma_same_names(o.books@, self.books@);
                        self.lemma_wf_from(o);
                        assert(self.lists() =~= o.lists().insert(m, renamed_in(o.lists()[m], id, new_name)));
                        assert(o.lists().contains_key(m));
                    }
                    return;
                },
                None => {},
            }
            k = k + 1;
        }
        proof {
            if o.holds(id) {
                let m = choose|m: Seq<char>| #[trigger] o.lists().contains_key(m) && holds_book(o.lists()[m].1, id);
                let j = o.index_of(m);
                o.lemma_index_of(m, j);
            }
        }
    }

    /// A mutable borrow of the book `find_book` gives: what is written
    /// through it takes that book's place, and nothing else changes.
    pub fn find_book_mut(&mut self, id: ID) -> (r: Option<&mut LibBookInfo>)
        requires
            old(self).wf(),
        ensures
            r is Some <==> old(self).holds(id),
            r is None ==> *final(self) == *old(self),
            r matches Some(b) ==> {
                &&& b.id == id
                &&& final(self).wf()
                &&& final(self).categories == old(self).categories
                &&& final(self).default_category_name == old(self).default_category_name
                &&& exists|n: Seq<char>|
                    #[trigger] old(self).lists().contains_key(n) && holds_book(old(self).lists()[n].1, id)
                        && *b == first_of(old(self).lists()[n].1, id)
                        && final(self).lists() == old(self).lists().insert(
                        n,
                        (
                            old(self).lists()[n].0,
                            old(self).lists()[n].1.update(
                                choose|p: int| first_book_at(old(self).lists()[n].1, id, p),
                                *final(b),
                            ),
                        ),
                    )
            },
    {
        let mut k: usize = 0;
        while k < self.books.len()
            invariant
                *self == *old(self),
                self.wf(),
                k <= self.books@.len(),
                forall|j: int| 0 <= j < k ==> !holds_book((#[trigger] self.books@[j]).1.items@, id),
            decreases self.books@.len() - k,
        {
            match first_book(&self.books[k].1.items, id) {
                Some(p) => {
                    proof {
                        self.lemma_index_of(self.books@[k as int].0@, k as int);
                        lemma_first_book_unique(self.books@[k as int].1.items@, id, p as int);
                        assert(self.lists().contains_key(self.books@[k as int].0@));
                        lemma_lists_replace(*self, k as int);
                    }
                    return Some(&mut self.books[k].1.items[p]);
                },
                None => {},
            }
            k = k + 1;
        }
        proof {
            if self.holds(id) {
                let m = choose|m: Seq<char>| #[trigger] self.lists().contains_key(m) && holds_book(self.lists()[m].1, id);
                let j = self.index_of(m);
                self.lemma_index_of(m, j);
            }
        }
        None
    }

    /// Gives the first book with the ID `id` the novel `novel` fetched anew
    /// (see `book_refreshed`).
    pub fn update_novel(&mut self, id: ID, novel: Novel)
        requires
            old(self).wf(),
        ensures
            LibraryData::book_refreshed(*old(self), *final(self), id, novel),
    {
        let ghost nv = novel;
        match self.find_book_mut(id) {
            Some(book) => {
                let ghost b0 = *book;
                let count = novel.chapters.len();
                match &mut book.source_data {
                    BookSource::Global(d) => {
                        d.total_chapters = count;
                        d.novel = novel;
                    },
                    BookSource::Local(_) => {},
                }
                proof {
                    assert(*book == refreshed(b0, nv));
                }
            },
            None => {},
        }
    }

    /// A category is selected, and the library has it.
    pub open spec fn category_selected(self) -> bool {
        self.categories.state.selected matches Some(i) && i < self.categories.items@.len()
            && self.has(self.categories.items@[i as int]@)
    }

    /// The book selected in the selected category, if one is.
    pub open spec fn selected_book(self) -> Option<LibBookInfo> {
        let l = self.lists()[self.selected_name()];
        match l.0.selected {
            Some(i) => if i < l.1.len() { Some(l.1[i as int]) } else { None },
            None => None,
        }
    }

    /// The selected book of the selected category is held by the library.
    pub proof fn lemma_selected_held(self)
        requires
            self.category_selected(),
            self.selected_book() is Some,
        ensures
            self.holds(self.selected_book()->0.id),
            self.lists().contains_key(self.selected_name()),
    {
        let n = self.selected_name();
        let l = self.lists()[n];
        let i = l.0.selected->0;
        assert(l.1[i as int] == self.selected_book()->0);
        assert(holds_book(l.1, self.selected_book()->0.id));
        assert(self.lists().contains_key(n));
    }

    /// The selected category's name.
    pub open spec fn selected_name(self) -> Seq<char> {
        self.categories.items@[self.categories.state.selected.unwrap() as int]@
    }

    /// A mutable borrow of the list of books of the selected category: what
    /// is written through it becomes that category's list, and nothing else changes.
    pub fn get_category_list_mut(&mut self) -> (r: &mut StatefulList<LibBookInfo>)
        requires
            old(self).wf(),
            old(self).categories.state.selected matches Some(i) && i < old(self).categories.items@.len()
                && old(self).has(old(self).categories.items@[i as int]@),
        ensures
            r@ == old(self).lists()[old(self).selected_name()],
            final(self).wf(),
            final(self).categories == old(self).categories,
            final(self).default_category_name == old(self).default_category_name,
            final(self).lists() == old(self).lists().insert(old(self).selected_name(), final(r)@),
    {
        let idx = self.categories.selected_idx().unwrap();
        let k = self.find_key(self.categories.items[idx].as_str()).unwrap();
        proof {
            self.lemma_index_of(self.categories.items@[idx as int]@, k as int);
            lemma_lists_replace(*self, k as int);
        }
        &mut self.books[k].1
    }

    /// The list of books of the selected category.
    pub fn get_category_list(&self) -> (r: &StatefulList<LibBookInfo>)
        requires
            self.wf(),
            self.categories.state.selected matches Some(i) && i < self.categories.items@.len()
                && self.has(self.categories.items@[i as int]@),
        ensures
            r@ == self.lists()[self.categories.items@[self.categories.state.selected.unwrap() as int]@],
    {
        let idx = self.categories.selected_idx().unwrap();
        let k = self.find_key(self.categories.items[idx].as_str()).unwrap();
        proof {
            self.lemma_index_of(self.categories.items@[idx as int]@, k as int);
        }
        &self.books[k].1
    }
}


/// Any list put in place of the one at `k` keeps `o` well formed and
/// becomes the list under that name.
proof fn lemma_lists_replace(o: LibraryData, k: int)
    requires
        o.wf(),
        0 <= k < o.books@.len(),
    ensures
        forall|l: StatefulList<LibBookInfo>| #![trigger o.books@.update(k, (o.books@[k].0, l))] {
            &&& keys_unique(o.books@.update(k, (o.books@[k].0, l)))
            &&& lists_of(o.books@.update(k, (o.books@[k].0, l))) == lists_of(o.books@).insert(o.books@[k].0@, l@)
            &&& has_key(o.books@.update(k, (o.books@[k].0, l)), o.default_category_name@)
            &&& forall|i: int| 0 <= i < o.books@.len() ==> lists_name(
                o.categories.items@,
                (#[trigger] o.books@.update(k, (o.books@[k].0, l))[i]).0@,
            )
        },
{
    assert forall|l: StatefulList<LibBookInfo>| #![trigger o.books@.update(k, (o.books@[k].0, l))] {
        &&& keys_unique(o.books@.update(k, (o.books@[k].0, l)))
        &&& lists_of(o.books@.update(k, (o.books@[k].0, l))) == lists_of(o.books@).insert(o.books@[k].0@, l@)
        &&& has_key(o.books@.update(k, (o.books@[k].0, l)), o.default_category_name@)
        &&& forall|i: int| 0 <= i < o.books@.len() ==> lists_name(
            o.categories.items@,
            (#[trigger] o.books@.update(k, (o.books@[k].0, l))[i]).0@,
        )
    } by {
        let t = o.books@.update(k, (o.books@[k].0, l));
        lemma_lists_update(o.books@, k, (o.books@[k].0, l));
        assert(lists_of(t) =~= lists_of(o.books@).insert(o.books@[k].0@, l@));
        lemma_same_names(o.books@, t);
        assert forall|i: int| 0 <= i < o.books@.len() implies lists_name(
            o.categories.items@,
            (#[trigger] t[i]).0@,
        ) by {
            assert(t[i].0 == o.books@[i].0);
            assert(lists_name(o.categories.items@, o.books@[i].0@));
        }
    }
}


impl LibraryData {
    /// Whether the library is well formed: no category name used twice, the
    /// default category there, and every category listed.
    pub fn is_wf(&self) -> (r: bool)
        ensures
            r == self.wf(),
    {
        let n = self.books.len();
        let mut i: usize = 0;
        while i < n
            invariant
                n == self.books@.len(),
                i <= n,
                forall|a: int, b: int| 0 <= a < i && 0 <= b < n && a != b
                    ==> (#[trigger] self.books@[a]).0@ != (#[trigger] self.books@[b]).0@,
            decreases n - i,
        {
            let mut j: usize = 0;
            while j < n
                invariant
                    n == self.books@.len(),
                    i < n,
                    j <= n,
                    forall|a: int, b: int| 0 <= a < i && 0 <= b < n && a != b
                        ==> (#[trigger] self.books@[a]).0@ != (#[trigger] self.books@[b]).0@,
                    forall|b: int| 0 <= b < j && b != i ==> (#[trigger] self.books@[b]).0@ != self.books@[i as int].0@,
                decreases n - j,
            {
                if j != i && string_eq(self.books[i].0.as_str(), self.books[j].0.as_str()) {
                    proof {
                        assert(!keys_unique(self.books@)) by {
                            assert(self.books@[i as int].0@ == self.books@[j as int].0@);
                        }
                    }
                    return false;
                }
                j = j + 1;
            }
            i = i + 1;
        }
        let mut d: usize = 0;
        let mut found = false;
        while d < n
            invariant
                n == self.books@.len(),
                d <= n,
                found == exists|a: int| 0 <= a < d && (#[trigger] self.books@[a]).0@ == self.default_category_name@,
            decreases n - d,
        {
            if string_eq(self.books[d].0.as_str(), self.default_category_name.as_str()) {
                found = true;
            }
            d = d + 1;
        }
        if !found {
            return false;
        }
        let mut k: usize = 0;
        while k < n
            invariant
                n == self.books@.len(),
                k <= n,
                forall|a: int| 0 <= a < k ==> lists_name(self.categories.items@, (#[trigger] self.books@[a]).0@),
            decreases n - k,
        {
            if first_position(&self.categories.items, self.books[k].0.as_str()).is_none() {
                return false;
            }
            k = k + 1;
        }
        true
    }

    /// Whether a category is selected that the library has.
    pub fn is_category_selected(&self) -> (r: bool)
        requires
            self.wf(),
        ensures
            r == self.category_selected(),
    {
        match self.categories.selected_idx() {
            None => false,
            Some(i) => i < self.categories.items.len() && self.find_key(self.categories.items[i].as_str()).is_some(),
        }
    }

    /// Whether each category holding a book with the ID `id` has a selection.
    pub fn is_selected_where_held(&self, id: ID) -> (r: bool)
        requires
            self.wf(),
        ensures
            r == self.selects_where_held(id),
    {
        let n = self.books.len();
        let mut k: usize = 0;
        while k < n
            invariant
                self.wf(),
                n == self.books@.len(),
                k <= n,
                forall|a: int| 0 <= a < k && holds_book((#[trigger] self.books@[a]).1.items@, id)
                    ==> self.books@[a].1.state.selected is Some,
            decreases n - k,
        {
            if first_book(&self.books[k].1.items, id).is_some() && self.books[k].1.state.selected.is_none() {
                proof {
                    let m = self.books@[k as int].0@;
                    self.lemma_index_of(m, k as int);
                    assert(!self.selects_where_held(id));
                }
                return false;
            }
            k = k + 1;
        }
        proof {
            assert forall|m: Seq<char>| #[trigger] self.lists().contains_key(m) && holds_book(self.lists()[m].1, id)
                implies self.lists()[m].0.selected is Some by {
                let a = self.index_of(m);
                self.lemma_index_of(m, a);
            }
        }
        true
    }
}

} // verus!
