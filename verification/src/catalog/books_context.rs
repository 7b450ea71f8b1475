use vstd::prelude::*;

use super::book::Book;
use super::id::ID;

verus! {

/// A handle on a book held by a `Context`: the book's key in the book store.
#[derive(Debug, Clone, Copy, PartialEq, Eq, Structural)]
pub struct BookRef {
    pub id: ID,
}

/// Every book the reader holds in memory, each under the key it was added with.
#[derive(Debug)]
pub struct BooksContext {
    pub books: Vec<(ID, Book)>,
}

/// `ids` holds `id`.
pub open spec fn holds_id(ids: Seq<ID>, id: ID) -> bool {
    exists|i: int| 0 <= i < ids.len() && ids[i] == id
}

impl BooksContext {
    /// No two entries share a key.
    pub open spec fn wf(self) -> bool {
        forall|i: int, j: int|
            0 <= i < self.books@.len() && 0 <= j < self.books@.len() && i != j
                ==> (#[trigger] self.books@[i]).0 != (#[trigger] self.books@[j]).0
    }

    pub open spec fn has(self, id: ID) -> bool {
        exists|i: int| 0 <= i < self.books@.len() && (#[trigger] self.books@[i]).0 == id
    }

    pub open spec fn index_of(self, id: ID) -> int {
        choose|i: int| 0 <= i < self.books@.len() && (#[trigger] self.books@[i]).0 == id
    }

    /// The book stored under `id`.
    pub open spec fn book(self, id: ID) -> Book {
        self.books@[self.index_of(id)].1
    }

    /// The keys, in order.
    pub open spec fn keys(self) -> Seq<ID> {
        self.books@.map_values(|e: (ID, Book)| e.0)
    }

    pub proof fn lemma_index_of(self, id: ID, i: int)
        requires
            self.wf(),
            0 <= i < self.books@.len(),
            self.books@[i].0 == id,
        ensures
            self.has(id),
            self.index_of(id) == i,
            self.book(id) == self.books@[i].1,
    {
        assert(self.books@[i].0 == id);
        let j = self.index_of(id);
        assert(0 <= j < self.books@.len() && self.books@[j].0 == id);
    }

    /// Whether no two entries share a key (see `wf`).
    pub fn is_wf(&self) -> (r: bool)
        ensures
            r == self.wf(),
    {
        let n = self.books.len();
        let mut i: usize = 0;
        while i < n
            invariant
                n == self.books@.len(),
                i <= n,
                forall|a: int, b: int|
                    0 <= a < i && 0 <= b < n && a != b ==> (#[trigger] self.books@[a]).0 != (#[trigger] self.books@[b]).0,
            decreases n - i,
        {
            let mut j: usize = 0;
            while j < n
                invariant
                    n == self.books@.len(),
                    i < n,
                    j <= n,
                    forall|a: int, b: int|
                        0 <= a < i && 0 <= b < n && a != b ==> (#[trigger] self.books@[a]).0 != (#[trigger] self.books@[b]).0,
                    forall|b: int| 0 <= b < j && b != i ==> self.books@[i as int].0 != (#[trigger] self.books@[b]).0,
                decreases n - j,
            {
                if j != i && self.books[i].0 == self.books[j].0 {
                    return false;
                }
                j = j + 1;
            }
            proof {
                assert forall|a: int, b: int| 0 <= a < i + 1 && 0 <= b < n && a != b implies (#[trigger] self.books@[a]).0
                    != (#[trigger] self.books@[b]).0 by {
                    if a == i {
                        assert(self.books@[i as int].0 != self.books@[b].0);
                    }
                }
            }
            i = i + 1;
        }
        true
    }

    pub fn new() -> (r: Self)
        ensures
            r.books@.len() == 0,
            r.wf(),
    {
        Self { books: Vec::new() }
    }

    /// The position of the entry stored under `id`.
    pub fn find_index(&self, id: ID) -> (r: Option<usize>)
        requires
            self.wf(),
        ensures
            match r {
                Some(i) => i < self.books@.len() && self.books@[i as int].0 == id && self.has(id)
                    && self.index_of(id) == i,
                None => !self.has(id),
            },
    {
        let mut i: usize = 0;
        while i < self.books.len()
            invariant
                self.wf(),
                i <= self.books@.len(),
                forall|j: int| 0 <= j < i ==> (#[trigger] self.books@[j]).0 != id,
            decreases self.books@.len() - i,
        {
            if self.books[i].0 == id {
                proof {
                    self.lemma_index_of(id, i as int);
                }
                return Some(i);
            }
            i = i + 1;
        }
        None
    }

    /// Adds a book under its ID, unless a book is already stored under that ID.
    pub fn add_book(&mut self, book: Book)
        requires
            old(self).wf(),
        ensures
            final(self).wf(),
            old(self).has(book.id) ==> final(self).books@ == old(self).books@,
            !old(self).has(book.id) ==> final(self).books@ == old(self).books@.push((book.id, book)),
    {
        let id = book.id;
        if self.find_index(id).is_none() {
            self.books.push((id, book));
            proof {
                assert forall|i: int, j: int|
                    0 <= i < self.books@.len() && 0 <= j < self.books@.len() && i != j implies
                    (#[trigger] self.books@[i]).0 != (#[trigger] self.books@[j]).0 by {
                    if i < old(self).books@.len() && j < old(self).books@.len() {
                        assert(old(self).books@[i] == self.books@[i]);
                        assert(old(self).books@[j] == self.books@[j]);
                    } else if i < old(self).books@.len() {
                        assert(old(self).books@[i] == self.books@[i]);
                    } else {
                        assert(old(self).books@[j] == self.books@[j]);
                    }
                }
            }
        }
    }

    /// A handle on the book stored under `id`, if there is one.
    pub fn get(&self, id: ID) -> (r: Option<BookRef>)
        requires
            self.wf(),
        ensures
            r == (if self.has(id) {
                Some(BookRef { id })
            } else {
                None::<BookRef>
            }),
    {
        match self.find_index(id) {
            Some(_) => Some(BookRef { id }),
            None => None,
        }
    }

    pub fn find_book(&self, id: ID) -> (r: Option<BookRef>)
        requires
            self.wf(),
        ensures
            r == (if self.has(id) {
                Some(BookRef { id })
            } else {
                None::<BookRef>
            }),
    {
        self.get(id)
    }

    /// A book whose full URL is `url`, if there is one.
    pub fn find_book_by_url(&self, url: &String) -> (r: Option<BookRef>)
        requires
            self.wf(),
        ensures
            match r {
                Some(b) => self.has(b.id) && self.book(b.id).full_url_spec() == Some(url@),
                None => forall|i: int|
                    0 <= i < self.books@.len() ==> (#[trigger] self.books@[i]).1.full_url_spec()
                        != Some(url@),
            },
    {
        let mut i: usize = 0;
        while i < self.books.len()
            invariant
                self.wf(),
                i <= self.books@.len(),
                forall|j: int|
                    0 <= j < i ==> (#[trigger] self.books@[j]).1.full_url_spec() != Some(url@),
            decreases self.books@.len() - i,
        {
            let matched = match self.books[i].1.get_full_url() {
                Some(link) => string_eq(link, url.as_str()),
                None => false,
            };
            if matched {
                proof {
                    self.lemma_index_of(self.books@[i as int].0, i as int);
                }
                return Some(BookRef { id: self.books[i].0 });
            }
            i = i + 1;
        }
        None
    }

    /// Drops the books no longer referenced, and returns how many there were:
    /// `keep` names every book still referenced (by the library, the history,
    /// the update list, or a handle a caller holds and will use again), and
    /// every book whose key it does not name is dropped. The entries dropped
    /// are those whose key is the ID held by such a book; the others stay
    /// unchanged and in order.
    pub fn remove_unneeded(&mut self, keep: &Vec<ID>) -> (r: usize)
        requires
            old(self).wf(),
        ensures
            final(self).wf(),
            r == old(self).books@.filter(|e: (ID, Book)| !holds_id(keep@, e.0)).len(),
            final(self).books@ == old(self).books@.filter(
                |e: (ID, Book)| !holds_id(unneeded_ids(old(self).books@, keep@), e.0),
            ),
    {
        let ghost s = self.books@;
        let ghost pred = |e: (ID, Book)| !holds_id(keep@, e.0);
        let mut to_remove: Vec<ID> = Vec::new();
        let mut i: usize = 0;
        while i < self.books.len()
            invariant
                self.books@ == s,
                i <= s.len(),
                pred == (|e: (ID, Book)| !holds_id(keep@, e.0)),
                to_remove@ == s.take(i as int).filter(pred).map_values(|e: (ID, Book)| e.1.id),
            decreases s.len() - i,
        {
            let ghost before = to_remove@;
            proof {
                crate::seqs::lemma_filter_take_step(s, pred, i as int);
            }
            let needed = contains_id(keep, self.books[i].0);
            assert(pred(s[i as int]) == !needed);
            if !needed {
                to_remove.push(self.books[i].1.id);
                proof {
                    assert(s.take(i + 1).filter(pred) == s.take(i as int).filter(pred).push(s[i as int]));
                    assert(s.take(i as int).filter(pred).push(s[i as int]).map_values(|e: (ID, Book)| e.1.id)
                        =~= s.take(i as int).filter(pred).map_values(|e: (ID, Book)| e.1.id).push(s[i as int].1.id));
                }
            } else {
                proof {
                    assert(s.take(i + 1).filter(pred) == s.take(i as int).filter(pred));
                }
            }
            i = i + 1;
        }
        proof {
            assert(s.take(s.len() as int) =~= s);
        }
        let rem_count = to_remove.len();
        let ghost unneeded = to_remove@;
        let ghost pred2 = |e: (ID, Book)| !holds_id(unneeded, e.0);
        let n = self.books.len();
        let mut rest: Vec<(ID, Book)> = Vec::new();
        std::mem::swap(&mut rest, &mut self.books);
        let mut j: usize = 0;
        while rest.len() > 0
            invariant
                rest@ == s.skip(j as int),
                j <= s.len(),
                j + rest@.len() == s.len(),
                s.len() == n,
                pred2 == (|e: (ID, Book)| !holds_id(unneeded, e.0)),
                self.books@ == s.take(j as int).filter(pred2),
                to_remove@ == unneeded,
            decreases rest@.len(),
        {
            proof {
                crate::seqs::lemma_filter_take_step(s, pred2, j as int);
                assert(rest@[0] == s[j as int]);
            }
            let entry = rest.remove(0);
            let gone = contains_id(&to_remove, entry.0);
            assert(pred2(s[j as int]) == !gone);
            if !gone {
                self.books.push(entry);
                proof {
                    assert(s.take(j + 1).filter(pred2) == s.take(j as int).filter(pred2).push(s[j as int]));
                }
            } else {
                proof {
                    assert(s.take(j + 1).filter(pred2) == s.take(j as int).filter(pred2));
                }
            }
            proof {
                assert(rest@ =~= s.skip(j + 1));
            }
            j = j + 1;
        }
        proof {
            assert(s.take(s.len() as int) =~= s);
            lemma_filter_keeps_unique(s, pred2);
        }
        rem_count
    }
}

/// `refs` names the book `id`.
pub open spec fn refs_hold(refs: Seq<BookRef>, id: ID) -> bool {
    exists|i: int| 0 <= i < refs.len() && refs[i].id == id
}

impl BooksContext {
    /// `self` is `old` with the category of every book that `refs` names cleared.
    pub open spec fn categories_cleared(self, old: BooksContext, refs: Seq<BookRef>) -> bool {
        &&& self.books@.len() == old.books@.len()
        &&& forall|k: int|
            0 <= k < self.books@.len() ==> {
                let (id, b) = #[trigger] self.books@[k];
                let (oid, ob) = old.books@[k];
                &&& id == oid
                &&& if refs_hold(refs, oid) {
                    b == Book { category: None, ..ob }
                } else {
                    b == ob
                }
            }
    }

    /// Clears the category of every book that `refs` names.
    pub fn clear_categories(&mut self, refs: &Vec<BookRef>)
        requires
            old(self).wf(),
        ensures
            final(self).wf(),
            final(self).categories_cleared(*old(self), refs@),
    {
        let n = self.books.len();
        let mut k: usize = 0;
        while k < n
            invariant
                n == self.books@.len(),
                n == old(self).books@.len(),
                k <= n,
                forall|j: int| 0 <= j < n ==> (#[trigger] self.books@[j]).0 == old(self).books@[j].0,
                forall|j: int|
                    0 <= j < k ==> {
                        let (id, b) = #[trigger] self.books@[j];
                        let ob = old(self).books@[j].1;
                        if refs_hold(refs@, id) {
                            b == Book { category: None, ..ob }
                        } else {
                            b == ob
                        }
                    },
                forall|j: int| k <= j < n ==> #[trigger] self.books@[j] == old(self).books@[j],
            decreases n - k,
        {
            let id = self.books[k].0;
            let mut hit = false;
            let mut t: usize = 0;
            while t < refs.len()
                invariant
                    t <= refs@.len(),
                    hit == exists|x: int| 0 <= x < t && refs@[x].id == id,
                decreases refs@.len() - t,
            {
                if refs[t].id == id {
                    hit = true;
                }
                t = t + 1;
            }
            if hit {
                self.books[k].1.category = None;
            }
            k = k + 1;
        }
        proof {
            assert forall|i: int, j: int|
                0 <= i < self.books@.len() && 0 <= j < self.books@.len() && i != j implies
                (#[trigger] self.books@[i]).0 != (#[trigger] self.books@[j]).0 by {
                assert(old(self).books@[i].0 != old(self).books@[j].0);
            }
        }
    }
}

/// The IDs held by the books whose keys are not in `keep`.
pub open spec fn unneeded_ids(s: Seq<(ID, Book)>, keep: Seq<ID>) -> Seq<ID> {
    s.filter(|e: (ID, Book)| !holds_id(keep, e.0)).map_values(|e: (ID, Book)| e.1.id)
}

/// Filtering a sequence of entries with unique keys leaves unique keys.
pub proof fn lemma_filter_keeps_unique(s: Seq<(ID, Book)>, pred: spec_fn((ID, Book)) -> bool)
    requires
        forall|i: int, j: int|
            0 <= i < s.len() && 0 <= j < s.len() && i != j ==> (#[trigger] s[i]).0 != (#[trigger] s[j]).0,
    ensures
        forall|i: int, j: int|
            0 <= i < s.filter(pred).len() && 0 <= j < s.filter(pred).len() && i != j
                ==> (#[trigger] s.filter(pred)[i]).0 != (#[trigger] s.filter(pred)[j]).0,
    decreases s.len(),
{
    reveal_with_fuel(Seq::<_>::filter, 1);
    if s.len() > 0 {
        let t = s.drop_last();
        assert forall|i: int, j: int|
            0 <= i < t.len() && 0 <= j < t.len() && i != j implies (#[trigger] t[i]).0 != (#[trigger] t[j]).0 by {
            assert(t[i] == s[i] && t[j] == s[j]);
        }
        lemma_filter_keeps_unique(t, pred);
        let ft = t.filter(pred);
        if pred(s.last()) {
            let fs = s.filter(pred);
            assert(fs == ft.push(s.last()));
            assert forall|i: int, j: int|
                0 <= i < fs.len() && 0 <= j < fs.len() && i != j implies (#[trigger] fs[i]).0 != (#[trigger] fs[j]).0 by {
                if i < ft.len() && j < ft.len() {
                    assert(fs[i] == ft[i] && fs[j] == ft[j]);
                } else if i < ft.len() {
                    assert(fs[i] == ft[i]);
                    lemma_filter_member_from(t, pred, i);
                    let k = choose|k: int| 0 <= k < t.len() && t[k] == ft[i];
                    assert(s[k] == t[k]);
                    assert(s[s.len() - 1] == s.last());
                } else if j < ft.len() {
                    assert(fs[j] == ft[j]);
                    lemma_filter_member_from(t, pred, j);
                    let k = choose|k: int| 0 <= k < t.len() && t[k] == ft[j];
                    assert(s[k] == t[k]);
                    assert(s[s.len() - 1] == s.last());
                }
            }
        } else {
            assert(s.filter(pred) == ft);
        }
    }
}

/// Every element of a filtered sequence comes from the sequence.
pub proof fn lemma_filter_member_from<A>(s: Seq<A>, pred: spec_fn(A) -> bool, i: int)
    requires
        0 <= i < s.filter(pred).len(),
    ensures
        exists|k: int| 0 <= k < s.len() && s[k] == s.filter(pred)[i],
{
    let x = s.filter(pred)[i];
    assert(s.filter(pred).contains(x));
    s.lemma_filter_contains_rev(pred, x);
}

/// Whether `ids` holds `id`.
pub fn contains_id(ids: &Vec<ID>, id: ID) -> (r: bool)
    ensures
        r == holds_id(ids@, id),
{
    let mut i: usize = 0;
    while i < ids.len()
        invariant
            i <= ids@.len(),
            forall|j: int| 0 <= j < i ==> ids@[j] != id,
        decreases ids@.len() - i,
    {
        if ids[i] == id {
            return true;
        }
        i = i + 1;
    }
    false
}

/// Whether `order` lists `name`.
pub(crate) fn lists_name(order: &Vec<String>, name: &str) -> (r: bool)
    ensures
        r == exists|i: int| 0 <= i < order@.len() && (#[trigger] order@[i])@ == name@,
{
    let mut i: usize = 0;
    while i < order.len()
        invariant
            i <= order@.len(),
            forall|j: int| 0 <= j < i ==> (#[trigger] order@[j])@ != name@,
        decreases order@.len() - i,
    {
        if string_eq(order[i].as_str(), name) {
            return true;
        }
        i = i + 1;
    }
    false
}

/// Whether no two of `names` hold the same characters.
pub(crate) fn names_distinct(names: &Vec<String>) -> (r: bool)
    ensures
        r == forall|i: int, j: int|
            0 <= i < names@.len() && 0 <= j < names@.len() && i != j ==> (#[trigger] names@[i])@ != (#[trigger] names@[j])@,
{
    let n = names.len();
    let mut i: usize = 0;
    while i < n
        invariant
            n == names@.len(),
            i <= n,
            forall|a: int, b: int| 0 <= a < i && 0 <= b < n && a != b ==> (#[trigger] names@[a])@ != (#[trigger] names@[b])@,
        decreases n - i,
    {
        let mut j: usize = 0;
        while j < n
            invariant
                n == names@.len(),
                i < n,
                j <= n,
                forall|a: int, b: int| 0 <= a < i && 0 <= b < n && a != b ==> (#[trigger] names@[a])@ != (#[trigger] names@[b])@,
                forall|b: int| 0 <= b < j && b != i ==> names@[i as int]@ != (#[trigger] names@[b])@,
            decreases n - j,
        {
            if j != i && string_eq(names[i].as_str(), names[j].as_str()) {
                return false;
            }
            j = j + 1;
        }
        proof {
            assert forall|a: int, b: int| 0 <= a < i + 1 && 0 <= b < n && a != b implies (#[trigger] names@[a])@
                != (#[trigger] names@[b])@ by {
                if a == i {
                    assert(names@[i as int]@ != names@[b]@);
                }
            }
        }
        i = i + 1;
    }
    true
}

/// Whether two strings hold the same characters.
pub fn string_eq(a: &str, b: &str) -> (r: bool)
    ensures
        r == (a@ == b@),
{
    let x = crate::text::chars_of(a);
    let y = crate::text::chars_of(b);
    if x.len() != y.len() {
        return false;
    }
    let mut i: usize = 0;
    while i < x.len()
        invariant
            x@ == a@,
            y@ == b@,
            x@.len() == y@.len(),
            i <= x@.len(),
            forall|j: int| 0 <= j < i ==> x@[j] == y@[j],
        decreases x@.len() - i,
    {
        if x[i] != y[i] {
            return false;
        }
        i = i + 1;
    }
    proof {
        assert(x@ =~= y@);
    }
    true
}

} // verus!
