use vstd::prelude::*;

use super::book::TRError;
use super::books_context::{lists_name, names_distinct, string_eq, BookRef, BooksContext};
use super::id::ID;
use super::book::Book;

verus! {

/// A category `name` added at the end of `o`'s, empty, gives `f`: its lists
/// and order are `o`'s with `name` added.
pub proof fn lemma_pushed_category(o: LibraryContext, f: LibraryContext, name: Seq<char>)
    requires
        o.wf(),
        f.wf(),
        !o.has_category(name),
        f.books@.len() == o.books@.len() + 1,
        forall|k: int| 0 <= k < o.books@.len() ==> f.books@[k] == o.books@[k],
        f.books@.last().0@ == name,
        f.books@.last().1@.len() == 0,
        f.category_order@ == o.category_order@.push(f.books@.last().0),
    ensures
        f.lists() == o.lists().insert(name, Seq::empty()),
        f.order_names() == o.order_names().push(name),
{
    let last = f.books@.len() - 1;
    f.lemma_cat_index(name, last);
    assert forall|n: Seq<char>| #[trigger] f.lists().dom().contains(n) == o.lists().insert(name, Seq::empty()).dom().contains(n) by {
        if o.has_category(n) {
            let d = o.cat_index(n);
            assert(f.books@[d] == o.books@[d]);
        }
        if f.has_category(n) && n != name {
            let d = f.cat_index(n);
            assert(d != last);
            assert(f.books@[d] == o.books@[d]);
        }
    }
    assert forall|n: Seq<char>| #[trigger] f.lists().dom().contains(n) implies f.lists()[n] == o.lists().insert(name, Seq::empty())[n] by {
        if n == name {
            assert(f.category(name) =~= Seq::<BookRef>::empty());
        } else {
            let d = o.cat_index(n);
            assert(f.books@[d] == o.books@[d]);
            f.lemma_cat_index(n, d);
        }
    }
    assert(f.lists() =~= o.lists().insert(name, Seq::empty()));
    assert(f.order_names() =~= o.order_names().push(name));
}

/// `s` without the first handle on the book `id` (unchanged if there is none).
pub open spec fn remove_first(s: Seq<BookRef>, id: ID) -> Seq<BookRef>
    decreases s.len(),
{
    if s.len() == 0 {
        s
    } else if s[0].id == id {
        s.drop_first()
    } else {
        seq![s[0]] + remove_first(s.drop_first(), id)
    }
}

pub proof fn lemma_remove_first_at(s: Seq<BookRef>, id: ID, p: int)
    requires
        0 <= p < s.len(),
        s[p].id == id,
        forall|j: int| 0 <= j < p ==> (#[trigger] s[j]).id != id,
    ensures
        remove_first(s, id) == s.remove(p),
    decreases p,
{
    if p == 0 {
        assert(s.drop_first() =~= s.remove(0));
    } else {
        let t = s.drop_first();
        assert forall|j: int| 0 <= j < p - 1 implies (#[trigger] t[j]).id != id by {
            assert(t[j] == s[j + 1]);
        }
        assert(s[0].id != id);
        lemma_remove_first_at(t, id, p - 1);
        assert(seq![s[0]] + t.remove(p - 1) =~= s.remove(p));
    }
}

pub proof fn lemma_remove_first_absent(s: Seq<BookRef>, id: ID)
    requires
        forall|j: int| 0 <= j < s.len() ==> (#[trigger] s[j]).id != id,
    ensures
        remove_first(s, id) == s,
    decreases s.len(),
{
    if s.len() > 0 {
        let t = s.drop_first();
        assert forall|j: int| 0 <= j < t.len() implies (#[trigger] t[j]).id != id by {
            assert(t[j] == s[j + 1]);
        }
        lemma_remove_first_absent(t, id);
        assert(s[0].id != id);
        assert(seq![s[0]] + t =~= s);
    }
}

/// The user's library: named categories of books, one of them the default,
/// and the order in which the categories are shown.
#[derive(Debug)]
pub struct LibraryContext {
    pub books: Vec<(String, Vec<BookRef>)>,
    pub default_category_name: String,
    pub category_order: Vec<String>,
}

impl LibraryContext {
    pub open spec fn has_category(self, name: Seq<char>) -> bool {
        exists|i: int| 0 <= i < self.books@.len() && (#[trigger] self.books@[i]).0@ == name
    }

    pub open spec fn cat_index(self, name: Seq<char>) -> int {
        choose|i: int| 0 <= i < self.books@.len() && (#[trigger] self.books@[i]).0@ == name
    }

    /// The books of a category.
    pub open spec fn category(self, name: Seq<char>) -> Seq<BookRef> {
        self.books@[self.cat_index(name)].1@
    }

    pub open spec fn in_order(self, name: Seq<char>) -> bool {
        exists|i: int| 0 <= i < self.category_order@.len() && (#[trigger] self.category_order@[i])@ == name
    }

    /// No two categories share a name, the default category exists, and the
    /// display order lists each category exactly once.
    pub open spec fn wf(self) -> bool {
        &&& forall|i: int, j: int|
            0 <= i < self.books@.len() && 0 <= j < self.books@.len() && i != j
                ==> (#[trigger] self.books@[i]).0@ != (#[trigger] self.books@[j]).0@
        &&& self.has_category(self.default_category_name@)
        &&& forall|i: int, j: int|
            0 <= i < self.category_order@.len() && 0 <= j < self.category_order@.len() && i != j
                ==> (#[trigger] self.category_order@[i])@ != (#[trigger] self.category_order@[j])@
        &&& forall|i: int|
            0 <= i < self.category_order@.len() ==> self.has_category(
                (#[trigger] self.category_order@[i])@,
            )
        &&& forall|i: int| 0 <= i < self.books@.len() ==> self.in_order((#[trigger] self.books@[i]).0@)
    }

    pub proof fn lemma_cat_index(self, name: Seq<char>, i: int)
        requires
            self.wf(),
            0 <= i < self.books@.len(),
            self.books@[i].0@ == name,
        ensures
            self.has_category(name),
            self.cat_index(name) == i,
            self.category(name) == self.books@[i].1@,
    {
        assert(self.books@[i].0@ == name);
        let j = self.cat_index(name);
        assert(0 <= j < self.books@.len() && self.books@[j].0@ == name);
    }

    /// Whether the library is well formed (see `wf`).
    pub fn is_wf(&self) -> (r: bool)
        ensures
            r == self.wf(),
    {
        let mut names: Vec<String> = Vec::new();
        let mut k: usize = 0;
        while k < self.books.len()
            invariant
                k <= self.books@.len(),
                names@.len() == k,
                forall|j: int| 0 <= j < k ==> (#[trigger] names@[j]) == self.books@[j].0,
            decreases self.books@.len() - k,
        {
            names.push(self.books[k].0.clone());
            k = k + 1;
        }
        assert forall|n: Seq<char>| self.has_category(n) == (exists|j: int| 0 <= j < names@.len() && (#[trigger] names@[j])@ == n) by {
            if self.has_category(n) {
                let i = choose|i: int| 0 <= i < self.books@.len() && (#[trigger] self.books@[i]).0@ == n;
                assert(names@[i]@ == n);
            }
            if exists|j: int| 0 <= j < names@.len() && (#[trigger] names@[j])@ == n {
                let j = choose|j: int| 0 <= j < names@.len() && (#[trigger] names@[j])@ == n;
                assert(self.books@[j].0@ == n);
            }
        }
        let distinct = names_distinct(&names);
        proof {
            if distinct {
                assert forall|i: int, j: int|
                    0 <= i < self.books@.len() && 0 <= j < self.books@.len() && i != j
                        implies (#[trigger] self.books@[i]).0@ != (#[trigger] self.books@[j]).0@ by {
                    assert(names@[i] == self.books@[i].0 && names@[j] == self.books@[j].0);
                }
            } else {
                let (i, j) = choose|i: int, j: int|
                    0 <= i < names@.len() && 0 <= j < names@.len() && i != j && (#[trigger] names@[i])@ == (#[trigger] names@[j])@;
                assert(self.books@[i].0@ == self.books@[j].0@);
            }
        }
        if !distinct {
            return false;
        }
        if !lists_name(&names, self.default_category_name.as_str()) {
            return false;
        }
        if !names_distinct(&self.category_order) {
            return false;
        }
        let mut i: usize = 0;
        while i < self.category_order.len()
            invariant
                i <= self.category_order@.len(),
                names@.len() == self.books@.len(),
                forall|j: int| 0 <= j < names@.len() ==> (#[trigger] names@[j]) == self.books@[j].0,
                forall|a: int| 0 <= a < i ==> self.has_category((#[trigger] self.category_order@[a])@),
            decreases self.category_order@.len() - i,
        {
            let found = lists_name(&names, self.category_order[i].as_str());
            proof {
                if found {
                    let j = choose|j: int| 0 <= j < names@.len() && (#[trigger] names@[j])@ == self.category_order@[i as int]@;
                    assert(self.books@[j].0@ == self.category_order@[i as int]@);
                } else if self.has_category(self.category_order@[i as int]@) {
                    let x = choose|x: int| 0 <= x < self.books@.len() && (#[trigger] self.books@[x]).0@ == self.category_order@[i as int]@;
                    assert(names@[x]@ == self.category_order@[i as int]@);
                }
            }
            if !found {
                return false;
            }
            i = i + 1;
        }
        let mut k: usize = 0;
        while k < self.books.len()
            invariant
                k <= self.books@.len(),
                forall|b: int| 0 <= b < k ==> self.in_order((#[trigger] self.books@[b]).0@),
            decreases self.books@.len() - k,
        {
            if !lists_name(&self.category_order, self.books[k].0.as_str()) {
                return false;
            }
            k = k + 1;
        }
        true
    }

    /// Creates an empty library
    pub fn new() -> (r: Self)
        ensures
            r.wf(),
            r.default_category_name@ == "Default"@,
            r.books@.len() == 1,
            r.books@[0].0@ == "Default"@,
            r.books@[0].1@.len() == 0,
            r.category_order@.len() == 1,
            r.category_order@[0]@ == "Default"@,
    {
        let mut books: Vec<(String, Vec<BookRef>)> = Vec::new();
        books.push((String::from_str("Default"), Vec::new()));
        let mut order: Vec<String> = Vec::new();
        order.push(String::from_str("Default"));
        let r = Self { books, default_category_name: String::from_str("Default"), category_order: order };
        proof {
            assert(r.books@[0].0@ == r.default_category_name@);
            assert(r.category_order@[0]@ == r.books@[0].0@);
        }
        r
    }

    /// The position of the category called `name`.
    pub fn find_category(&self, name: &str) -> (r: Option<usize>)
        requires
            self.wf(),
        ensures
            match r {
                Some(i) => i < self.books@.len() && self.books@[i as int].0@ == name@
                    && self.has_category(name@) && self.cat_index(name@) == i,
                None => !self.has_category(name@),
            },
    {
        let mut i: usize = 0;
        while i < self.books.len()
            invariant
                self.wf(),
                i <= self.books@.len(),
                forall|j: int| 0 <= j < i ==> (#[trigger] self.books@[j]).0@ != name@,
            decreases self.books@.len() - i,
        {
            if string_eq(self.books[i].0.as_str(), name) {
                proof {
                    self.lemma_cat_index(name@, i as int);
                }
                return Some(i);
            }
            i = i + 1;
        }
        None
    }

    /// Takes the first handle on book `id` out of every category.
    pub fn remove_book(&mut self, id: ID)
        requires
            old(self).wf(),
        ensures
            final(self).wf(),
            final(self).default_category_name == old(self).default_category_name,
            final(self).category_order@ == old(self).category_order@,
            final(self).books@.len() == old(self).books@.len(),
            forall|k: int|
                0 <= k < final(self).books@.len() ==> (#[trigger] final(self).books@[k]).0
                    == old(self).books@[k].0 && final(self).books@[k].1@ == remove_first(
                    old(self).books@[k].1@,
                    id,
                ),
            final(self).lists() == lists_without(old(self).lists(), id),
            final(self).order_names() == old(self).order_names(),
    {
        let n = self.books.len();
        let mut k: usize = 0;
        while k < n
            invariant
                n == self.books@.len(),
                n == old(self).books@.len(),
                k <= n,
                self.default_category_name == old(self).default_category_name,
                self.category_order@ == old(self).category_order@,
                forall|j: int| 0 <= j < n ==> (#[trigger] self.books@[j]).0 == old(self).books@[j].0,
                forall|j: int|
                    0 <= j < k ==> (#[trigger] self.books@[j]).1@ == remove_first(
                        old(self).books@[j].1@,
                        id,
                    ),
                forall|j: int| k <= j < n ==> (#[trigger] self.books@[j]).1@ == old(self).books@[j].1@,
            decreases n - k,
        {
            let mut p: usize = 0;
            let len = self.books[k].1.len();
            while p < len
                invariant
                    n == self.books@.len(),
                    k < n,
                    len == self.books@[k as int].1@.len(),
                    p <= len,
                    forall|j: int| 0 <= j < p ==> (#[trigger] self.books@[k as int].1@[j]).id != id,
                ensures
                    p <= len,
                    forall|j: int| 0 <= j < p ==> (#[trigger] self.books@[k as int].1@[j]).id != id,
                    p < len ==> self.books@[k as int].1@[p as int].id == id,
                decreases len - p,
            {
                if self.books[k].1[p].id == id {
                    break;
                }
                p = p + 1;
            }
            let ghost before = self.books@[k as int].1@;
            if p < len {
                proof {
                    lemma_remove_first_at(before, id, p as int);
                }
                self.books[k].1.remove(p);
            } else {
                proof {
                    lemma_remove_first_absent(before, id);
                }
            }
            k = k + 1;
        }
        proof {
            assert forall|i: int| 0 <= i < self.books@.len() implies #[trigger] self.books@[i].0@ == old(self).books@[i].0@ by {}
            assert(self.has_category(self.default_category_name@)) by {
                let d = old(self).cat_index(old(self).default_category_name@);
                assert(self.books@[d].0 == old(self).books@[d].0);
            }
            assert forall|i: int| 0 <= i < self.category_order@.len() implies self.has_category(
                (#[trigger] self.category_order@[i])@) by {
                assert(old(self).has_category(old(self).category_order@[i]@));
                let d = old(self).cat_index(old(self).category_order@[i]@);
                assert(self.books@[d].0 == old(self).books@[d].0);
            }
            assert forall|i: int| 0 <= i < self.books@.len() implies self.in_order((#[trigger] self.books@[i]).0@) by {
                assert(old(self).in_order(old(self).books@[i].0@));
            }
            assert forall|i: int, j: int|
                0 <= i < self.books@.len() && 0 <= j < self.books@.len() && i != j
                    implies (#[trigger] self.books@[i]).0@ != (#[trigger] self.books@[j]).0@ by {
                assert(old(self).books@[i].0@ != old(self).books@[j].0@);
            }
            assert forall|m: Seq<char>| old(self).has_category(m) <==> self.has_category(m) by {
                if old(self).has_category(m) {
                    let i = old(self).cat_index(m);
                    assert(self.books@[i].0 == old(self).books@[i].0);
                }
                if self.has_category(m) {
                    let i = self.cat_index(m);
                    assert(self.books@[i].0 == old(self).books@[i].0);
                }
            }
            let expected = lists_without(old(self).lists(), id);
            assert forall|m: Seq<char>| #![auto] self.lists().contains_key(m) implies self.lists()[m] == expected[m] by {
                let i = self.cat_index(m);
                self.lemma_cat_index(m, i);
                old(self).lemma_cat_index(m, i);
            }
            assert(self.lists() =~= expected);
        }
    }

    /// Adds an empty category at the end of the order; a name in use gives `Duplicate`.
    pub fn create_category(&mut self, name: String) -> (r: Result<(), TRError>)
        requires
            old(self).wf(),
        ensures
            final(self).wf(),
            old(self).has_category(name@) ==> r == Err::<(), TRError>(TRError::Duplicate)
                && final(self).books@ == old(self).books@
                && final(self).category_order@ == old(self).category_order@
                && final(self).default_category_name == old(self).default_category_name,
            !old(self).has_category(name@) ==> r is Ok
                && final(self).books@ == old(self).books@.push((name, final(self).books@.last().1))
                && final(self).books@.last().1@.len() == 0
                && final(self).category_order@ == old(self).category_order@.push(name)
                && final(self).default_category_name == old(self).default_category_name
                && final(self).lists() == old(self).lists().insert(name@, Seq::empty())
                && final(self).order_names() == old(self).order_names().push(name@),
    {
        if self.find_category(name.as_str()).is_some() {
            return Err(TRError::Duplicate);
        }
        self.books.push((name.clone(), Vec::new()));
        self.category_order.push(name);
        proof {
            let n = self.books@.len() - 1;
            let m = self.category_order@.len() - 1;
            assert(self.books@[n].0@ == name@);
            assert(self.category_order@[m]@ == name@);
            assert(self.has_category(self.default_category_name@)) by {
                let d = old(self).cat_index(old(self).default_category_name@);
                assert(self.books@[d] == old(self).books@[d]);
            }
            assert forall|i: int| 0 <= i < self.category_order@.len() implies self.has_category(
                (#[trigger] self.category_order@[i])@) by {
                if i < m {
                    assert(old(self).has_category(old(self).category_order@[i]@));
                    let d = old(self).cat_index(old(self).category_order@[i]@);
                    assert(self.books@[d] == old(self).books@[d]);
                } else {
                    assert(self.books@[n].0@ == name@);
                }
            }
            assert forall|i: int| 0 <= i < self.books@.len() implies self.in_order((#[trigger] self.books@[i]).0@) by {
                if i < n {
                    assert(old(self).in_order(old(self).books@[i].0@));
                    let d = choose|d: int| 0 <= d < old(self).category_order@.len()
                        && (#[trigger] old(self).category_order@[d])@ == old(self).books@[i].0@;
                    assert(self.category_order@[d] == old(self).category_order@[d]);
                } else {
                    assert(self.category_order@[m]@ == name@);
                }
            }
            assert forall|i: int, j: int|
                0 <= i < self.books@.len() && 0 <= j < self.books@.len() && i != j
                    implies (#[trigger] self.books@[i]).0@ != (#[trigger] self.books@[j]).0@ by {
                if i < n && j < n {
                    assert(old(self).books@[i].0@ != old(self).books@[j].0@);
                }
            }
            assert forall|i: int, j: int|
                0 <= i < self.category_order@.len() && 0 <= j < self.category_order@.len() && i != j
                    implies (#[trigger] self.category_order@[i])@ != (#[trigger] self.category_order@[j])@ by {
                if i < m && j < m {
                    assert(old(self).category_order@[i]@ != old(self).category_order@[j]@);
                } else if i < m {
                    assert(old(self).has_category(old(self).category_order@[i]@));
                } else if j < m {
                    assert(old(self).has_category(old(self).category_order@[j]@));
                }
            }
            lemma_pushed_category(*old(self), *self, name@);
        }
        Ok(())
    }

    pub fn get_categories(&self) -> (r: &Vec<String>)
        ensures
            r@ == self.category_order@,
    {
        &self.category_order
    }

    pub fn get_category_count(&self) -> (r: usize)
        ensures
            r == self.books@.len(),
    {
        self.books.len()
    }

    /// Moves the category at `move_idx` one place towards the front. Returns
    /// its new position, or `None` if the index is out of range.
    pub fn reorder_category_forwards(&mut self, move_idx: usize) -> (r: Option<usize>)
        requires
            old(self).wf(),
        ensures
            final(self).wf(),
            final(self).books@ == old(self).books@,
            final(self).default_category_name == old(self).default_category_name,
            move_idx >= old(self).category_order@.len() ==> r is None
                && final(self).category_order@ == old(self).category_order@,
            move_idx == 0 < old(self).category_order@.len() ==> r == Some(0usize)
                && final(self).category_order@ == old(self).category_order@,
            0 < move_idx < old(self).category_order@.len() ==> r == Some((move_idx - 1) as usize)
                && final(self).category_order@ == swap_spec(old(self).category_order@, move_idx - 1, move_idx as int),
    {
        let cat_count = self.category_order.len();
        if move_idx >= cat_count {
            None
        } else if move_idx == 0 {
            Some(0)
        } else {
            self.swap_order(move_idx, move_idx - 1);
            Some(move_idx - 1)
        }
    }

    /// Moves the category at `move_idx` one place towards the back. Returns
    /// its new position, or `None` if the index is out of range.
    pub fn reorder_category_backwards(&mut self, move_idx: usize) -> (r: Option<usize>)
        requires
            old(self).wf(),
        ensures
            final(self).wf(),
            final(self).books@ == old(self).books@,
            final(self).default_category_name == old(self).default_category_name,
            move_idx >= old(self).category_order@.len() ==> r is None
                && final(self).category_order@ == old(self).category_order@,
            move_idx + 1 == old(self).category_order@.len() ==> r == Some(move_idx)
                && final(self).category_order@ == old(self).category_order@,
            move_idx + 1 < old(self).category_order@.len() ==> r == Some((move_idx + 1) as usize)
                && final(self).category_order@ == swap_spec(old(self).category_order@, move_idx as int, move_idx + 1),
    {
        let cat_count = self.category_order.len();
        if move_idx >= cat_count {
            None
        } else if move_idx == cat_count - 1 {
            Some(move_idx)
        } else {
            self.swap_order(move_idx, move_idx + 1);
            Some(move_idx + 1)
        }
    }

    fn swap_order(&mut self, a: usize, b: usize)
        requires
            old(self).wf(),
            a < old(self).category_order@.len(),
            b < old(self).category_order@.len(),
        ensures
            final(self).wf(),
            final(self).books@ == old(self).books@,
            final(self).default_category_name == old(self).default_category_name,
            final(self).category_order@ == swap_spec(old(self).category_order@, a as int, b as int),
            final(self).category_order@ == swap_spec(old(self).category_order@, b as int, a as int),
    {
        let x = self.category_order[a].clone();
        let y = self.category_order[b].clone();
        self.category_order.set(a, y);
        self.category_order.set(b, x);
        proof {
            let o = old(self).category_order@;
            let s = self.category_order@;
            assert(s =~= swap_spec(o, a as int, b as int));
            assert(s =~= swap_spec(o, b as int, a as int));
            assert forall|i: int| 0 <= i < s.len() implies self.has_category((#[trigger] s[i])@) by {
                let k = if i == a { b as int } else if i == b { a as int } else { i };
                assert(s[i] == o[k]);
                assert(old(self).has_category(o[k]@));
            }
            assert forall|i: int| 0 <= i < self.books@.len() implies self.in_order((#[trigger] self.books@[i]).0@) by {
                assert(old(self).in_order(old(self).books@[i].0@));
                let d = choose|d: int| 0 <= d < o.len() && (#[trigger] o[d])@ == old(self).books@[i].0@;
                let k = if d == a { b as int } else if d == b { a as int } else { d };
                assert(s[k] == o[d]);
            }
            assert forall|i: int, j: int|
                0 <= i < s.len() && 0 <= j < s.len() && i != j implies (#[trigger] s[i])@ != (#[trigger] s[j])@ by {
                let ki = if i == a { b as int } else if i == b { a as int } else { i };
                let kj = if j == a { b as int } else if j == b { a as int } else { j };
                assert(s[i] == o[ki] && s[j] == o[kj]);
            }
        }
    }
}

impl LibraryContext {
    /// The categories as a map from name to books.
    pub open spec fn lists(self) -> Map<Seq<char>, Seq<BookRef>> {
        Map::new(|n: Seq<char>| self.has_category(n), |n: Seq<char>| self.category(n))
    }

    /// The display order as names.
    pub open spec fn order_names(self) -> Seq<Seq<char>> {
        self.category_order@.map_values(|s: String| s@)
    }

    /// Deletes a category and moves its books to the end of the default
    /// category, clearing their category. The default category cannot be
    /// deleted (`InvalidChoice`); a name that is no category changes nothing.
    pub fn delete_category(&mut self, name: String, store: &mut BooksContext) -> (r: Result<(), TRError>)
        requires
            old(self).wf(),
            old(store).wf(),
        ensures
            final(self).wf(),
            final(store).wf(),
            name@ == old(self).default_category_name@ ==> (r matches Err(TRError::InvalidChoice(m))
                && m@ == "the default category cannot be deleted"@)
                && final(self).lists() == old(self).lists()
                && final(self).order_names() == old(self).order_names()
                && final(store).books@ == old(store).books@,
            name@ != old(self).default_category_name@ ==> r is Ok
                && final(self).default_category_name == old(self).default_category_name,
            name@ != old(self).default_category_name@ && !old(self).has_category(name@)
                ==> final(self).lists() == old(self).lists()
                && final(self).order_names() == old(self).order_names()
                && final(store).books@ == old(store).books@,
            name@ != old(self).default_category_name@ && old(self).has_category(name@) ==> {
                &&& final(self).lists() == old(self).lists().remove(name@).insert(
                    old(self).default_category_name@,
                    old(self).category(old(self).default_category_name@) + old(self).category(name@),
                )
                &&& final(self).order_names() == without(old(self).order_names(), name@)
                &&& final(store).categories_cleared(*old(store), old(self).category(name@))
            },
    {
        if string_eq(self.default_category_name.as_str(), name.as_str()) {
            return Err(TRError::InvalidChoice(String::from_str("the default category cannot be deleted")));
        }
        let found = self.find_category(name.as_str());
        if found.is_none() {
            return Ok(());
        }
        let i = found.unwrap();
        let ghost o = *self;
        let (_, mut moved) = self.books.remove(i);
        let ghost moved_list = moved@;
        store.clear_categories(&moved);
        let ghost b1 = self.books@;
        proof {
            assert(moved_list == o.category(name@));
            lemma_names_after_remove(o, i as int);
        }
        let d = self.find_default_after_remove(Ghost(o), Ghost(i as int));
        self.books[d].1.append(&mut moved);
        // the display order loses the name
        let mut j: usize = 0;
        let olen = self.category_order.len();
        while j < olen
            invariant
                olen == self.category_order@.len(),
                self.category_order@ == o.category_order@,
                j <= olen,
                forall|k: int| 0 <= k < j ==> (#[trigger] self.category_order@[k])@ != name@,
            ensures
                j <= olen,
                j < olen ==> self.category_order@[j as int]@ == name@,
                forall|k: int| 0 <= k < j ==> (#[trigger] self.category_order@[k])@ != name@,
            decreases olen - j,
        {
            if string_eq(self.category_order[j].as_str(), name.as_str()) {
                break;
            }
            j = j + 1;
        }
        proof {
            assert(o.in_order(name@)) by {
                assert(o.books@[i as int].0@ == name@);
            }
            assert(j < olen) by {
                let w = choose|w: int| 0 <= w < o.category_order@.len() && (#[trigger] o.category_order@[w])@ == name@;
                if j >= olen {
                    assert(o.category_order@[w]@ != name@);
                }
            }
        }
        self.category_order.remove(j);
        proof {
            lemma_delete_result(o, *self, name@, i as int, d as int, j as int, moved_list);
        }
        Ok(())
    }

    /// Renames a category, in the display order too; the default category
    /// keeps being the default. A new name in use gives `Duplicate`; an old
    /// name that is no category changes nothing.
    pub fn rename_category(&mut self, old_name: String, new_name: String) -> (r: Result<(), TRError>)
        requires
            old(self).wf(),
        ensures
            final(self).wf(),
            old(self).has_category(new_name@) ==> r == Err::<(), TRError>(TRError::Duplicate)
                && final(self).lists() == old(self).lists()
                && final(self).order_names() == old(self).order_names()
                && final(self).default_category_name == old(self).default_category_name,
            !old(self).has_category(new_name@) ==> r is Ok,
            !old(self).has_category(new_name@) && !old(self).has_category(old_name@)
                ==> final(self).lists() == old(self).lists()
                && final(self).order_names() == old(self).order_names()
                && final(self).default_category_name == old(self).default_category_name,
            !old(self).has_category(new_name@) && old(self).has_category(old_name@) ==> {
                &&& final(self).lists() == old(self).lists().remove(old_name@).insert(
                    new_name@,
                    old(self).category(old_name@),
                )
                &&& final(self).order_names() == renamed(old(self).order_names(), old_name@, new_name@)
                &&& final(self).default_category_name@ == (if old(self).default_category_name@ == old_name@ {
                    new_name@
                } else {
                    old(self).default_category_name@
                })
            },
    {
        if self.find_category(new_name.as_str()).is_some() {
            return Err(TRError::Duplicate);
        }
        let found = self.find_category(old_name.as_str());
        if found.is_none() {
            return Ok(());
        }
        let i = found.unwrap();
        let ghost o = *self;
        self.books[i].0 = new_name.clone();
        if string_eq(self.default_category_name.as_str(), old_name.as_str()) {
            self.default_category_name = new_name.clone();
        }
        let ghost b_after = self.books@;
        let ghost d_after = self.default_category_name;
        let n = self.category_order.len();
        let mut j: usize = 0;
        while j < n
            invariant
                self.books@ == b_after,
                self.default_category_name == d_after,
                n == self.category_order@.len(),
                n == o.category_order@.len(),
                j <= n,
                forall|k: int| 0 <= k < j ==> (#[trigger] self.category_order@[k])@ == (if o.category_order@[k]@
                    == old_name@ {
                    new_name@
                } else {
                    o.category_order@[k]@
                }),
                forall|k: int| j <= k < n ==> #[trigger] self.category_order@[k] == o.category_order@[k],
            decreases n - j,
        {
            if string_eq(self.category_order[j].as_str(), old_name.as_str()) {
                self.category_order.set(j, new_name.clone());
            }
            j = j + 1;
        }
        proof {
            lemma_rename_result(o, *self, old_name@, new_name@, i as int);
        }
        Ok(())
    }

    /// After the category at `i` (not the default) is taken out, finds where the default now is.
    #[verifier::loop_isolation(false)]
    fn find_default_after_remove(&self, o: Ghost<LibraryContext>, i: Ghost<int>) -> (d: usize)
        requires
            o@.wf(),
            0 <= i@ < o@.books@.len(),
            o@.books@[i@].0@ != o@.default_category_name@,
            self.books@ == o@.books@.remove(i@),
            self.default_category_name == o@.default_category_name,
        ensures
            d < self.books@.len(),
            self.books@[d as int].0@ == self.default_category_name@,
            d as int == (if o@.cat_index(o@.default_category_name@) < i@ {
                o@.cat_index(o@.default_category_name@)
            } else {
                o@.cat_index(o@.default_category_name@) - 1
            }),
    {
        let ghost od = o@.cat_index(o@.default_category_name@);
        let ghost e = if od < i@ { od } else { od - 1 };
        proof {
            assert(self.books@[e].0@ == self.default_category_name@);
        }
        let mut d: usize = 0;
        while d < self.books.len()
            invariant
                d <= self.books@.len(),
                0 <= e < self.books@.len(),
                self.books@[e].0@ == self.default_category_name@,
                forall|k: int| 0 <= k < d ==> (#[trigger] self.books@[k]).0@ != self.default_category_name@,
            decreases self.books@.len() - d,
        {
            if string_eq(self.books[d].0.as_str(), self.default_category_name.as_str()) {
                proof {
                    if d as int != e {
                        let a = if d < i@ { d as int } else { d + 1 };
                        let b = if e < i@ { e } else { e + 1 };
                        assert(o@.books@[a] == self.books@[d as int]);
                        assert(o@.books@[b] == self.books@[e]);
                        assert(a != b);
                    }
                }
                return d;
            }
            d = d + 1;
        }
        proof {
            assert(self.books@[e].0@ != self.default_category_name@);
        }
        0
    }
}

/// Taking out the category at `i` leaves the other names, in order.
pub proof fn lemma_names_after_remove(o: LibraryContext, i: int)
    requires
        o.wf(),
        0 <= i < o.books@.len(),
    ensures
        forall|k: int|
            0 <= k < o.books@.len() - 1 ==> #[trigger] o.books@.remove(i)[k] == o.books@[if k < i {
                k
            } else {
                k + 1
            }],
{
}

/// What `delete_category` leaves: the map and order it promises.
proof fn lemma_delete_result(
    o: LibraryContext,
    f: LibraryContext,
    name: Seq<char>,
    i: int,
    d: int,
    j: int,
    moved: Seq<BookRef>,
)
    requires
        o.wf(),
        0 <= i < o.books@.len(),
        o.books@[i].0@ == name,
        name != o.default_category_name@,
        moved == o.books@[i].1@,
        0 <= d < o.books@.len() - 1,
        d == (if o.cat_index(o.default_category_name@) < i {
            o.cat_index(o.default_category_name@)
        } else {
            o.cat_index(o.default_category_name@) - 1
        }),
        f.books@.len() == o.books@.len() - 1,
        forall|k: int|
            0 <= k < f.books@.len() && k != d ==> #[trigger] f.books@[k] == o.books@[if k < i {
                k
            } else {
                k + 1
            }],
        f.books@[d].0 == o.books@.remove(i)[d].0,
        f.books@[d].1@ == o.books@.remove(i)[d].1@ + moved,
        f.default_category_name == o.default_category_name,
        0 <= j < o.category_order@.len(),
        o.category_order@[j]@ == name,
        f.category_order@ == o.category_order@.remove(j),
    ensures
        f.wf(),
        f.lists() == o.lists().remove(name).insert(
            o.default_category_name@,
            o.category(o.default_category_name@) + o.category(name),
        ),
        f.order_names() == without(o.order_names(), name),
{
    let od = o.cat_index(o.default_category_name@);
    o.lemma_cat_index(name, i);
    o.lemma_cat_index(o.default_category_name@, od);
    // index in `o` of the entry at `k` in `f`
    assert forall|k: int| 0 <= k < f.books@.len() implies #[trigger] f.books@[k].0 == o.books@[if k < i {
        k
    } else {
        k + 1
    }].0 by {
        if k == d {
            lemma_names_after_remove(o, i);
        }
    }
    // names stay unique
    assert forall|a: int, b: int|
        0 <= a < f.books@.len() && 0 <= b < f.books@.len() && a != b
            implies (#[trigger] f.books@[a]).0@ != (#[trigger] f.books@[b]).0@ by {
        let oa = if a < i { a } else { a + 1 };
        let ob = if b < i { b } else { b + 1 };
        assert(f.books@[a].0 == o.books@[oa].0);
        assert(f.books@[b].0 == o.books@[ob].0);
    }
    assert(f.books@[d].0@ == o.default_category_name@) by {
        lemma_names_after_remove(o, i);
    }
    // the order loses the name
    let oo = o.category_order@;
    let fo = f.category_order@;
    assert forall|a: int, b: int|
        0 <= a < fo.len() && 0 <= b < fo.len() && a != b implies (#[trigger] fo[a])@ != (#[trigger] fo[b])@ by {
        let oa = if a < j { a } else { a + 1 };
        let ob = if b < j { b } else { b + 1 };
        assert(fo[a] == oo[oa] && fo[b] == oo[ob]);
    }
    assert forall|a: int| 0 <= a < fo.len() implies f.has_category((#[trigger] fo[a])@) by {
        let oa = if a < j { a } else { a + 1 };
        assert(fo[a] == oo[oa]);
        assert(o.has_category(oo[oa]@));
        let k = o.cat_index(oo[oa]@);
        assert(oo[oa]@ != name);
        assert(k != i);
        let fk = if k < i { k } else { k - 1 };
        assert(f.books@[fk].0 == o.books@[k].0);
    }
    assert forall|a: int| 0 <= a < f.books@.len() implies f.in_order((#[trigger] f.books@[a]).0@) by {
        let oa = if a < i { a } else { a + 1 };
        assert(f.books@[a].0 == o.books@[oa].0);
        assert(o.in_order(o.books@[oa].0@));
        let w = choose|w: int| 0 <= w < oo.len() && (#[trigger] oo[w])@ == o.books@[oa].0@;
        assert(w != j) by {
            if w == j {
                assert(o.books@[oa].0@ == name);
            }
        }
        let fw = if w < j { w } else { w - 1 };
        assert(fo[fw] == oo[w]);
    }
    assert(f.has_category(f.default_category_name@)) by {
        assert(f.books@[d].0@ == f.default_category_name@);
    }
    assert(f.wf());
    // the map
    let expected = o.lists().remove(name).insert(
        o.default_category_name@,
        o.category(o.default_category_name@) + o.category(name),
    );
    assert forall|n: Seq<char>| #![auto] f.lists().contains_key(n) == expected.contains_key(n) by {
        if f.has_category(n) {
            let k = f.cat_index(n);
            let ok = if k < i { k } else { k + 1 };
            assert(f.books@[k].0 == o.books@[ok].0);
            assert(o.has_category(n));
            assert(n != name);
        }
        if expected.contains_key(n) {
            if n == o.default_category_name@ {
                assert(f.books@[d].0@ == n);
            } else {
                let k = o.cat_index(n);
                assert(k != i);
                let fk = if k < i { k } else { k - 1 };
                assert(f.books@[fk].0 == o.books@[k].0);
            }
        }
    }
    assert forall|n: Seq<char>| #![auto] f.lists().contains_key(n) implies f.lists()[n] == expected[n] by {
        let k = f.cat_index(n);
        f.lemma_cat_index(n, k);
        let ok = if k < i { k } else { k + 1 };
        assert(f.books@[k].0 == o.books@[ok].0);
        o.lemma_cat_index(n, ok);
        if k == d {
            lemma_names_after_remove(o, i);
            assert(n == o.default_category_name@);
        } else {
            assert(n != o.default_category_name@) by {
                if n == o.default_category_name@ {
                    f.lemma_cat_index(n, d);
                }
            }
        }
    }
    assert(f.lists() =~= expected);
    // the order as names
    lemma_filter_remove_unique(oo.map_values(|s: String| s@), j, name);
    assert(fo.map_values(|s: String| s@) =~= oo.map_values(|s: String| s@).remove(j));
}

/// `s` without the elements equal to `x`.
pub open spec fn without(s: Seq<Seq<char>>, x: Seq<char>) -> Seq<Seq<char>> {
    s.filter(|n: Seq<char>| n != x)
}

/// In a sequence without repeats, filtering out the element at `j` removes it.
pub proof fn lemma_filter_remove_unique(s: Seq<Seq<char>>, j: int, x: Seq<char>)
    requires
        0 <= j < s.len(),
        s[j] == x,
        forall|a: int, b: int| 0 <= a < s.len() && 0 <= b < s.len() && a != b ==> s[a] != s[b],
    ensures
        without(s, x) == s.remove(j),
    decreases s.len(),
{
    reveal_with_fuel(Seq::<_>::filter, 1);
    let t = s.drop_last();
    if j == s.len() - 1 {
        assert forall|a: int| 0 <= a < t.len() implies t[a] != x by {
            assert(t[a] == s[a]);
        }
        lemma_filter_none(t, x);
        assert(s.remove(j) =~= t);
    } else {
        assert(t[j] == x);
        assert forall|a: int, b: int| 0 <= a < t.len() && 0 <= b < t.len() && a != b implies t[a] != t[b] by {
            assert(t[a] == s[a] && t[b] == s[b]);
        }
        lemma_filter_remove_unique(t, j, x);
        assert(s.last() != x) by {
            assert(s[s.len() - 1] == s.last());
        }
        assert(t.remove(j).push(s.last()) =~= s.remove(j));
    }
}

/// Filtering out an element that is not there changes nothing.
pub proof fn lemma_filter_none(s: Seq<Seq<char>>, x: Seq<char>)
    requires
        forall|a: int| 0 <= a < s.len() ==> s[a] != x,
    ensures
        without(s, x) == s,
    decreases s.len(),
{
    reveal_with_fuel(Seq::<_>::filter, 1);
    if s.len() > 0 {
        let t = s.drop_last();
        assert forall|a: int| 0 <= a < t.len() implies t[a] != x by {
            assert(t[a] == s[a]);
        }
        lemma_filter_none(t, x);
        assert(s.last() != x) by {
            assert(s[s.len() - 1] == s.last());
        }
        assert(t.push(s.last()) =~= s);
    }
}

/// `s` with every `old` replaced by `new`.
pub open spec fn renamed(s: Seq<Seq<char>>, old: Seq<char>, new: Seq<char>) -> Seq<Seq<char>> {
    s.map_values(|n: Seq<char>| if n == old { new } else { n })
}

/// What `rename_category` leaves: the map and order it promises.
proof fn lemma_rename_result(o: LibraryContext, f: LibraryContext, old: Seq<char>, new: Seq<char>, i: int)
    requires
        o.wf(),
        !o.has_category(new),
        0 <= i < o.books@.len(),
        o.books@[i].0@ == old,
        f.books@.len() == o.books@.len(),
        f.books@[i].0@ == new,
        f.books@[i].1 == o.books@[i].1,
        forall|k: int| 0 <= k < f.books@.len() && k != i ==> #[trigger] f.books@[k] == o.books@[k],
        f.default_category_name@ == (if o.default_category_name@ == old {
            new
        } else {
            o.default_category_name@
        }),
        f.category_order@.len() == o.category_order@.len(),
        forall|k: int|
            0 <= k < f.category_order@.len() ==> (#[trigger] f.category_order@[k])@ == (if o.category_order@[k]@
                == old {
                new
            } else {
                o.category_order@[k]@
            }),
    ensures
        f.wf(),
        f.lists() == o.lists().remove(old).insert(new, o.category(old)),
        f.order_names() == renamed(o.order_names(), old, new),
{
    o.lemma_cat_index(old, i);
    let name_map = |n: Seq<char>| if n == old { new } else { n };
    assert forall|k: int| 0 <= k < f.books@.len() implies (#[trigger] f.books@[k]).0@ == name_map(o.books@[k].0@) by {
        if k != i {
            assert(f.books@[k] == o.books@[k]);
            assert(o.books@[k].0@ != old);
        }
    }
    assert forall|a: int, b: int|
        0 <= a < f.books@.len() && 0 <= b < f.books@.len() && a != b
            implies (#[trigger] f.books@[a]).0@ != (#[trigger] f.books@[b]).0@ by {
        assert(f.books@[a].0@ == name_map(o.books@[a].0@));
        assert(f.books@[b].0@ == name_map(o.books@[b].0@));
        assert(o.books@[a].0@ != o.books@[b].0@);
        if a != i && b != i {
        } else if a == i {
            assert(o.books@[b].0@ != new) by {
                if o.books@[b].0@ == new {
                    assert(o.has_category(new));
                }
            }
        } else {
            assert(o.books@[a].0@ != new) by {
                if o.books@[a].0@ == new {
                    assert(o.has_category(new));
                }
            }
        }
    }
    // a name is a category of `f` exactly when its old name was one of `o`
    assert forall|n: Seq<char>| #![auto] o.has_category(n) implies f.has_category(name_map(n)) by {
        let k = o.cat_index(n);
        assert(f.books@[k].0@ == name_map(o.books@[k].0@));
    }
    let oo = o.category_order@;
    let fo = f.category_order@;
    assert forall|a: int, b: int|
        0 <= a < fo.len() && 0 <= b < fo.len() && a != b implies (#[trigger] fo[a])@ != (#[trigger] fo[b])@ by {
        assert(oo[a]@ != oo[b]@);
        assert(o.has_category(oo[a]@));
        assert(o.has_category(oo[b]@));
    }
    assert forall|a: int| 0 <= a < fo.len() implies f.has_category((#[trigger] fo[a])@) by {
        assert(o.has_category(oo[a]@));
        assert(fo[a]@ == name_map(oo[a]@));
    }
    assert forall|a: int| 0 <= a < f.books@.len() implies f.in_order((#[trigger] f.books@[a]).0@) by {
        assert(o.in_order(o.books@[a].0@));
        let w = choose|w: int| 0 <= w < oo.len() && (#[trigger] oo[w])@ == o.books@[a].0@;
        assert(fo[w]@ == name_map(oo[w]@));
        assert(f.books@[a].0@ == name_map(o.books@[a].0@));
    }
    assert(f.has_category(f.default_category_name@)) by {
        assert(o.has_category(o.default_category_name@));
    }
    assert(f.wf());
    let expected = o.lists().remove(old).insert(new, o.category(old));
    assert forall|n: Seq<char>| #![auto] f.lists().contains_key(n) == expected.contains_key(n) by {
        if f.has_category(n) {
            let k = f.cat_index(n);
            assert(f.books@[k].0@ == name_map(o.books@[k].0@));
            if k != i {
                assert(o.books@[k].0@ == n);
                assert(o.has_category(n));
            }
        }
        if expected.contains_key(n) && n != new {
            assert(o.has_category(n));
            assert(n != old);
        }
        if n == new {
            assert(f.books@[i].0@ == new);
        }
    }
    assert forall|n: Seq<char>| #![auto] f.lists().contains_key(n) implies f.lists()[n] == expected[n] by {
        let k = f.cat_index(n);
        f.lemma_cat_index(n, k);
        if k == i {
            assert(n == new);
        } else {
            assert(f.books@[k] == o.books@[k]);
            assert(o.books@[k].0@ != old);
            o.lemma_cat_index(n, k);
            assert(n != new);
        }
    }
    assert(f.lists() =~= expected);
    assert(f.order_names() =~= renamed(o.order_names(), old, new));
}

/// Replacing the books of the category at `k` keeps the library well formed and
/// changes only that category.
pub proof fn lemma_lists_update(o: LibraryContext, f: LibraryContext, k: int)
    requires
        o.wf(),
        0 <= k < o.books@.len(),
        f.books@.len() == o.books@.len(),
        f.books@[k].0 == o.books@[k].0,
        forall|j: int| 0 <= j < f.books@.len() && j != k ==> #[trigger] f.books@[j] == o.books@[j],
        f.default_category_name == o.default_category_name,
        f.category_order@ == o.category_order@,
    ensures
        f.wf(),
        f.lists() == o.lists().insert(o.books@[k].0@, f.books@[k].1@),
        f.order_names() == o.order_names(),
{
    assert forall|j: int| 0 <= j < f.books@.len() implies (#[trigger] f.books@[j]).0 == o.books@[j].0 by {}
    assert forall|a: int, b: int|
        0 <= a < f.books@.len() && 0 <= b < f.books@.len() && a != b
            implies (#[trigger] f.books@[a]).0@ != (#[trigger] f.books@[b]).0@ by {
        assert(f.books@[a].0 == o.books@[a].0 && f.books@[b].0 == o.books@[b].0);
    }
    assert forall|n: Seq<char>| o.has_category(n) <==> f.has_category(n) by {
        if o.has_category(n) {
            let i = o.cat_index(n);
            assert(f.books@[i].0 == o.books@[i].0);
        }
        if f.has_category(n) {
            let i = f.cat_index(n);
            assert(f.books@[i].0 == o.books@[i].0);
        }
    }
    assert forall|i: int| 0 <= i < f.books@.len() implies f.in_order((#[trigger] f.books@[i]).0@) by {
        assert(f.books@[i].0 == o.books@[i].0);
        assert(o.in_order(o.books@[i].0@));
    }
    assert forall|i: int| 0 <= i < f.category_order@.len() implies f.has_category((#[trigger] f.category_order@[i])@) by {
        assert(o.has_category(o.category_order@[i]@));
    }
    assert(f.wf());
    let expected = o.lists().insert(o.books@[k].0@, f.books@[k].1@);
    assert forall|n: Seq<char>| #![auto] f.lists().contains_key(n) implies f.lists()[n] == expected[n] by {
        let i = f.cat_index(n);
        f.lemma_cat_index(n, i);
        assert(f.books@[i].0 == o.books@[i].0);
        o.lemma_cat_index(n, i);
    }
    assert(f.lists() =~= expected);
}

/// `remove_first` on every category, as a map.
pub open spec fn lists_without(m: Map<Seq<char>, Seq<BookRef>>, id: ID) -> Map<Seq<char>, Seq<BookRef>> {
    m.map_values(|l: Seq<BookRef>| remove_first(l, id))
}

/// `s` with the elements at `a` and `b` exchanged.
pub open spec fn swap_spec<T>(s: Seq<T>, a: int, b: int) -> Seq<T> {
    s.update(a, s[b]).update(b, s[a])
}

} // verus!
