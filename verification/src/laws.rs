//! What holds of the library across its operations: what one call undoes of
//! another, and what every call keeps.

use vstd::prelude::*;

use crate::catalog::books_context::BookRef;
use crate::catalog::context::{Context, SavedContext};
use crate::catalog::id::ID;
use crate::catalog::context::push_to;
use crate::reader::local_buffer::{
    front_from, lines_available, spec_add_back, spec_add_front, spec_remove_back, spec_remove_front,
    spec_surround, surround_bounds, BufState,
};
use crate::reader::portion::prev_break;
use crate::reader::wrap::{
    bw_piece, bw_text, fw_breaks, fw_char, fw_kind, fw_ok, fw_text, has_space, last_ws, lemma_first_ws, lemma_last_ws,
    rest_from,
};
use crate::scrape::dates::{ymd_text, zero_pad};
use crate::strs::{
    all_digits, decimal_value, digit_value, is_digit, lemma_split_nonempty, parse_usize_spec, sign_stripped,
    split_spec,
};
use crate::text::{
    decimal, digit_char, leading_ws, lemma_leading_ws_bound, lemma_trailing_ws_bound, trailing_ws,
    trim_spec, unicode_whitespace,
};
use crate::catalog::library::{
    lemma_remove_first_absent, lemma_remove_first_at, lists_without, remove_first, renamed,
    swap_spec, without, LibraryContext,
};

use crate::state::library::LibBookInfo;
use crate::state::library_data::{
    first_book_at, first_name, first_name_at, holds_book, lists_name, pushed, without_book, LibraryData,
    ListView,
};
use crate::state::lists::{next_index, previous_index, ListSelection};
use crate::state::menu::views;
use crate::state::app::screen_step;
use crate::state::screen::CurrentScreen;
use crate::state::controls::{history_selection, Key};
use crate::state::app::AppState;
use crate::scrape::madara::details_fold;
use crate::scrape::query::first_trimmed;
use crate::sources::novel::NovelStatus;
use crate::strs::contains_spec;
use crate::reader::wrap::{bw_char, first_ws};
use crate::state::history::{lemma_last_same, last_same, HistoryEntry};
use crate::state::same::{lemma_same_book_equivalence, same_book};

verus! {

/// Moving a category one place forwards (from `i` to `i - 1`) and then one
/// place backwards (from `i - 1` to `i`) gives back the order.
pub proof fn law_reorder_round_trip<T>(order: Seq<T>, i: int)
    requires
        0 < i < order.len(),
    ensures
        swap_spec(swap_spec(order, i - 1, i), i - 1, i) == order,
{
    assert(swap_spec(swap_spec(order, i - 1, i), i - 1, i) =~= order);
}

/// Renaming a category and renaming it back gives back the categories and
/// their order.
pub proof fn law_rename_round_trip(lib: LibraryContext, old: Seq<char>, new: Seq<char>)
    requires
        lib.wf(),
        lib.has_category(old),
        !lib.has_category(new),
    ensures
        ({
            let m = lib.lists();
            let m1 = m.remove(old).insert(new, m[old]);
            m1.remove(new).insert(old, m1[new]) == m
        }),
        renamed(renamed(lib.order_names(), old, new), new, old) == lib.order_names(),
{
    let m = lib.lists();
    let m1 = m.remove(old).insert(new, m[old]);
    assert(m1.remove(new).insert(old, m1[new]) =~= m);
    let o = lib.order_names();
    assert forall|k: int| 0 <= k < o.len() implies #[trigger] o[k] != new by {
        assert(lib.has_category(lib.category_order@[k]@));
    }
    assert(renamed(renamed(o, old, new), new, old) =~= o);
}

/// Creating a category and deleting it again gives back the categories (the
/// default one gains the new category's books, which are none) and their
/// order.
pub proof fn law_create_delete_round_trip(lib: LibraryContext, name: Seq<char>)
    requires
        lib.wf(),
        !lib.has_category(name),
    ensures
        ({
            let d = lib.default_category_name@;
            let m1 = lib.lists().insert(name, Seq::<BookRef>::empty());
            m1.remove(name).insert(d, m1[d] + m1[name]) == lib.lists()
        }),
        without(lib.order_names().push(name), name) == lib.order_names(),
{
    let d = lib.default_category_name@;
    let m = lib.lists();
    let m1 = m.insert(name, Seq::<BookRef>::empty());
    assert(m.dom().contains(d));
    assert(d != name);
    assert(m1[d] + m1[name] =~= m[d]);
    assert(m1.remove(name).insert(d, m1[d] + m1[name]) =~= m);
    let o = lib.order_names();
    assert forall|k: int| 0 <= k < o.len() implies #[trigger] o[k] != name by {
        assert(lib.has_category(lib.category_order@[k]@));
    }
    crate::catalog::library::lemma_filter_none(o, name);
    crate::catalog::library::lemma_filter_remove_unique(o.push(name), o.len() as int, name);
    assert(o.push(name).remove(o.len() as int) =~= o);
}

/// Adding a book that is in no category to the library (with no category
/// named, so to the default one) and then taking it out of the library gives
/// back the categories.
pub proof fn law_add_remove_round_trip(lib: LibraryContext, id: ID)
    requires
        lib.wf(),
        forall|n: Seq<char>, j: int| lib.has_category(n) && 0 <= j < lib.category(n).len()
            ==> (#[trigger] lib.category(n)[j]).id != id,
    ensures
        lists_without(push_to(lib, lib.default_category_name@, id), id) == lib.lists(),
{
    let lists = lib.lists();
    let name = lib.default_category_name@;
    let m1 = push_to(lib, name, id);
    assert forall|n: Seq<char>| #[trigger] m1.contains_key(n) implies remove_first(m1[n], id) == lists[n] by {
        if n == name {
            let s = lists[name].push(BookRef { id });
            assert forall|j: int| 0 <= j < lists[name].len() implies (#[trigger] s[j]).id != id by {
                assert(s[j] == lists[name][j]);
                assert(lib.category(name)[j].id != id);
            }
            lemma_remove_first_at(s, id, lists[name].len() as int);
            assert(s.remove(lists[name].len() as int) =~= lists[name]);
        } else {
            assert forall|j: int| 0 <= j < lists[n].len() implies (#[trigger] lists[n][j]).id != id by {
                assert(lib.category(n)[j].id != id);
            }
            lemma_remove_first_absent(lists[n], id);
        }
    }
    assert(lists_without(m1, id) =~= lists);
}

/// The break found before position `e` is the greatest recorded break at
/// least two characters before `e`; none is found when there is no such break.
pub proof fn law_previous_break_is_greatest(bs: Seq<usize>, e: int)
    ensures
        prev_break(bs, e) matches Some(x) ==> bs.contains(x) && x + 1 < e
            && forall|j: int| 0 <= j < bs.len() && bs[j] + 1 < e ==> bs[j] <= x,
        prev_break(bs, e) is None ==> forall|j: int| 0 <= j < bs.len() ==> bs[j] + 1 >= e,
    decreases bs.len(),
{
    if bs.len() > 0 {
        let t = bs.drop_last();
        law_previous_break_is_greatest(t, e);
        assert forall|j: int| 0 <= j < t.len() implies t[j] == bs[j] by {}
        if prev_break(bs, e) is Some {
            match prev_break(t, e) {
                Some(r) => {
                    assert(t.contains(r));
                    let k = choose|k: int| 0 <= k < t.len() && t[k] == r;
                    assert(bs[k] == r);
                },
                None => {},
            }
            assert(bs[bs.len() - 1] == bs.last());
        }
    }
}

/// A break recorded going forwards is found again going backwards from any
/// position at least two characters after it: the break found is at or
/// after it.
pub proof fn law_recorded_break_found(bs: Seq<usize>, c: usize, e: int)
    requires
        c + 1 < e,
    ensures
        prev_break(bs.push(c), e) matches Some(x) && c <= x && x + 1 < e,
{
    let s = bs.push(c);
    assert(s.drop_last() =~= bs);
    law_previous_break_is_greatest(s, e);
    assert(s[s.len() - 1] == c);
}

/// A display line cut going forwards fits the width.
pub proof fn law_forward_piece_fits(c: Seq<char>, s1: int, w: int)
    requires
        w >= 1,
    ensures
        fw_text(c, s1, w).len() <= w,
{
    let rest = rest_from(c, s1);
    if rest.len() > w && has_space(rest.take(w + 1)) && !unicode_whitespace(rest[w]) {
        lemma_last_ws(rest, w);
    }
}

/// A forward cut of a line whose rest from `s1` starts with a character that
/// is not whitespace, at a width of at least 2, gives a piece: it ends at or
/// after `s1` and fits the width; when the rest fits it is the whole rest,
/// ending at its last character, and no break is recorded; when it does not,
/// a break is recorded at its end.
pub proof fn law_forward_cut(c: Seq<char>, s1: int, w: int)
    requires
        0 <= s1 < c.len(),
        !unicode_whitespace(c[s1]),
        w >= 2,
    ensures
        fw_kind(c, s1, w) == 2,
        fw_ok(c, s1, w),
        fw_char(c, s1, w) >= s1,
        fw_text(c, s1, w).len() <= w,
        rest_from(c, s1).len() <= w ==> fw_text(c, s1, w) == rest_from(c, s1) && fw_char(c, s1, w) == s1
            + rest_from(c, s1).len() - 1 && !fw_breaks(c, s1, w),
        rest_from(c, s1).len() > w ==> fw_breaks(c, s1, w),
{
    let rest = rest_from(c, s1);
    assert(rest[0] == c[s1]);
    assert(!crate::reader::wrap::all_ws(rest));
    law_forward_piece_fits(c, s1, w);
    if rest.len() > w && has_space(rest.take(w + 1)) && !unicode_whitespace(rest[w]) {
        lemma_last_ws(rest, w);
        let t = rest.take(w + 1);
        let j = choose|j: int| 0 <= j < t.len() && #[trigger] t[j] == ' ';
        assert(rest[j] == ' ');
        if last_ws(rest, w) < 1 {
            assert(j < w);
            assert(!unicode_whitespace(rest[j]));
        }
    }
}

/// A display line cut going backwards fits the width.
pub proof fn law_backward_piece_fits(c: Seq<char>, e: int, pb: Option<usize>, w: int)
    requires
        w >= 1,
    ensures
        bw_text(c, e, pb, w).len() <= w,
{
    let line = bw_piece(c, e, pb);
    let l = line.len() as int;
    if l > w && has_space(line.skip(l - (w + 1))) && !unicode_whitespace(line[l - (w + 1)]) {
        lemma_first_ws(line, l - w);
    }
}

/// The pieces of a text joined with `c` between them.
pub open spec fn join_spec(parts: Seq<Seq<char>>, c: char) -> Seq<char>
    decreases parts.len(),
{
    if parts.len() == 0 {
        Seq::empty()
    } else if parts.len() == 1 {
        parts[0]
    } else {
        join_spec(parts.drop_last(), c).push(c) + parts.last()
    }
}

proof fn lemma_join_extend_last(p: Seq<Seq<char>>, c: char, x: char)
    requires
        p.len() >= 1,
    ensures
        join_spec(p.update(p.len() - 1, p.last().push(x)), c) == join_spec(p, c).push(x),
{
    let q = p.update(p.len() - 1, p.last().push(x));
    if p.len() == 1 {
    } else {
        assert(q.drop_last() =~= p.drop_last());
        assert(join_spec(q, c) =~= join_spec(p, c).push(x));
    }
}

/// Splitting a text at a character and joining the pieces with that
/// character gives back the text.
pub proof fn law_split_join(s: Seq<char>, c: char)
    ensures
        join_spec(split_spec(s, c), c) == s,
    decreases s.len(),
{
    if s.len() > 0 {
        let t = s.drop_last();
        law_split_join(t, c);
        lemma_split_nonempty(t, c);
        let front = split_spec(t, c);
        if s.last() == c {
            let p = front.push(Seq::<char>::empty());
            assert(p.drop_last() =~= front);
            assert(join_spec(p, c) =~= t.push(c));
        } else {
            lemma_join_extend_last(front, c, s.last());
        }
        assert(t.push(s.last()) =~= s);
    }
}

proof fn lemma_digit_char(d: nat)
    requires
        d < 10,
    ensures
        is_digit(digit_char(d)),
        digit_value(digit_char(d)) == d,
        digit_char(d) != '+',
{
}

proof fn lemma_decimal_digits(n: nat)
    ensures
        decimal(n).len() > 0,
        all_digits(decimal(n)),
        decimal_value(decimal(n)) == n,
        decimal(n)[0] != '+',
    decreases n,
{
    lemma_digit_char(n % 10);
    if n < 10 {
        let e = seq![digit_char(n)];
        assert(e.drop_last() =~= Seq::<char>::empty());
        assert(decimal(n) == e);
        assert(e.last() == digit_char(n));
        assert(decimal_value(e.drop_last()) == 0);
        assert(decimal_value(e) == digit_value(digit_char(n)));
    }
    if n >= 10 {
        lemma_decimal_digits(n / 10);
        let d = decimal(n / 10);
        let e = d.push(digit_char(n % 10));
        assert(e.drop_last() =~= d);
        assert forall|i: int| 0 <= i < e.len() implies is_digit(#[trigger] e[i]) by {
            if i < d.len() {
                assert(e[i] == d[i]);
            }
        }
        assert(e[0] == d[0]);
        assert(decimal_value(e) == decimal_value(d) * 10 + digit_value(digit_char(n % 10)));
        assert(decimal(n) == e);
        assert((n / 10) * 10 + n % 10 == n);
    }
}

/// Reading back the decimal digits of a number gives the number.
pub proof fn law_parse_decimal(n: usize)
    ensures
        parse_usize_spec(decimal(n as nat)) == Some(n),
{
    lemma_decimal_digits(n as nat);
    assert(sign_stripped(decimal(n as nat)) == decimal(n as nat));
}

/// Trimming a trimmed text changes nothing.
pub proof fn law_trim_idempotent(s: Seq<char>)
    ensures
        trim_spec(trim_spec(s)) == trim_spec(s),
{
    let l = leading_ws(s);
    lemma_leading_ws_bound(s);
    let front = s.skip(l as int);
    lemma_trailing_ws_bound(front);
    let t = trim_spec(s);
    if t.len() > 0 {
        assert(t[0] == front[0]);
        assert(front[0] == s[l as int]);
        assert(t.last() == front[front.len() - 1 - trailing_ws(front)]);
        assert(leading_ws(t) == 0);
        assert(trailing_ws(t) == 0);
        assert(t.skip(0) =~= t);
        assert(t.take(t.len() as int) =~= t);
    } else {
        assert(leading_ws(t) == 0);
        assert(t.skip(0) =~= t);
    }
}

/// Selecting the next tab and then the previous one comes back to the tab
/// first selected.
pub proof fn law_tabs_next_previous(len: int, i: int)
    requires
        0 <= i < len,
    ensures
        ({
            let j = (i + 1) % len;
            (if j > 0 { j - 1 } else { len - 1 }) == i
        }),
{
    if i + 1 < len {
        assert((i + 1) % len == i + 1) by {
            vstd::arithmetic::div_mod::lemma_small_mod((i + 1) as nat, len as nat);
        }
    } else {
        assert((i + 1) % len == 0) by {
            vstd::arithmetic::div_mod::lemma_mod_self_0(len);
        }
    }
}

/// Ten to the power `k`.
pub open spec fn ten_pow(k: nat) -> nat
    decreases k,
{
    if k == 0 { 1 } else { 10 * ten_pow((k - 1) as nat) }
}

proof fn lemma_decimal_len(n: nat, k: nat)
    requires
        n < ten_pow(k),
        k >= 1,
    ensures
        decimal(n).len() <= k,
    decreases k,
{
    if n >= 10 {
        if k == 1 {
            assert(ten_pow(1) == 10 * ten_pow(0));
        } else {
            let b = ten_pow((k - 1) as nat);
            assert(n / 10 < b) by (nonlinear_arith)
                requires
                    n < 10 * b,
            ;
            lemma_decimal_len(n / 10, (k - 1) as nat);
        }
    }
}

/// A date from year 0 to 9999 is written with ten characters, as `2024-01-31`.
pub proof fn law_date_text_length(y: int, m: nat, d: nat)
    requires
        0 <= y <= 9999,
        1 <= m <= 12,
        1 <= d <= 31,
    ensures
        ymd_text(y, m, d).len() == 10,
{
    reveal_with_fuel(ten_pow, 5);
    reveal_strlit("-");
    lemma_decimal_len(y as nat, 4);
    lemma_decimal_len(m, 2);
    lemma_decimal_len(d, 2);
}

/// A buffer state as a local buffer keeps it (see `LocalBuffer::wf`).
pub open spec fn buffer_state_ok(st: BufState, file: Seq<String>) -> bool {
    let (s, e, b) = st;
    &&& s <= e + 1
    &&& b.len() == e + 1 - s
    &&& e <= file.len()
    &&& e < file.len() || file.len() == 0
    &&& s <= e ==> e < file.len()
    &&& file.len() < usize::MAX - 200
}

/// After the reader surrounds a line of the file, the buffer holds that
/// line: it lies between the buffer's first and last lines.
pub proof fn law_surround_holds_line(st: BufState, line: usize, file: Seq<String>)
    requires
        buffer_state_ok(st, file),
        line <= usize::MAX - 150,
        line < file.len(),
    ensures
        spec_surround(st, line, file).0 <= line <= spec_surround(st, line, file).1,
{
    let (start, end) = surround_bounds(line);
    let (s, e, b) = st;
    let diff = if start >= s { start - s } else { s - start };
    if diff > 30 {
    } else {
        let st1 = if s < start {
            spec_remove_front(st, (start - s) as usize)
        } else {
            spec_add_front(st, (s - start) as usize, file)
        };
        if s < start {
            assert(st1.0 <= line);
        } else {
            assert(st1.0 == start || st1.0 == s);
        }
        assert(st1.0 <= line);
        if st1.1 < end {
            let r = spec_add_back(st1, (end - st1.1) as usize, file);
            assert(r.0 == st1.0);
            assert(r.1 >= line);
        } else {
            let r = spec_remove_back(st1, (st1.1 - end) as usize);
            assert(st1.0 <= st1.1);
            assert(r.0 == st1.0);
            assert(r.1 == end);
        }
    }
}


/// The window `st` holds the file's lines from its first to its last, in
/// the file's order.
pub open spec fn window_in_order(st: BufState, file: Seq<String>) -> bool {
    st.0 <= st.1 ==> st.1 < file.len() && st.2 == file.subrange(st.0 as int, st.1 + 1)
}

/// Each step by which a window moves keeps it in the file's order.
proof fn lemma_steps_in_order(st: BufState, n: usize, file: Seq<String>)
    requires
        buffer_state_ok(st, file),
        window_in_order(st, file),
    ensures
        window_in_order(spec_remove_front(st, n), file),
        window_in_order(spec_remove_back(st, n), file),
        window_in_order(spec_add_back(st, n, file), file),
        n <= st.0 ==> window_in_order(spec_add_front(st, n, file), file),
{
    let (s, e, b) = st;
    if s <= e {
        let f = spec_remove_front(st, n);
        if f.0 <= f.1 {
            assert(f.2 =~= file.subrange(f.0 as int, f.1 + 1));
        }
        let g = spec_remove_back(st, n);
        if g.0 <= g.1 && e - s + 1 > n {
            assert(g.2 =~= file.subrange(g.0 as int, g.1 + 1));
        }
    }
    let h = spec_add_back(st, n, file);
    if h.0 <= h.1 && h != st {
        assert(h.2 =~= file.subrange(h.0 as int, h.1 + 1));
    }
    if n <= s {
        let a = spec_add_front(st, n, file);
        if a != st {
            assert(a.2 =~= file.subrange(a.0 as int, a.1 + 1));
        }
    }
}

/// Surrounding a line keeps the window in the file's order, and afterwards
/// the window holds the line exactly when the file has it.
pub proof fn law_surround_in_file_order(st: BufState, line: usize, file: Seq<String>)
    requires
        buffer_state_ok(st, file),
        window_in_order(st, file),
        line <= usize::MAX - 150,
    ensures
        window_in_order(spec_surround(st, line, file), file),
        (spec_surround(st, line, file).0 <= line <= spec_surround(st, line, file).1) == (line < file.len()),
{
    let (start, end) = surround_bounds(line);
    let (s, e, b) = st;
    let diff = if start >= s { start - s } else { s - start };
    let r = spec_surround(st, line, file);
    if line < file.len() {
        law_surround_holds_line(st, line, file);
    }
    if diff > 30 {
        if r.0 <= r.1 {
            assert(r.2 =~= file.subrange(r.0 as int, r.1 + 1));
        }
    } else {
        let st1 = if s < start {
            spec_remove_front(st, (start - s) as usize)
        } else {
            spec_add_front(st, (s - start) as usize, file)
        };
        lemma_steps_in_order(st, (start - s) as usize, file);
        lemma_steps_in_order(st, (s - start) as usize, file);
        assert(window_in_order(st1, file));
        assert(buffer_state_ok(st1, file));
        if st1.1 < end {
            lemma_steps_in_order(st1, (end - st1.1) as usize, file);
        } else {
            lemma_steps_in_order(st1, (st1.1 - end) as usize, file);
        }
    }
}

/// In a list, moving the selection down one item and then up one item
/// gives back the item selected, when one in the list was.
pub proof fn law_list_next_previous(len: nat, i: usize)
    requires
        i < len <= usize::MAX,
    ensures
        previous_index(Some(next_index(Some(i), len) as usize), len) == i,
{
}

/// Creating a category in the app's library and deleting it again gives back
/// the lists (the default one gains the new category's books, which are
/// none) and the names of the categories in their order, when the name was
/// neither a category nor listed.
pub proof fn law_data_create_delete_round_trip(lib: LibraryData, name: String)
    requires
        lib.wf(),
        !lib.has(name@),
        !lists_name(lib.categories.items@, name@),
    ensures
        ({
            let d = lib.default_category_name@;
            let m1 = lib.lists().insert(name@, (ListSelection::none(), Seq::<LibBookInfo>::empty()));
            m1.remove(name@).insert(d, (m1[d].0, m1[d].1 + m1[name@].1)) == lib.lists()
        }),
        ({
            let items = lib.categories.items@.push(name);
            items.remove(first_name(items, name@)) == lib.categories.items@
        }),
{
    let d = lib.default_category_name@;
    let m = lib.lists();
    let m1 = m.insert(name@, (ListSelection::none(), Seq::<LibBookInfo>::empty()));
    assert(m.dom().contains(d));
    assert(d != name@);
    assert(m1[d].1 + m1[name@].1 =~= m[d].1);
    assert(m1.remove(name@).insert(d, (m1[d].0, m1[d].1 + m1[name@].1)) =~= m);
    let o = lib.categories.items@;
    let items = o.push(name);
    assert forall|q: int| 0 <= q < o.len() implies (#[trigger] items[q])@ != name@ by {
        assert(items[q] == o[q]);
    }
    assert(first_name_at(items, name@, o.len() as int));
    crate::state::library_data::lemma_first_name_unique(items, name@, o.len() as int);
    assert(items.remove(o.len() as int) =~= o);
}

/// Renaming a category of the app's library and renaming it back gives back
/// the lists and the names of the categories in their order, when the new
/// name was neither a category nor listed.
pub proof fn law_data_rename_round_trip(lib: LibraryData, old: String, new: String)
    requires
        lib.wf(),
        lib.has(old@),
        !lib.has(new@),
        !lists_name(lib.categories.items@, new@),
    ensures
        ({
            let m = lib.lists();
            let m1 = m.remove(old@).insert(new@, m[old@]);
            m1.remove(new@).insert(old@, m1[new@]) == m
        }),
        ({
            let o = lib.categories.items@;
            let o1 = o.update(first_name(o, old@), new);
            views(o1.update(first_name(o1, new@), old)) == views(o)
        }),
{
    let m = lib.lists();
    let m1 = m.remove(old@).insert(new@, m[old@]);
    assert(m1.remove(new@).insert(old@, m1[new@]) =~= m);
    let o = lib.categories.items@;
    let k = lib.index_of(old@);
    assert(lists_name(o, lib.books@[k].0@));
    let p0 = choose|p: int| 0 <= p < o.len() && (#[trigger] o[p])@ == old@;
    crate::state::library_data::lemma_first_name_exists(o, old@, p0);
    let p = first_name(o, old@);
    assert(first_name_at(o, old@, p));
    let o1 = o.update(p, new);
    assert forall|q: int| 0 <= q < p implies (#[trigger] o1[q])@ != new@ by {
        assert(o1[q] == o[q]);
        assert(!(o[q]@ == new@));
    }
    assert(first_name_at(o1, new@, p));
    crate::state::library_data::lemma_first_name_unique(o1, new@, p);
    assert(views(o1.update(p, old)) =~= views(o));
}

/// Adding a book whose ID no category holds to the app's library, and then
/// removing the book with that ID, gives back the books of every category.
pub proof fn law_data_add_remove_round_trip(lib: LibraryData, book: LibBookInfo, category: Option<String>)
    requires
        lib.wf(),
        !lib.holds(book.id),
    ensures
        ({
            let m = lib.lists();
            let t = lib.target(category);
            let m1 = m.insert(t, pushed(m[t], lib.filed(book, category)));
            let m2 = m1.map_values(|l: ListView| without_book(l, book.id));
            &&& m2.dom() == m.dom()
            &&& forall|n: Seq<char>| #[trigger] m.contains_key(n) ==> m2[n].1 == m[n].1
        }),
{
    let id = book.id;
    let m = lib.lists();
    let t = lib.target(category);
    let b = lib.filed(book, category);
    let m1 = m.insert(t, pushed(m[t], b));
    let m2 = m1.map_values(|l: ListView| without_book(l, id));
    assert(m.contains_key(t));
    assert(m2.dom() =~= m.dom());
    assert forall|n: Seq<char>| #[trigger] m.contains_key(n) implies m2[n].1 == m[n].1 by {
        assert(!holds_book(m[n].1, id));
        if n == t {
            let s = m[t].1.push(b);
            assert(first_book_at(s, id, m[t].1.len() as int)) by {
                assert forall|q: int| 0 <= q < m[t].1.len() implies (#[trigger] s[q]).id != id by {
                    assert(s[q] == m[t].1[q]);
                }
            }
            crate::state::library_data::lemma_first_book_unique(s, id, m[t].1.len() as int);
            assert(s.remove(m[t].1.len() as int) =~= m[t].1);
        }
    }
}


/// Going from a screen to another that is not a main menu remembers the
/// first as the last screen of the way back, so that the back button leads
/// to it; going to a main menu forgets the way back.
pub proof fn law_back_leads_to_the_screen_left(
    current: CurrentScreen,
    prev: Seq<CurrentScreen>,
    new: CurrentScreen,
)
    requires
        !(current is Reader && new is Reader),
    ensures
        !new.is_main_menu() ==> screen_step(current, prev, new).1.last() == current,
        new.is_main_menu() ==> screen_step(current, prev, new).1.len() == 0,
        screen_step(current, prev, new).0 == new,
{
}


/// On a main menu, Tab and then BackTab come back to the tab and the menu
/// the app was on.
pub proof fn law_tab_back_tab(o: AppState, m: AppState, f: AppState)
    requires
        AppState::control_main_menu_ok(o, Key::Tab),
        AppState::control_main_menu_done(o, m, Key::Tab),
        AppState::control_main_menu_done(m, f, Key::BackTab),
    ensures
        f.current_main_tab.index == o.current_main_tab.index,
        f.current_screen == crate::state::controls::main_screen(o.current_main_tab.index as int),
{
    let i = o.current_main_tab.index as int;
    if i + 1 < 5 {
        assert((i + 1) % 5 == i + 1);
    } else {
        assert((i + 1) % 5 == 0);
    }
}

/// In the history, Down and then Up come back to the entry selected, when
/// one in the history was.
pub proof fn law_history_down_up(sel: ListSelection, len: nat, i: usize)
    requires
        sel.selected == Some(i),
        i < len <= usize::MAX,
    ensures
        history_selection(history_selection(sel, len, Key::Down), len, Key::Up).selected == Some(i),
{
    if i + 1 < len {
        assert((i + 1) % (len as int) == i + 1) by {
            vstd::arithmetic::div_mod::lemma_small_mod((i + 1) as nat, len);
        }
    } else {
        assert((i + 1) % (len as int) == 0) by {
            vstd::arithmetic::div_mod::lemma_mod_self_0(len as int);
        }
    }
}

/// No two entries of `h` are for the same book.
pub open spec fn no_repeats(h: Seq<HistoryEntry>) -> bool {
    forall|i: int, j: int| 0 <= i < j < h.len() ==> !same_book(#[trigger] h[i].book, #[trigger] h[j].book)
}

/// Saving the reader's progress keeps the history free of repeats: a
/// history without two entries for the same book has none after the save,
/// and its newest entry is the book saved.
pub proof fn law_saving_keeps_one_entry_per_book(o: AppState, f: AppState)
    requires
        o.reader_data is Some,
        AppState::reading_saved(o, f),
        no_repeats(o.history_data.history@),
    ensures
        no_repeats(f.history_data.history@),
        f.history_data.history@[0].book.same(f.reader_data->0.book_info),
{
    let h = o.history_data.history@;
    let n = f.history_data.history@;
    let e = n[0].book;
    let w = n.drop_first();
    lemma_last_same(h, e);
    // No entry left in `w` is for the book saved.
    assert forall|j: int| 0 <= j < w.len() implies !same_book(#[trigger] w[j].book, e) by {
        match last_same(h, e) {
            Some(k) => {
                let jj = if j < k { j } else { j + 1 };
                assert(w[j] == h[jj]);
                if same_book(h[jj].book, e) {
                    lemma_same_book_equivalence(h[jj].book, e, h[k].book);
                    lemma_same_book_equivalence(e, h[k].book, h[jj].book);
                    if jj < k {
                        assert(!same_book(h[jj].book, h[k].book));
                    } else {
                        assert(!same_book(h[k].book, h[jj].book));
                    }
                }
            },
            None => {
                assert(w[j] == h[j]);
            },
        }
    }
    assert forall|i: int, j: int| 0 <= i < j < n.len() implies !same_book(#[trigger] n[i].book, #[trigger] n[j].book) by {
        if i == 0 {
            assert(n[j] == w[j - 1]);
            lemma_same_book_equivalence(e, w[j - 1].book, e);
        } else {
            assert(n[i] == w[i - 1] && n[j] == w[j - 1]);
            match last_same(h, e) {
                Some(k) => {
                    let ii = if i - 1 < k { i - 1 } else { i };
                    let jj = if j - 1 < k { j - 1 } else { j };
                    assert(w[i - 1] == h[ii] && w[j - 1] == h[jj]);
                },
                None => {
                    assert(w[i - 1] == h[i - 1] && w[j - 1] == h[j - 1]);
                },
            }
        }
    }
}

/// Loading what a state saves gives back its books, its library (each
/// category with the same books, the same default and the same order), its
/// history, its update list and its save path.
pub proof fn law_save_load_round_trip(c: Context, s: SavedContext, r: Context)
    requires
        Context::saves_as(c, s),
        Context::loads_as(s, r),
    ensures
        r.books == c.books,
        r.data_path == c.data_path,
        r.library.books@.len() == c.library.books@.len(),
        forall|k: int|
            0 <= k < r.library.books@.len() ==> (#[trigger] r.library.books@[k]).0 == c.library.books@[k].0
                && r.library.books@[k].1@ == c.library.books@[k].1@,
        r.library.default_category_name == c.library.default_category_name,
        r.library.category_order == c.library.category_order,
        r.history.history@ == c.history.history@,
        r.updates.updates@ == c.updates.updates@,
{
    assert forall|k: int| 0 <= k < r.library.books@.len() implies (#[trigger] r.library.books@[k]).0 == c.library.books@[k].0
        && r.library.books@[k].1@ == c.library.books@[k].1@ by {
        let (a, b) = (r.library.books@[k].1@, c.library.books@[k].1@);
        assert(s.library.books@[k].1@ == b.map_values(|x: BookRef| x.id));
        assert(a.map_values(|x: BookRef| x.id) == b.map_values(|x: BookRef| x.id));
        assert forall|j: int| 0 <= j < a.len() implies a[j] == b[j] by {
            assert(a.map_values(|x: BookRef| x.id)[j] == b.map_values(|x: BookRef| x.id)[j]);
        }
        assert(a =~= b);
    }
    assert forall|i: int| 0 <= i < r.history.history@.len() implies r.history.history@[i] == c.history.history@[i] by {
        assert(s.history.history@[i].book == c.history.history@[i].book.id);
    }
    assert(r.history.history@ =~= c.history.history@);
    assert forall|i: int| 0 <= i < r.updates.updates@.len() implies r.updates.updates@[i] == c.updates.updates@[i] by {
        assert(s.updates.updates@[i].book == c.updates.updates@[i].book.id);
    }
    assert(r.updates.updates@ =~= c.updates.updates@);
}

/// A web book whose chapters read in order are no more than its chapters
/// continues in order with a chapter from 1 to its number of chapters, when
/// it has any.
pub proof fn law_next_ordered_in_range(b: crate::catalog::book::Book)
    requires
        b.data is Global,
        b.global_spec().chapters_read_ordered <= b.global_spec().total_chapters,
    ensures
        b.global_spec().total_chapters == 0 <==> b.next_ordered_spec() is None,
        b.next_ordered_spec() matches Some(c) ==> 1 <= c <= b.global_spec().total_chapters,
{
}

/// Scrolling up onto a line too wide for the terminal keeps as many of the
/// piece's last words as fit: when the piece is wider than `w` and its last
/// `w + 1` characters hold a space, the text kept is everything after the
/// first whitespace among those last `w + 1` characters, so it is at most `w`
/// long and no shorter suffix starting after a whitespace was chosen, and its
/// first character is recorded accordingly.
pub proof fn law_backward_cut_keeps_last_words(cs: Seq<char>, e: int, pb: Option<usize>, w: int)
    requires
        w >= 1,
        bw_piece(cs, e, pb).len() > w,
        has_space(bw_piece(cs, e, pb).skip(bw_piece(cs, e, pb).len() - (w + 1))),
    ensures
        ({
            let line = bw_piece(cs, e, pb);
            let l = line.len() as int;
            exists|j: int|
                l - (w + 1) <= j < l && unicode_whitespace(#[trigger] line[j])
                    && (forall|k: int| l - (w + 1) <= k < j ==> !unicode_whitespace(#[trigger] line[k]))
                    && bw_text(cs, e, pb, w) == line.skip(j + 1)
                    && bw_char(cs, e, pb, w) == e - (l - 1 - j)
                    && line.skip(j + 1).len() <= w
        }),
{
    let line = bw_piece(cs, e, pb);
    let l = line.len() as int;
    let tail = line.skip(l - (w + 1));
    let i = choose|i: int| 0 <= i < tail.len() && tail[i] == ' ';
    assert(line[l - (w + 1) + i] == ' ');
    if unicode_whitespace(line[l - (w + 1)]) {
        let j = l - (w + 1);
        assert(line.skip(j + 1) =~= line.skip(l - w));
        assert(l - (w + 1) <= j < l && unicode_whitespace(line[j]));
    } else {
        lemma_first_ws(line, l - w);
        let j = first_ws(line, l - w);
        assert(unicode_whitespace(line[l - (w + 1) + i]));
        assert(j <= l - (w + 1) + i);
        assert forall|k: int| l - (w + 1) <= k < j implies !unicode_whitespace(#[trigger] line[k]) by {
            if k > l - (w + 1) {
                assert(l - w <= k < first_ws(line, l - w));
            }
        }
        assert(unicode_whitespace(line[j]));
    }
}

/// The name a detail block of a novel's page gives (its `h5`).
pub open spec fn block_name(item: Seq<char>) -> Seq<char> {
    first_trimmed(item, "h5"@)->0
}

/// The value a detail block of a novel's page gives (its `.summary-content`).
pub open spec fn block_value(item: Seq<char>) -> Seq<char> {
    first_trimmed(item, ".summary-content"@)->0
}

/// A novel's status is read from its last `Status` block: ongoing when that
/// block's text contains "OnGoing", completed otherwise; with no such block
/// it is unknown.
pub proof fn law_status_from_last_status_block(items: Seq<Seq<char>>)
    ensures
        (forall|j: int| 0 <= j < items.len() ==> block_name(#[trigger] items[j]) != "Status"@)
            ==> details_fold(items).2 == NovelStatus::Unknown,
        forall|k: int|
            0 <= k < items.len() && block_name(#[trigger] items[k]) == "Status"@ && (forall|j: int|
                k < j < items.len() ==> block_name(#[trigger] items[j]) != "Status"@) ==> details_fold(items).2
                == if contains_spec(block_value(items[k]), "OnGoing"@) {
                NovelStatus::Ongoing
            } else {
                NovelStatus::Completed
            },
    decreases items.len(),
{
    reveal_strlit("Status");
    reveal_strlit("Genre(s)");
    reveal_strlit("Author(s)");
    if items.len() > 0 {
        let rest = items.drop_last();
        law_status_from_last_status_block(rest);
        let n = items.len() - 1;
        assert forall|j: int| 0 <= j < rest.len() implies rest[j] == items[j] by {}
        if block_name(items[n]) == "Status"@ {
            assert("Status"@ != "Genre(s)"@);
            assert("Status"@ != "Author(s)"@);
        } else {
            assert forall|k: int|
                0 <= k < items.len() && block_name(#[trigger] items[k]) == "Status"@ && (forall|j: int|
                    k < j < items.len() ==> block_name(#[trigger] items[j]) != "Status"@) implies details_fold(items).2
                == if contains_spec(block_value(items[k]), "OnGoing"@) {
                NovelStatus::Ongoing
            } else {
                NovelStatus::Completed
            } by {
                assert(k < n);
                assert(items[k] == rest[k]);
                assert forall|j: int| k < j < rest.len() implies block_name(#[trigger] rest[j]) != "Status"@ by {
                    assert(rest[j] == items[j]);
                }
            }
            if forall|j: int| 0 <= j < items.len() ==> block_name(#[trigger] items[j]) != "Status"@ {
                assert forall|j: int| 0 <= j < rest.len() implies block_name(#[trigger] rest[j]) != "Status"@ by {
                    assert(rest[j] == items[j]);
                }
            }
        }
    }
}

/// The progress recorded for a local book is finished exactly when the
/// display ends on the file's last line; otherwise it is the display's
/// start; either way with the file's number of lines.
pub proof fn law_local_progress(p: crate::reader::portion::BookPortion)
    requires
        p.buffer is Local,
        p.progress_defined(),
    ensures
        ({
            let n = p.buffer->Local_0.file_lines@.len();
            &&& p.progress_spec().total_lines == n
            &&& (p.progress_spec().progress is Finished) <==> p.display_end.0 == n - 1
            &&& p.display_end.0 != n - 1 ==> p.progress_spec().progress == crate::reader::portion::BookProgress::Location(p.display_start)
        }),
{
    let b = p.buffer->Local_0;
    assert(b.file_lines@.len() == b.file_lines.len());
}

/// Reading in order continues after a finished chapter: when the last
/// chapter read in order, `k >= 1`, is finished and the book has a chapter
/// `k + 1`, reading continues with `k + 1`; when it is not finished, with `k`
/// again.
pub proof fn law_next_ordered_continues(b: crate::catalog::book::Book)
    requires
        b.data is Global,
        b.global_spec().chapters_read_ordered >= 1,
    ensures
        ({
            let k = b.global_spec().chapters_read_ordered;
            let done = crate::catalog::book::progress_of(b.global_spec().chapter_progress@, k)
                == crate::catalog::book::ChapterProgress::Finished;
            &&& done && k + 1 <= b.global_spec().total_chapters ==> b.next_ordered_spec() == Some((k + 1) as usize)
            &&& !done ==> b.next_ordered_spec() == Some(k)
        }),
{
}

/// Whether the update report `u` names chapter `k` as new.
pub open spec fn reports_chapter(u: crate::catalog::book::UpdatedChapters, k: int) -> bool {
    match u {
        crate::catalog::book::UpdatedChapters::Range((a, b)) => a <= k <= b,
        crate::catalog::book::UpdatedChapters::Single(s) => k == s,
        crate::catalog::book::UpdatedChapters::NoChapters => false,
    }
}

/// When a novel grows from `m` chapters to `n`, the update reports exactly
/// the new chapters: chapter `k` is reported new if and only if `m < k <= n`.
pub proof fn law_update_reports_new_chapters(m: usize, n: usize, k: int)
    requires
        m <= n,
    ensures
        reports_chapter(crate::catalog::book::new_chapters(m, n), k) <==> m < k <= n,
{
}

} // verus!
