//! How one line of text is cut to fit a terminal width: going forwards from a
//! character, and backwards to a character.

use vstd::prelude::*;

use crate::text::{is_whitespace, unicode_whitespace};

verus! {

/// Every character of `s` is whitespace.
pub open spec fn all_ws(s: Seq<char>) -> bool {
    forall|i: int| 0 <= i < s.len() ==> unicode_whitespace(#[trigger] s[i])
}

/// `s` holds an ASCII space.
pub open spec fn has_space(s: Seq<char>) -> bool {
    exists|i: int| 0 <= i < s.len() && s[i] == ' '
}

/// The position of the last whitespace character among the first `n` of `s`, or -1.
pub open spec fn last_ws(s: Seq<char>, n: int) -> int
    decreases n,
{
    if n <= 0 {
        -1
    } else if unicode_whitespace(s[n - 1]) {
        n - 1
    } else {
        last_ws(s, n - 1)
    }
}

/// The characters of `c` from position `s1` on.
pub open spec fn rest_from(c: Seq<char>, s1: int) -> Seq<char> {
    if s1 >= c.len() {
        Seq::empty()
    } else {
        c.skip(s1)
    }
}

/// What a forward cut finds: nothing left but whitespace on an untouched
/// line (empty), nothing left on a line already started (end), or a piece.
pub open spec fn fw_kind(c: Seq<char>, s1: int, w: int) -> int {
    let rest = rest_from(c, s1);
    if all_ws(rest) {
        if s1 == 0 { 0 } else { 1 }
    } else {
        2
    }
}

/// The length of the piece kept before the hyphen when the window holds no space.
pub open spec fn hyphen_keep(w: int) -> int {
    if w >= 1 { w - 1 } else { 0 }
}

/// The text of the piece a forward cut from `s1` gives for width `w`: the
/// rest of the line if it fits; else, if the next `w + 1` characters hold no
/// space, the first `w - 1` of them and a hyphen; else the first `w` if the
/// one after them is whitespace; else everything before the last whitespace
/// among the first `w`.
pub open spec fn fw_text(c: Seq<char>, s1: int, w: int) -> Seq<char> {
    let rest = rest_from(c, s1);
    if rest.len() <= w {
        rest
    } else if !has_space(rest.take(w + 1)) {
        rest.take(hyphen_keep(w)).push('-')
    } else if unicode_whitespace(rest[w]) {
        rest.take(w)
    } else if last_ws(rest, w) >= 0 {
        rest.take(last_ws(rest, w))
    } else {
        Seq::empty()
    }
}

/// The position in the line of the last character of the piece (as the reader counts it).
pub open spec fn fw_char(c: Seq<char>, s1: int, w: int) -> int {
    let rest = rest_from(c, s1);
    if rest.len() <= w {
        s1 + rest.len() - 1
    } else if !has_space(rest.take(w + 1)) {
        s1 + hyphen_keep(w)
    } else if unicode_whitespace(rest[w]) {
        s1 + w - 1
    } else {
        s1 + last_ws(rest, w) - 1
    }
}

/// A forward cut records a line break: it cut the line short.
pub open spec fn fw_breaks(c: Seq<char>, s1: int, w: int) -> bool {
    fw_kind(c, s1, w) == 2 && rest_from(c, s1).len() > w
}

/// The cut can be made without a position going below zero: it cannot when
/// the piece would end before the first character of the line.
pub open spec fn fw_ok(c: Seq<char>, s1: int, w: int) -> bool {
    fw_kind(c, s1, w) == 2 ==> fw_char(c, s1, w) >= 0
}

pub proof fn lemma_last_ws(s: Seq<char>, n: int)
    requires
        0 <= n <= s.len(),
    ensures
        -1 <= last_ws(s, n) < n,
        last_ws(s, n) >= 0 ==> unicode_whitespace(s[last_ws(s, n)]),
        forall|j: int| last_ws(s, n) < j < n ==> !unicode_whitespace(#[trigger] s[j]),
    decreases n,
{
    if n > 0 && !unicode_whitespace(s[n - 1]) {
        lemma_last_ws(s, n - 1);
    }
}

/// What a forward cut returns.
pub struct ForwardCut {
    /// 0: nothing but whitespace left on an untouched line; 1: nothing left; 2: a piece.
    pub kind: u8,
    pub text: Vec<char>,
    pub last_char: usize,
    /// The cut could be made (see `fw_ok`); when not, text and position mean nothing.
    pub ok: bool,
    /// The cut cut the line short (see `fw_breaks`).
    pub short: bool,
}

/// Cuts the piece of line `c` that starts at character `s1` to width `w`.
pub fn cut_forward(c: &Vec<char>, s1: usize, w: usize) -> (r: ForwardCut)
    ensures
        r.kind as int == fw_kind(c@, s1 as int, w as int),
        r.ok == fw_ok(c@, s1 as int, w as int),
        r.short == fw_breaks(c@, s1 as int, w as int),
        r.ok && r.kind == 2 ==> s1 <= r.last_char + 1 && r.last_char < c@.len(),
        r.ok && r.kind == 2 ==> r.text@ == fw_text(c@, s1 as int, w as int) && r.last_char as int == fw_char(
            c@,
            s1 as int,
            w as int,
        ),
{
    let ghost rest = rest_from(c@, s1 as int);
    // the characters from s1 on
    let mut possible: Vec<char> = Vec::new();
    let mut i: usize = s1;
    while i < c.len()
        invariant
            s1 <= i || c@.len() <= s1,
            i >= s1,
            i <= c@.len() || c@.len() <= s1,
            possible@ == (if s1 >= c@.len() { Seq::<char>::empty() } else { c@.subrange(s1 as int, i as int) }),
        decreases c@.len() - i,
    {
        possible.push(c[i]);
        proof {
            assert(possible@ =~= c@.subrange(s1 as int, i + 1));
        }
        i = i + 1;
    }
    proof {
        if s1 < c@.len() {
            assert(possible@ =~= rest);
        } else {
            assert(possible@ =~= rest);
        }
    }
    // all whitespace?
    let mut j: usize = 0;
    let mut all = true;
    while j < possible.len()
        invariant
            j <= possible@.len(),
            all == (forall|k: int| 0 <= k < j ==> unicode_whitespace(#[trigger] possible@[k])),
        decreases possible@.len() - j,
    {
        if !is_whitespace(possible[j]) {
            all = false;
        }
        j = j + 1;
    }
    if all {
        if s1 == 0 {
            return ForwardCut { kind: 0, text: Vec::new(), last_char: 0, ok: true, short: false };
        }
        return ForwardCut { kind: 1, text: Vec::new(), last_char: 0, ok: true, short: false };
    }
    let p = possible.len();
    if p <= w {
        return ForwardCut { kind: 2, text: possible, last_char: s1 + p - 1, ok: true, short: false };
    }
    // the first w + 1 characters
    let mut display: Vec<char> = Vec::new();
    let mut k: usize = 0;
    let mut space = false;
    while k <= w
        invariant
            k <= w + 1,
            w < p,
            p == possible@.len(),
            display@ == possible@.take(k as int),
            space == has_space(possible@.take(k as int)),
        decreases w + 1 - k,
    {
        display.push(possible[k]);
        if possible[k] == ' ' {
            space = true;
        }
        proof {
            assert(display@ =~= possible@.take(k + 1));
            if !space {
                assert forall|x: int| 0 <= x < k + 1 implies #[trigger] possible@.take(k + 1)[x] != ' ' by {
                    if x < k {
                        assert(possible@.take(k + 1)[x] == possible@.take(k as int)[x]);
                    }
                }
            } else {
                if possible@[k as int] != ' ' {
                    let x = choose|x: int| 0 <= x < k && #[trigger] possible@.take(k as int)[x] == ' ';
                    assert(possible@.take(k + 1)[x] == ' ');
                } else {
                    assert(possible@.take(k + 1)[k as int] == ' ');
                }
            }
        }
        k = k + 1;
    }
    if !space {
        display.pop();
        display.pop();
        let keep = display.len();
        display.push('-');
        proof {
            assert(display@ =~= possible@.take(hyphen_keep(w as int)).push('-'));
        }
        return ForwardCut { kind: 2, text: display, last_char: s1 + keep, ok: true, short: true };
    }
    let last = display.pop().unwrap();
    if is_whitespace(last) {
        proof {
            assert(display@ =~= possible@.take(w as int));
        }
        if s1 + w == 0 {
            return ForwardCut { kind: 2, text: display, last_char: 0, ok: false, short: true };
        }
        return ForwardCut { kind: 2, text: display, last_char: s1 + w - 1, ok: true, short: true };
    }
    // the space among the first w characters is whitespace
    let space_is_ws = is_whitespace(' ');
    let cl = c.len();
    proof {
        lemma_last_ws(possible@, w as int);
        let x = choose|x: int| 0 <= x < w + 1 && #[trigger] possible@.take(w + 1)[x] == ' ';
        assert(possible@[x] == ' ');
        assert(unicode_whitespace(possible@[x]));
        assert(x < w);
        assert(!all_ws(possible@));
    }
    loop
        invariant
            display@.len() <= w,
            display@ == possible@.take(display@.len() as int),
            last_ws(possible@, w as int) < display@.len(),
            w < possible@.len(),
            -1 < last_ws(possible@, w as int),
            forall|j: int| display@.len() <= j < w ==> !unicode_whitespace(#[trigger] possible@[j]) || j == last_ws(possible@, w as int),
            forall|j: int| last_ws(possible@, w as int) < j < w ==> !unicode_whitespace(#[trigger] possible@[j]),
            unicode_whitespace(possible@[last_ws(possible@, w as int)]),
            possible@ == rest_from(c@, s1 as int),
            !all_ws(possible@),
            has_space(possible@.take(w + 1)),
            !unicode_whitespace(possible@[w as int]),
            cl == c@.len(),
        decreases display@.len(),
    {
        let ch = display.pop().unwrap();
        if is_whitespace(ch) {
            proof {
                assert(display@.len() as int == last_ws(possible@, w as int));
                assert(display@ =~= possible@.take(last_ws(possible@, w as int)));
                assert(fw_kind(c@, s1 as int, w as int) == 2);
                assert(fw_char(c@, s1 as int, w as int) == s1 + display@.len() - 1);
                assert(s1 + possible@.len() == c@.len());
            }
            let n = display.len();
            if s1 + n == 0 {
                return ForwardCut { kind: 2, text: display, last_char: 0, ok: false, short: true };
            }
            return ForwardCut { kind: 2, text: display, last_char: s1 + n - 1, ok: true, short: true };
        }
    }
}

/// The characters of `cs` up to position `e` (all of them if the line is shorter),
/// from just after the break `pb` on.
pub open spec fn bw_piece(cs: Seq<char>, e: int, pb: Option<usize>) -> Seq<char> {
    let t = if e + 1 >= cs.len() { cs } else { cs.take(e + 1) };
    match pb {
        None => t,
        Some(v) => rest_from(t, v + 2),
    }
}

/// The position of the first whitespace character of `s` at or after `from`, or `s.len()`.
pub open spec fn first_ws(s: Seq<char>, from: int) -> int
    decreases s.len() - from,
{
    if from >= s.len() {
        s.len() as int
    } else if unicode_whitespace(s[from]) {
        from
    } else {
        first_ws(s, from + 1)
    }
}

/// The text of the piece a backward cut ending at `e` gives for width `w`:
/// the whole piece if it fits; else, if its last `w + 1` characters hold no
/// space, all but the last two of them and a hyphen; else its last `w` if the
/// one before them is whitespace; else what follows the first whitespace
/// among its last `w`.
pub open spec fn bw_text(cs: Seq<char>, e: int, pb: Option<usize>, w: int) -> Seq<char> {
    let line = bw_piece(cs, e, pb);
    let l = line.len() as int;
    if l <= w {
        line
    } else if !has_space(line.skip(l - (w + 1))) {
        line.subrange(l - (w + 1), if w >= 1 { l - 2 } else { l - 1 }).push('-')
    } else if unicode_whitespace(line[l - (w + 1)]) {
        line.skip(l - w)
    } else {
        let j = first_ws(line, l - w);
        if j < l { line.skip(j + 1) } else { Seq::empty() }
    }
}

/// The position the reader records for the first character of that piece.
pub open spec fn bw_char(cs: Seq<char>, e: int, pb: Option<usize>, w: int) -> int {
    let line = bw_piece(cs, e, pb);
    let l = line.len() as int;
    if l <= w {
        match pb {
            None => 0,
            Some(v) => v + 2,
        }
    } else if !has_space(line.skip(l - (w + 1))) {
        (e + 1) - (if w >= 1 { w } else { 1 })
    } else if unicode_whitespace(line[l - (w + 1)]) {
        e - w
    } else {
        let j = first_ws(line, l - w);
        if j < l { e - (l - 1 - j) } else { e }
    }
}

pub proof fn lemma_first_ws(s: Seq<char>, from: int)
    requires
        0 <= from <= s.len(),
    ensures
        from <= first_ws(s, from) <= s.len(),
        first_ws(s, from) < s.len() ==> unicode_whitespace(s[first_ws(s, from)]),
        forall|j: int| from <= j < first_ws(s, from) ==> !unicode_whitespace(#[trigger] s[j]),
    decreases s.len() - from,
{
    if from < s.len() && !unicode_whitespace(s[from]) {
        lemma_first_ws(s, from + 1);
    }
}

/// The characters of `v` from `a` to `b`.
pub fn copy_range(v: &Vec<char>, a: usize, b: usize) -> (r: Vec<char>)
    requires
        a <= b <= v@.len(),
    ensures
        r@ == v@.subrange(a as int, b as int),
{
    let mut out: Vec<char> = Vec::new();
    let mut m: usize = a;
    while m < b
        invariant
            a <= m <= b,
            b <= v@.len(),
            out@ == v@.subrange(a as int, m as int),
        decreases b - m,
    {
        out.push(v[m]);
        proof {
            assert(out@ =~= v@.subrange(a as int, m + 1));
        }
        m = m + 1;
    }
    out
}

/// Whether `v` holds a space from `a` to its end.
pub fn has_space_from(v: &Vec<char>, a: usize) -> (r: bool)
    requires
        a <= v@.len(),
    ensures
        r == has_space(v@.skip(a as int)),
{
    let l = v.len();
    let mut k: usize = a;
    let mut space = false;
    while k < l
        invariant
            a <= k <= l,
            l == v@.len(),
            space == has_space(v@.subrange(a as int, k as int)),
        decreases l - k,
    {
        if v[k] == ' ' {
            space = true;
        }
        proof {
            let x0 = v@.subrange(a as int, k as int);
            let x1 = v@.subrange(a as int, k + 1);
            if space {
                if v@[k as int] == ' ' {
                    assert(x1[k - a] == ' ');
                } else {
                    let x = choose|x: int| 0 <= x < x0.len() && x0[x] == ' ';
                    assert(x1[x] == ' ');
                }
            } else {
                assert forall|x: int| 0 <= x < x1.len() implies x1[x] != ' ' by {
                    if x < x0.len() {
                        assert(x1[x] == x0[x]);
                    }
                }
            }
        }
        k = k + 1;
    }
    proof {
        assert(v@.subrange(a as int, l as int) =~= v@.skip(a as int));
    }
    space
}

/// The position of the first whitespace character of `v` at or after `a`, or its length.
pub fn first_ws_from(v: &Vec<char>, a: usize) -> (r: usize)
    requires
        a <= v@.len(),
    ensures
        r == first_ws(v@, a as int),
{
    let l = v.len();
    let mut j: usize = a;
    while j < l && !is_whitespace(v[j])
        invariant
            a <= j <= l,
            l == v@.len(),
            forall|x: int| a <= x < j ==> !unicode_whitespace(#[trigger] v@[x]),
        decreases l - j,
    {
        j = j + 1;
    }
    proof {
        lemma_first_ws(v@, a as int);
        if first_ws(v@, a as int) < j {
            assert(!unicode_whitespace(v@[first_ws(v@, a as int)]));
        }
        if j < l {
            assert(first_ws(v@, a as int) <= j);
        }
    }
    j
}

/// The piece of `c` a backward cut works on (see `bw_piece`).
pub fn backward_piece(c: &Vec<char>, e: usize, pb: Option<usize>) -> (r: Vec<char>)
    requires
        e < usize::MAX,
        pb matches Some(v) ==> v + 1 < e,
    ensures
        r@ == bw_piece(c@, e as int, pb),
        r@.len() <= e + 1,
{
    let n = if e + 1 >= c.len() { c.len() } else { e + 1 };
    let start: usize = match pb {
        None => 0,
        Some(v) => v + 2,
    };
    proof {
        let t = if e + 1 >= c@.len() { c@ } else { c@.take(e + 1) };
        assert(t =~= c@.take(n as int));
    }
    if start >= n {
        proof {
            assert(bw_piece(c@, e as int, pb) =~= Seq::<char>::empty());
        }
        return Vec::new();
    }
    let r = copy_range(c, start, n);
    proof {
        assert(r@ =~= bw_piece(c@, e as int, pb));
    }
    r
}

/// What a backward cut returns: the piece's text and the position of its first character.
pub struct BackwardCut {
    pub text: Vec<char>,
    pub first_char: usize,
}

/// Cuts the piece of line `c` that ends at character `e` (after the break
/// `pb`, if any) to width `w`, keeping its end.
pub fn cut_backward(c: &Vec<char>, e: usize, pb: Option<usize>, w: usize) -> (r: BackwardCut)
    requires
        e < usize::MAX,
        pb matches Some(v) ==> v + 1 < e,
    ensures
        r.text@ == bw_text(c@, e as int, pb, w as int),
        r.first_char as int == bw_char(c@, e as int, pb, w as int),
{
    let line = backward_piece(c, e, pb);
    let l = line.len();
    if l <= w {
        let start: usize = match pb {
            None => 0,
            Some(v) => v + 2,
        };
        return BackwardCut { text: line, first_char: start };
    }
    let from = l - (w + 1);
    let space = has_space_from(&line, from);
    if !space {
        let end = if w >= 1 { l - 2 } else { l - 1 };
        let mut dis = copy_range(&line, from, end);
        dis.push('-');
        let used = if w >= 1 { w } else { 1 };
        return BackwardCut { text: dis, first_char: (e + 1) - used };
    }
    if is_whitespace(line[from]) {
        let out = copy_range(&line, from + 1, l);
        proof {
            assert(out@ =~= line@.skip(l - w));
        }
        return BackwardCut { text: out, first_char: e - w };
    }
    let j = first_ws_from(&line, from + 1);
    if j < l {
        let out = copy_range(&line, j + 1, l);
        proof {
            assert(out@ =~= line@.skip(j + 1));
        }
        return BackwardCut { text: out, first_char: e - (l - 1 - j) };
    }
    BackwardCut { text: Vec::new(), first_char: e }
}

} // verus!
