//! Searching, replacing, splitting and number parsing on strings, as the
//! scraping rules use them.

use vstd::prelude::*;

use crate::text::{chars_of, string_of};

verus! {

/// `s` holds `pat` starting at position `i`.
pub open spec fn occurs_at(s: Seq<char>, pat: Seq<char>, i: int) -> bool {
    0 <= i && i + pat.len() <= s.len() && s.subrange(i, i + pat.len()) == pat
}

/// `s` holds `pat` somewhere (`str::contains`).
pub open spec fn contains_spec(s: Seq<char>, pat: Seq<char>) -> bool {
    exists|i: int| occurs_at(s, pat, i)
}

/// Whether `pat` occurs in `v` at position `i`.
fn occurs_at_exec(v: &Vec<char>, p: &Vec<char>, i: usize) -> (r: bool)
    ensures
        r == occurs_at(v@, p@, i as int),
{
    if i > v.len() || p.len() > v.len() - i {
        return false;
    }
    let mut k: usize = 0;
    while k < p.len()
        invariant
            i + p@.len() <= v@.len(),
            v@.len() <= usize::MAX,
            k <= p@.len(),
            forall|j: int| 0 <= j < k ==> v@[i + j] == p@[j],
        decreases p@.len() - k,
    {
        if v[i + k] != p[k] {
            proof {
                assert(v@.subrange(i as int, i + p@.len())[k as int] != p@[k as int]);
            }
            return false;
        }
        k = k + 1;
    }
    proof {
        assert(v@.subrange(i as int, i + p@.len()) =~= p@);
    }
    true
}

/// `str::contains` with a string pattern.
pub fn contains_str(s: &str, pat: &str) -> (r: bool)
    ensures
        r == contains_spec(s@, pat@),
{
    let v = chars_of(s);
    let p = chars_of(pat);
    let mut i: usize = 0;
    while i < v.len()
        invariant
            v@ == s@,
            p@ == pat@,
            i <= v@.len(),
            forall|j: int| 0 <= j < i ==> !occurs_at(s@, pat@, j),
        decreases v@.len() - i,
    {
        if occurs_at_exec(&v, &p, i) {
            return true;
        }
        i = i + 1;
    }
    let at_end = occurs_at_exec(&v, &p, i);
    proof {
        if !at_end {
            assert forall|j: int| !occurs_at(s@, pat@, j) by {
                if j > v@.len() {
                    assert(!occurs_at(s@, pat@, j));
                }
            }
        }
    }
    at_end
}

/// `s` begins with `pat` (`str::starts_with`).
pub fn starts_with_str(s: &str, pat: &str) -> (r: bool)
    ensures
        r == occurs_at(s@, pat@, 0),
{
    let v = chars_of(s);
    let p = chars_of(pat);
    occurs_at_exec(&v, &p, 0)
}

/// `s` with every character for which `pick` holds replaced by `with`.
pub open spec fn replace_chars_spec(s: Seq<char>, a: char, b: char, with: Seq<char>) -> Seq<char>
    decreases s.len(),
{
    if s.len() == 0 {
        Seq::empty()
    } else {
        let head = if s.last() == a || s.last() == b { with } else { seq![s.last()] };
        replace_chars_spec(s.drop_last(), a, b, with) + head
    }
}

/// `s` with every `a` and every `b` replaced by `with` (`str::replace` with a
/// character predicate).
pub fn replace_chars(s: &str, a: char, b: char, with: &str) -> (r: String)
    ensures
        r@ == replace_chars_spec(s@, a, b, with@),
{
    let v = chars_of(s);
    let w = chars_of(with);
    let mut out: Vec<char> = Vec::new();
    let mut i: usize = 0;
    while i < v.len()
        invariant
            v@ == s@,
            w@ == with@,
            i <= v@.len(),
            out@ == replace_chars_spec(v@.take(i as int), a, b, with@),
        decreases v@.len() - i,
    {
        proof {
            assert(v@.take(i + 1).drop_last() =~= v@.take(i as int));
        }
        let c = v[i];
        if c == a || c == b {
            let mut k: usize = 0;
            let ghost before = out@;
            while k < w.len()
                invariant
                    k <= w@.len(),
                    out@ == before + w@.take(k as int),
                decreases w@.len() - k,
            {
                out.push(w[k]);
                proof {
                    assert(out@ =~= before + w@.take(k + 1));
                }
                k = k + 1;
            }
            proof {
                assert(w@.take(w@.len() as int) =~= w@);
            }
        } else {
            out.push(c);
        }
        proof {
            assert(out@ =~= replace_chars_spec(v@.take(i + 1), a, b, with@));
        }
        i = i + 1;
    }
    proof {
        assert(v@.take(v@.len() as int) =~= v@);
    }
    string_of(out.as_slice())
}

/// `s` with every occurrence of `pat` (taken left to right, without overlap)
/// replaced by `with`; `pat` is not empty.
pub open spec fn replace_spec(s: Seq<char>, pat: Seq<char>, with: Seq<char>) -> Seq<char>
    decreases s.len(),
{
    if s.len() == 0 || pat.len() == 0 {
        s
    } else if occurs_at(s, pat, 0) {
        with + replace_spec(s.skip(pat.len() as int), pat, with)
    } else {
        seq![s[0]] + replace_spec(s.drop_first(), pat, with)
    }
}

/// `str::replace` with a string pattern that is not empty.
pub fn replace_str(s: &str, pat: &str, with: &str) -> (r: String)
    requires
        pat@.len() > 0,
    ensures
        r@ == replace_spec(s@, pat@, with@),
{
    let v = chars_of(s);
    let p = chars_of(pat);
    let w = chars_of(with);
    let mut out: Vec<char> = Vec::new();
    let mut i: usize = 0;
    proof {
        assert(v@.skip(0) =~= v@);
        assert(out@ + replace_spec(v@.skip(0), pat@, with@) =~= replace_spec(s@, pat@, with@));
    }
    while i < v.len()
        invariant
            v@ == s@,
            p@ == pat@,
            w@ == with@,
            p@.len() > 0,
            i <= v@.len(),
            out@ + replace_spec(v@.skip(i as int), pat@, with@) == replace_spec(s@, pat@, with@),
        decreases v@.len() - i,
    {
        let ghost rest = v@.skip(i as int);
        if occurs_at_exec(&v, &p, i) {
            proof {
                assert(rest.subrange(0, p@.len() as int) =~= v@.subrange(i as int, i + p@.len()));
                assert(rest.skip(p@.len() as int) =~= v@.skip(i + p@.len()));
            }
            let mut k: usize = 0;
            let ghost before = out@;
            while k < w.len()
                invariant
                    k <= w@.len(),
                    out@ == before + w@.take(k as int),
                decreases w@.len() - k,
            {
                out.push(w[k]);
                proof {
                    assert(out@ =~= before + w@.take(k + 1));
                }
                k = k + 1;
            }
            proof {
                assert(w@.take(w@.len() as int) =~= w@);
                assert(out@ + replace_spec(v@.skip(i + p@.len()), pat@, with@) =~= before
                    + replace_spec(rest, pat@, with@));
            }
            i = i + p.len();
        } else {
            proof {
                if occurs_at(rest, pat@, 0) {
                    assert(rest.subrange(0, p@.len() as int) =~= v@.subrange(i as int, i + p@.len()));
                }
                assert(rest.drop_first() =~= v@.skip(i + 1));
            }
            let ghost before = out@;
            out.push(v[i]);
            proof {
                assert(out@ + replace_spec(v@.skip(i + 1), pat@, with@) =~= before + replace_spec(rest, pat@, with@));
            }
            i = i + 1;
        }
    }
    proof {
        assert(v@.skip(v@.len() as int) =~= Seq::<char>::empty());
        assert(out@ =~= out@ + Seq::<char>::empty());
    }
    string_of(out.as_slice())
}

/// The pieces of `s` between the occurrences of `c` (`str::split` on a
/// character): one more piece than there are occurrences.
pub open spec fn split_spec(s: Seq<char>, c: char) -> Seq<Seq<char>>
    decreases s.len(),
{
    if s.len() == 0 {
        seq![Seq::empty()]
    } else {
        let front = split_spec(s.drop_last(), c);
        if s.last() == c {
            front.push(Seq::empty())
        } else {
            front.update(front.len() - 1, front.last().push(s.last()))
        }
    }
}

pub proof fn lemma_split_nonempty(s: Seq<char>, c: char)
    ensures
        split_spec(s, c).len() >= 1,
    decreases s.len(),
{
    if s.len() > 0 {
        lemma_split_nonempty(s.drop_last(), c);
    }
}

/// `str::split` on a character, collected.
pub fn split_char(s: &str, c: char) -> (r: Vec<String>)
    ensures
        r@.len() == split_spec(s@, c).len(),
        forall|i: int| 0 <= i < r@.len() ==> (#[trigger] r@[i])@ == split_spec(s@, c)[i],
{
    let v = chars_of(s);
    let mut pieces: Vec<String> = Vec::new();
    let mut cur: Vec<char> = Vec::new();
    let mut i: usize = 0;
    while i < v.len()
        invariant
            v@ == s@,
            i <= v@.len(),
            pieces@.len() + 1 == split_spec(v@.take(i as int), c).len(),
            forall|j: int| 0 <= j < pieces@.len() ==> (#[trigger] pieces@[j])@ == split_spec(v@.take(i as int), c)[j],
            cur@ == split_spec(v@.take(i as int), c).last(),
        decreases v@.len() - i,
    {
        proof {
            assert(v@.take(i + 1).drop_last() =~= v@.take(i as int));
            lemma_split_nonempty(v@.take(i as int), c);
        }
        let ghost before = pieces@;
        if v[i] == c {
            let piece = string_of(cur.as_slice());
            pieces.push(piece);
            cur = Vec::new();
            proof {
                let front = split_spec(v@.take(i as int), c);
                let sp = split_spec(v@.take(i + 1), c);
                assert(sp == front.push(Seq::<char>::empty()));
                assert forall|j: int| 0 <= j < pieces@.len() implies (#[trigger] pieces@[j])@ == sp[j] by {
                    if j < before.len() {
                        assert(pieces@[j] == before[j]);
                    }
                }
                assert(cur@ =~= sp.last());
            }
        } else {
            cur.push(v[i]);
            proof {
                let sp = split_spec(v@.take(i + 1), c);
                assert(cur@ =~= sp.last());
            }
        }
        i = i + 1;
    }
    pieces.push(string_of(cur.as_slice()));
    proof {
        assert(v@.take(v@.len() as int) =~= v@);
    }
    pieces
}

/// `s` without its first byte, when that byte is a whole character
/// (`str::get(1..)`): `None` for an empty string or one whose first character
/// is not ASCII.
pub fn after_first_byte(s: &str) -> (r: Option<String>)
    ensures
        r is Some <==> s@.len() > 0 && (s@[0] as u32) < 0x80,
        r matches Some(t) ==> t@ == s@.drop_first(),
{
    let v = chars_of(s);
    if v.len() == 0 || (v[0] as u32) >= 0x80 {
        return None;
    }
    let mut out: Vec<char> = Vec::new();
    let mut i: usize = 1;
    while i < v.len()
        invariant
            v@ == s@,
            1 <= i <= v@.len(),
            out@ == v@.subrange(1, i as int),
        decreases v@.len() - i,
    {
        out.push(v[i]);
        proof {
            assert(out@ =~= v@.subrange(1, i + 1));
        }
        i = i + 1;
    }
    proof {
        assert(out@ =~= s@.drop_first());
    }
    Some(string_of(out.as_slice()))
}

/// The value of an ASCII digit.
pub open spec fn digit_value(c: char) -> int {
    (c as u32) - ('0' as u32)
}

pub open spec fn is_digit(c: char) -> bool {
    '0' <= c <= '9'
}

/// The number the decimal digits of `s` spell.
pub open spec fn decimal_value(s: Seq<char>) -> int
    decreases s.len(),
{
    if s.len() == 0 {
        0
    } else {
        decimal_value(s.drop_last()) * 10 + digit_value(s.last())
    }
}

/// `s` without a leading `+`.
pub open spec fn sign_stripped(s: Seq<char>) -> Seq<char> {
    if s.len() > 0 && s[0] == '+' { s.drop_first() } else { s }
}

/// Every character of `d` is an ASCII digit.
pub open spec fn all_digits(d: Seq<char>) -> bool {
    forall|i: int| 0 <= i < d.len() ==> is_digit(#[trigger] d[i])
}

/// What `str::parse::<usize>` gives: the value of an optional `+` followed by
/// one or more ASCII digits, if it fits.
pub open spec fn parse_usize_spec(s: Seq<char>) -> Option<usize> {
    let d = sign_stripped(s);
    if d.len() > 0 && all_digits(d) && decimal_value(d) <= usize::MAX {
        Some(decimal_value(d) as usize)
    } else {
        None
    }
}

pub proof fn lemma_decimal_nonneg(s: Seq<char>)
    requires
        forall|i: int| 0 <= i < s.len() ==> is_digit(#[trigger] s[i]),
    ensures
        decimal_value(s) >= 0,
        s.len() > 0 ==> decimal_value(s) >= decimal_value(s.drop_last()),
    decreases s.len(),
{
    if s.len() > 0 {
        lemma_decimal_nonneg(s.drop_last());
    }
}

/// `str::parse::<usize>`.
pub fn parse_usize(s: &str) -> (r: Option<usize>)
    ensures
        r == parse_usize_spec(s@),
{
    let v = chars_of(s);
    let start: usize = if v.len() > 0 && v[0] == '+' { 1 } else { 0 };
    let ghost d = sign_stripped(s@);
    proof {
        assert(d =~= v@.skip(start as int));
    }
    if start >= v.len() {
        return None;
    }
    let mut value: usize = 0;
    let mut i: usize = start;
    while i < v.len()
        invariant
            v@ == s@,
            start <= i <= v@.len(),
            d == v@.skip(start as int),
            d == sign_stripped(s@),
            forall|j: int| start <= j < i ==> is_digit(#[trigger] v@[j]),
            value == decimal_value(v@.subrange(start as int, i as int)),
        decreases v@.len() - i,
    {
        let c = v[i];
        if !('0' <= c && c <= '9') {
            proof {
                assert(d[i - start] == c);
                assert(!is_digit(d[i - start]));
                assert(!all_digits(d));
            }
            return None;
        }
        let digit = (c as u32 - '0' as u32) as usize;
        proof {
            assert(v@.subrange(start as int, i + 1).drop_last() =~= v@.subrange(start as int, i as int));
        }
        if value > (usize::MAX - digit) / 10 {
            proof {
                let m = usize::MAX as int;
                let vv = value as int;
                let dd = digit as int;
                assert(vv * 10 + dd > m) by (nonlinear_arith)
                    requires
                        vv > (m - dd) / 10,
                        0 <= dd <= 9,
                        m > 9,
                ;
                // the rest of the digits only make the value larger
                assert(v@.subrange(start as int, i + 1) =~= d.take(i - start + 1));
                assert(decimal_value(v@.subrange(start as int, i + 1)) == vv * 10 + dd);
                lemma_too_large(d, (i - start) as int);
            }
            return None;
        }
        proof {
            let m = usize::MAX as int;
            let vv = value as int;
            let dd = digit as int;
            assert(vv * 10 + dd <= m) by (nonlinear_arith)
                requires
                    vv <= (m - dd) / 10,
                    0 <= dd <= 9,
                    m > 9,
            ;
        }
        value = value * 10 + digit;
        i = i + 1;
    }
    proof {
        assert(v@.subrange(start as int, v@.len() as int) =~= d);
    }
    Some(value)
}

/// Digits after a prefix whose value is already too large keep it too large.
proof fn lemma_too_large(d: Seq<char>, k: int)
    requires
        0 <= k < d.len(),
        decimal_value(d.take(k + 1)) > usize::MAX,
    ensures
        all_digits(d) ==> decimal_value(d) > usize::MAX,
    decreases d.len() - k,
{
    if all_digits(d) {
        if k + 1 < d.len() {
            assert(d.take(k + 2).drop_last() =~= d.take(k + 1));
            assert(decimal_value(d.take(k + 2)) >= decimal_value(d.take(k + 1))) by {
                lemma_decimal_nonneg(d.take(k + 2));
            }
            lemma_too_large(d, k + 1);
        } else {
            assert(d.take(k + 1) =~= d);
        }
    }
}

/// A line without the carriage return that ended it, if any.
pub open spec fn strip_cr(p: Seq<char>) -> Seq<char> {
    if p.len() > 0 && p.last() == '\r' { p.drop_last() } else { p }
}

/// The lines of `s` as `str::lines` gives them: the pieces between line
/// feeds, each without a carriage return before its line feed, and the last
/// piece only when it is not empty.
pub open spec fn lines_spec(s: Seq<char>) -> Seq<Seq<char>> {
    let parts = split_spec(s, '\n');
    let n = parts.len();
    let ended = Seq::new((n - 1) as nat, |i: int| strip_cr(parts[i]));
    if parts[n - 1].len() > 0 { ended.push(parts[n - 1]) } else { ended }
}

/// `str::lines`, collected.
pub fn lines_of(s: &str) -> (r: Vec<String>)
    ensures
        r@.len() == lines_spec(s@).len(),
        forall|i: int| 0 <= i < r@.len() ==> (#[trigger] r@[i])@ == lines_spec(s@)[i],
{
    let parts = split_char(s, '\n');
    proof {
        lemma_split_nonempty(s@, '\n');
    }
    let ghost sp = split_spec(s@, '\n');
    let n = parts.len();
    let mut out: Vec<String> = Vec::new();
    let mut i: usize = 0;
    while i + 1 < n
        invariant
            n == parts@.len(),
            n == sp.len(),
            n >= 1,
            sp == split_spec(s@, '\n'),
            forall|j: int| 0 <= j < n ==> (#[trigger] parts@[j])@ == sp[j],
            i + 1 <= n,
            out@.len() == i,
            forall|j: int| 0 <= j < i ==> (#[trigger] out@[j])@ == strip_cr(sp[j]),
        decreases n - i,
    {
        let p = crate::text::chars_of(parts[i].as_str());
        let line = if p.len() > 0 && p[p.len() - 1] == '\r' {
            crate::text::string_of(vstd::slice::slice_subrange(p.as_slice(), 0, p.len() - 1))
        } else {
            crate::text::string_of(p.as_slice())
        };
        proof {
            assert(p@ == sp[i as int]);
            if p@.len() > 0 && p@.last() == '\r' {
                assert(line@ =~= strip_cr(sp[i as int]));
            }
        }
        out.push(line);
        i = i + 1;
    }
    let last = &parts[n - 1];
    if !last.as_str().is_empty() {
        out.push(last.clone());
    }
    proof {
        let want = lines_spec(s@);
        assert(out@.len() == want.len());
        assert forall|j: int| 0 <= j < out@.len() implies (#[trigger] out@[j])@ == want[j] by {
            if j < n - 1 {
                assert(want[j] == strip_cr(sp[j]));
            }
        }
    }
    out
}

} // verus!
