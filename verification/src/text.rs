//! Character-level helpers over `String` and `str`, built on the few std
//! functions whose behaviour vstd does not describe.

use vstd::prelude::*;
use vstd::string::StringSliceAdditionalSpecFns;

verus! {

/// Whether `c` has the Unicode `White_Space` property, which is what
/// `char::is_whitespace` tells: the tab, line feed, vertical tab, form feed
/// and carriage return, the space, the next-line character, the no-break
/// space, the Ogham space mark, the spaces from U+2000 to U+200A, the line
/// and paragraph separators, the narrow no-break space, the medium
/// mathematical space and the ideographic space.
pub open spec fn unicode_whitespace(c: char) -> bool {
    let n = c as u32;
    ||| 0x9 <= n <= 0xD
    ||| n == 0x20
    ||| n == 0x85
    ||| n == 0xA0
    ||| n == 0x1680
    ||| 0x2000 <= n <= 0x200A
    ||| n == 0x2028
    ||| n == 0x2029
    ||| n == 0x202F
    ||| n == 0x205F
    ||| n == 0x3000
}

/// Whether `c` has the `White_Space` property (what `char::is_whitespace`
/// tells).
pub(crate) fn is_whitespace(c: char) -> (r: bool)
    ensures
        r == unicode_whitespace(c),
{
    let n = c as u32;
    (0x9 <= n && n <= 0xD) || n == 0x20 || n == 0x85 || n == 0xA0 || n == 0x1680 || (0x2000 <= n && n <= 0x200A)
        || n == 0x2028 || n == 0x2029 || n == 0x202F || n == 0x205F || n == 0x3000
}

/// The characters of `s`, in order (`str::chars` collected).
#[verifier::external_body]
pub(crate) fn chars_of(s: &str) -> (v: Vec<char>)
    ensures
        v@ == s@,
{
    s.chars().collect()
}

/// A `String` made of the given characters (`FromIterator<char>` for `String`).
#[verifier::external_body]
pub(crate) fn string_of(cs: &[char]) -> (s: String)
    ensures
        s@ == cs@,
{
    cs.iter().collect()
}

/// `String::push`.
#[verifier::external_body]
pub(crate) fn push_char(s: &mut String, c: char)
    ensures
        final(s)@ == old(s)@.push(c),
{
    s.push(c)
}

/// `String::pop`: takes off the last character and hands it back; an empty
/// string stays empty and gives `None`.
#[verifier::external_body]
pub(crate) fn pop_char(s: &mut String) -> (r: Option<char>)
    ensures
        old(s)@.len() == 0 ==> r is None && final(s)@ == old(s)@,
        old(s)@.len() > 0 ==> r == Some(old(s)@.last()) && final(s)@ == old(s)@.drop_last(),
{
    s.pop()
}

/// The number of leading characters of `s` that are whitespace.
pub open spec fn leading_ws(s: Seq<char>) -> nat
    decreases s.len(),
{
    if s.len() > 0 && unicode_whitespace(s[0]) {
        1 + leading_ws(s.drop_first())
    } else {
        0
    }
}

/// The number of trailing characters of `s` that are whitespace.
pub open spec fn trailing_ws(s: Seq<char>) -> nat
    decreases s.len(),
{
    if s.len() > 0 && unicode_whitespace(s.last()) {
        1 + trailing_ws(s.drop_last())
    } else {
        0
    }
}

/// `s` without its leading and trailing whitespace, as `str::trim` gives it.
pub open spec fn trim_spec(s: Seq<char>) -> Seq<char> {
    let front = s.skip(leading_ws(s) as int);
    front.take(front.len() - trailing_ws(front))
}

pub proof fn lemma_leading_ws_bound(s: Seq<char>)
    ensures
        leading_ws(s) <= s.len(),
        leading_ws(s) < s.len() ==> !unicode_whitespace(s[leading_ws(s) as int]),
        forall|i: int| 0 <= i < leading_ws(s) ==> unicode_whitespace(#[trigger] s[i]),
    decreases s.len(),
{
    if s.len() > 0 && unicode_whitespace(s[0]) {
        lemma_leading_ws_bound(s.drop_first());
        assert forall|i: int| 0 <= i < leading_ws(s) implies unicode_whitespace(#[trigger] s[i]) by {
            if i > 0 {
                assert(s[i] == s.drop_first()[i - 1]);
            }
        }
    }
}

pub proof fn lemma_trailing_ws_bound(s: Seq<char>)
    ensures
        trailing_ws(s) <= s.len(),
        trailing_ws(s) < s.len() ==> !unicode_whitespace(s[s.len() - 1 - trailing_ws(s)]),
        forall|i: int| s.len() - trailing_ws(s) <= i < s.len() ==> unicode_whitespace(#[trigger] s[i]),
    decreases s.len(),
{
    if s.len() > 0 && unicode_whitespace(s.last()) {
        lemma_trailing_ws_bound(s.drop_last());
        assert forall|i: int| s.len() - trailing_ws(s) <= i < s.len() implies unicode_whitespace(#[trigger] s[i]) by {
            if i < s.len() - 1 {
                assert(s[i] == s.drop_last()[i]);
            }
        }
    }
}

/// The characters of `s` from `start` on: the first `start` ones are whitespace
/// and so is nothing at `start` if `start` is where the count stops.
proof fn lemma_leading_ws_step(s: Seq<char>, i: int)
    requires
        0 <= i <= s.len(),
        forall|j: int| 0 <= j < i ==> unicode_whitespace(#[trigger] s[j]),
        i == s.len() || !unicode_whitespace(s[i]),
    ensures
        leading_ws(s) == i,
    decreases i,
{
    if i > 0 {
        assert(unicode_whitespace(s[0]));
        lemma_leading_ws_step(s.drop_first(), i - 1);
    } else {
    }
}

proof fn lemma_trailing_ws_step(s: Seq<char>, k: int)
    requires
        0 <= k <= s.len(),
        forall|j: int| s.len() - k <= j < s.len() ==> unicode_whitespace(#[trigger] s[j]),
        k == s.len() || !unicode_whitespace(s[s.len() - 1 - k]),
    ensures
        trailing_ws(s) == k,
    decreases k,
{
    if k > 0 {
        assert(unicode_whitespace(s[s.len() - 1]));
        let t = s.drop_last();
        assert forall|j: int| t.len() - (k - 1) <= j < t.len() implies unicode_whitespace(#[trigger] t[j]) by {
            assert(t[j] == s[j]);
        }
        if k - 1 < t.len() {
            assert(t[t.len() - 1 - (k - 1)] == s[s.len() - 1 - k]);
        }
        lemma_trailing_ws_step(t, k - 1);
    }
}

/// `str::trim`, returned as an owned `String`.
pub fn trim(s: &str) -> (r: String)
    ensures
        r@ == trim_spec(s@),
{
    let cs = chars_of(s);
    let n = cs.len();
    let mut start: usize = 0;
    while start < n && is_whitespace(cs[start])
        invariant
            n == cs@.len(),
            cs@ == s@,
            start <= n,
            forall|j: int| 0 <= j < start ==> unicode_whitespace(#[trigger] cs@[j]),
        decreases n - start,
    {
        start = start + 1;
    }
    proof {
        lemma_leading_ws_step(s@, start as int);
    }
    let mut end: usize = n;
    while end > start && is_whitespace(cs[end - 1])
        invariant
            n == cs@.len(),
            cs@ == s@,
            start <= end <= n,
            forall|j: int| end <= j < n ==> unicode_whitespace(#[trigger] cs@[j]),
        decreases end,
    {
        end = end - 1;
    }
    let ghost front = s@.skip(start as int);
    proof {
        assert forall|j: int| front.len() - (n - end) <= j < front.len() implies unicode_whitespace(#[trigger] front[j]) by {
            assert(front[j] == s@[j + start]);
        }
        if (n - end) < front.len() {
            assert(front[front.len() - 1 - (n - end)] == s@[end - 1]);
        }
        lemma_trailing_ws_step(front, (n - end) as int);
    }
    let r = string_of(vstd::slice::slice_subrange(cs.as_slice(), start, end));
    proof {
        assert(r@ =~= trim_spec(s@));
    }
    r
}

/// The decimal digits of `n`, most significant first, without leading zeros.
pub open spec fn decimal(n: nat) -> Seq<char>
    decreases n,
{
    if n < 10 {
        seq![digit_char(n)]
    } else {
        decimal(n / 10).push(digit_char(n % 10))
    }
}

/// The ASCII digit for `d` (below 10).
pub open spec fn digit_char(d: nat) -> char {
    if d == 0 { '0' } else if d == 1 { '1' } else if d == 2 { '2' } else if d == 3 { '3' }
    else if d == 4 { '4' } else if d == 5 { '5' } else if d == 6 { '6' } else if d == 7 { '7' }
    else if d == 8 { '8' } else { '9' }
}

/// The ASCII digit for `d`.
fn digit_of(d: usize) -> (c: char)
    requires
        d < 10,
    ensures
        c == digit_char(d as nat),
{
    if d == 0 { '0' } else if d == 1 { '1' } else if d == 2 { '2' } else if d == 3 { '3' }
    else if d == 4 { '4' } else if d == 5 { '5' } else if d == 6 { '6' } else if d == 7 { '7' }
    else if d == 8 { '8' } else { '9' }
}

/// The number in decimal, as `usize::to_string` writes it.
pub(crate) fn usize_to_string(n: usize) -> (r: String)
    ensures
        r@ == decimal(n as nat),
    decreases n,
{
    let mut s = if n < 10 { String::new() } else { usize_to_string(n / 10) };
    push_char(&mut s, digit_of(n % 10));
    proof {
        if n < 10 {
            assert(s@ =~= seq![digit_char(n as nat)]);
        }
    }
    s
}

/// A `String`'s length in bytes is at least its number of characters, and is
/// zero only when it holds none.
pub proof fn lemma_utf8_len(cs: Seq<char>)
    ensures
        vstd::utf8::encode_utf8(cs).len() >= cs.len(),
        cs.len() > 0 ==> vstd::utf8::encode_utf8(cs).len() > 0,
    decreases cs.len(),
{
    if cs.len() > 0 {
        lemma_utf8_len(cs.drop_first());
        let sc = vstd::utf8::encode_scalar(cs[0] as u32);
        assert(sc.len() >= 1);
    }
}

/// The length in bytes of `s`, with what it bounds.
pub fn byte_len(s: &str) -> (r: usize)
    ensures
        r == s.spec_bytes().len(),
        r >= s@.len(),
        s@.len() > 0 ==> r > 0,
{
    proof {
        lemma_utf8_len(s@);
    }
    s.as_bytes().len()
}

/// What `str::to_lowercase` gives for `s` (the Unicode lowercase mapping of each character).
pub uninterp spec fn lowercase(s: Seq<char>) -> Seq<char>;

/// `str::to_lowercase`.
#[verifier::external_body]
pub(crate) fn to_lowercase(s: &str) -> (r: String)
    ensures
        r@ == lowercase(s@),
{
    s.to_lowercase()
}

} // verus!
