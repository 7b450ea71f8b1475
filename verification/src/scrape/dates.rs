//! Release dates as chapter lists show them: either a date, or an age such
//! as "3 days ago" that is turned into the date it stands for.

use vstd::prelude::*;

use crate::scrape::html::{local_date_hours_ago, regex_find, regex_first, regex_valid};
use crate::scrape::query::ScrapeError;
use crate::strs::{contains_spec, contains_str, parse_usize, parse_usize_spec};
use crate::text::{decimal, push_char, usize_to_string};

verus! {

/// The pattern of a run of digits.
pub open spec fn digits_pattern() -> Seq<char> {
    "\\d+"@
}

/// How many hours back an age of `n` units is, by the unit the text names.
pub open spec fn age_unit_hours(raw: Seq<char>, n: int) -> Option<int> {
    if contains_spec(raw, "hours ago"@) || contains_spec(raw, "hour ago"@) {
        Some(n)
    } else if contains_spec(raw, "days ago"@) || contains_spec(raw, "day ago"@) {
        Some(24 * n)
    } else if contains_spec(raw, "months ago"@) || contains_spec(raw, "month ago"@) {
        Some(24 * (30 * n))
    } else {
        None
    }
}

/// The age a release text gives, in hours, when it gives one: the text says
/// "ago", holds a number, and names hours, days or months (a month being 30 days).
pub open spec fn age_hours(raw: Seq<char>) -> Option<int> {
    if !contains_spec(raw, "ago"@) {
        None
    } else {
        match regex_first(digits_pattern(), raw) {
            None => None,
            Some(d) => match parse_usize_spec(d) {
                None => None,
                Some(n) => age_unit_hours(raw, n as int),
            },
        }
    }
}

/// Reading the age can be done: the pattern is valid, the number fits an
/// `i64`, and so do the products that turn it into hours (days and months are
/// counted in seconds by the calendar, so the hours must fit in seconds too).
pub open spec fn age_readable(raw: Seq<char>) -> bool {
    contains_spec(raw, "ago"@) ==> {
        &&& regex_valid(digits_pattern())
        &&& regex_first(digits_pattern(), raw) matches Some(d) ==> {
            &&& parse_usize_spec(d) is Some
            &&& parse_usize_spec(d)->0 <= i64::MAX
            &&& age_unit_hours(raw, parse_usize_spec(d)->0 as int) matches Some(h) ==> h <= i64::MAX
        }
    }
}

/// The age in hours a release text gives, if it gives one.
pub fn release_age(raw: &str) -> (r: Result<Option<i64>, ScrapeError>)
    ensures
        r is Ok <==> age_readable(raw@),
        r matches Ok(o) ==> match o {
            Some(h) => age_hours(raw@) == Some(h as int),
            None => age_hours(raw@) is None,
        },
{
    if !contains_str(raw, "ago") {
        return Ok(None);
    }
    let found = match regex_find("\\d+", raw) {
        Some(f) => f,
        None => {
            return Err(ScrapeError::BadPattern);
        },
    };
    let digits = match found {
        Some(d) => d,
        None => {
            return Ok(None);
        },
    };
    let n = match parse_usize(digits.as_str()) {
        Some(n) => n,
        None => {
            return Err(ScrapeError::BadNumber);
        },
    };
    if n as u64 > 9223372036854775807u64 {
        return Err(ScrapeError::BadNumber);
    }
    let n = n as i64;
    proof {
        let m = i64::MAX as int;
        let x = n as int;
        assert(x > m / 24 <==> 24 * x > m) by (nonlinear_arith)
            requires
                x >= 0,
                m > 0,
        ;
        assert(x > m / 720 <==> 24 * (30 * x) > m) by (nonlinear_arith)
            requires
                x >= 0,
                m > 0,
        ;
    }
    if contains_str(raw, "hours ago") || contains_str(raw, "hour ago") {
        Ok(Some(n))
    } else if contains_str(raw, "days ago") || contains_str(raw, "day ago") {
        if n > i64::MAX / 24 {
            return Err(ScrapeError::BadDate);
        }
        Ok(Some(24 * n))
    } else if contains_str(raw, "months ago") || contains_str(raw, "month ago") {
        if n > i64::MAX / 720 {
            return Err(ScrapeError::BadDate);
        }
        Ok(Some(24 * (30 * n)))
    } else {
        Ok(None)
    }
}

/// `s` with zeros in front up to `n` characters.
pub open spec fn zero_pad(s: Seq<char>, n: nat) -> Seq<char> {
    if s.len() >= n { s } else { Seq::new((n - s.len()) as nat, |i: int| '0') + s }
}

/// A year as a calendar writes it with `%Y`: four digits from 0 to 9999,
/// else with its sign, four digits at least.
pub open spec fn year_text(y: int) -> Seq<char> {
    if 0 <= y <= 9999 {
        zero_pad(decimal(y as nat), 4)
    } else if y > 9999 {
        "+"@ + decimal(y as nat)
    } else {
        "-"@ + zero_pad(decimal((-y) as nat), 4)
    }
}

/// A date written `%Y-%m-%d`.
pub open spec fn ymd_text(y: int, m: nat, d: nat) -> Seq<char> {
    year_text(y) + "-"@ + zero_pad(decimal(m), 2) + "-"@ + zero_pad(decimal(d), 2)
}

/// The decimal digits of `n`, with zeros in front up to `width` characters.
fn padded(n: u64, width: usize) -> (r: String)
    ensures
        r@ == zero_pad(decimal(n as nat), width as nat),
{
    let digits = usize_to_string_u64(n);
    let mut out = String::new();
    let len = digits.as_str().unicode_len();
    let mut k: usize = len;
    while k < width
        invariant
            len == digits@.len(),
            len <= k,
            k <= width || len >= width,
            len >= width ==> k == len,
            out@ == Seq::new((k - len) as nat, |i: int| '0'),
        decreases width - k,
    {
        push_char(&mut out, '0');
        proof {
            assert(out@ =~= Seq::new((k + 1 - len) as nat, |i: int| '0'));
        }
        k = k + 1;
    }
    out.append(digits.as_str());
    proof {
        if len >= width {
            assert(out@ =~= digits@);
        }
    }
    out
}

/// The decimal digits of a `u64`.
fn usize_to_string_u64(n: u64) -> (r: String)
    ensures
        r@ == decimal(n as nat),
    decreases n,
{
    if n <= usize::MAX as u64 {
        usize_to_string(n as usize)
    } else {
        let high = usize_to_string_u64(n / 10);
        let mut s = high;
        let d = (n % 10) as usize;
        s.append(usize_to_string(d).as_str());
        proof {
            assert(decimal(d as nat) =~= seq![crate::text::digit_char(d as nat)]);
        }
        s
    }
}

/// Writes a date `%Y-%m-%d`.
pub fn format_ymd(y: i32, m: u32, d: u32) -> (r: String)
    ensures
        r@ == ymd_text(y as int, m as nat, d as nat),
{
    let mut s = if 0 <= y && y <= 9999 {
        padded(y as u64, 4)
    } else if y > 9999 {
        let mut t = String::from_str("+");
        t.append(padded(y as u64, 0).as_str());
        proof {
            assert(zero_pad(decimal(y as nat), 0) == decimal(y as nat));
        }
        t
    } else {
        let mut t = String::from_str("-");
        let magnitude = (-(y as i64)) as u64;
        t.append(padded(magnitude, 4).as_str());
        t
    };
    s.append("-");
    s.append(padded(m as u64, 2).as_str());
    s.append("-");
    s.append(padded(d as u64, 2).as_str());
    s
}

/// `t` is a release date the text `raw` can stand for: the text itself when
/// it gives no age; for an age, a date written `%Y-%m-%d` with a month from 1
/// to 12 and a day from 1 to 31.
pub open spec fn dated_as(raw: Seq<char>, t: Seq<char>) -> bool {
    match age_hours(raw) {
        None => t == raw,
        Some(_) => exists|y: i32, m: u32, d: u32|
            1 <= m <= 12 && 1 <= d <= 31 && t == #[trigger] ymd_text(y as int, m as nat, d as nat),
    }
}

/// The release date a chapter list shows: the text itself, or, for an age,
/// the local date that many hours (days, 30-day months) before now, written
/// by `format_ymd`. Which date that is is not stated, since it depends on
/// the clock; a date out of the calendar's range gives `BadDate`.
pub fn release_date(raw: &str) -> (r: Result<String, ScrapeError>)
    ensures
        !age_readable(raw@) ==> r is Err,
        age_readable(raw@) && age_hours(raw@) is None ==> (r matches Ok(t) && t@ == raw@),
        age_readable(raw@) && age_hours(raw@) is Some ==> (r is Ok || r == Err::<String, ScrapeError>(ScrapeError::BadDate)),
        r matches Ok(t) ==> dated_as(raw@, t@),
{
    match release_age(raw) {
        Err(e) => Err(e),
        Ok(None) => Ok(String::from_str(raw)),
        Ok(Some(hours)) => match local_date_hours_ago(hours) {
            None => Err(ScrapeError::BadDate),
            Some((y, m, d)) => Ok(format_ymd(y, m, d)),
        },
    }
}

} // verus!
