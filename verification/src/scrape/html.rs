//! The queries the scraping rules make of a web page, answered by the
//! `scraper` crate (HTML parsing and CSS selectors), `regex` and `chrono`.

use chrono::Datelike;
use vstd::prelude::*;

verus! {

/// Whether `scraper::Selector::parse` accepts `css`.
pub uninterp spec fn css_valid(css: Seq<char>) -> bool;

/// The number of elements of the document `doc` that the selector `css` matches.
pub uninterp spec fn html_count(doc: Seq<char>, css: Seq<char>) -> nat;

/// The text (all text nodes, in order) of each element of the document `doc`
/// that the selector `css` matches, in the order `Html::select` yields them (the order the parsed nodes are held in).
pub uninterp spec fn html_texts(doc: Seq<char>, css: Seq<char>) -> Seq<Seq<char>>;

/// The inner HTML of each element of `doc` matching `css`, in the order `Html::select` yields them (the order the parsed nodes are held in).
pub uninterp spec fn html_inners(doc: Seq<char>, css: Seq<char>) -> Seq<Seq<char>>;

/// The HTML of each element of `doc` matching `css` (the element itself
/// included), in the order `Html::select` yields them (the order the parsed nodes are held in).
pub uninterp spec fn html_outers(doc: Seq<char>, css: Seq<char>) -> Seq<Seq<char>>;

/// The value of attribute `attr` of each element of `doc` matching `css`, in
/// the order `Html::select` yields them (`None` where the element has no such attribute).
pub uninterp spec fn html_attrs(doc: Seq<char>, css: Seq<char>, attr: Seq<char>) -> Seq<Option<Seq<char>>>;

/// The document `doc` with every element matching `css` taken out, written
/// back as HTML.
pub uninterp spec fn html_without(doc: Seq<char>, css: Seq<char>) -> Seq<char>;

/// Whether `regex::Regex::new` accepts `pattern`.
pub uninterp spec fn regex_valid(pattern: Seq<char>) -> bool;

/// The leftmost-first match of `pattern` in `s`, if any (`Regex::find`).
pub uninterp spec fn regex_first(pattern: Seq<char>, s: Seq<char>) -> Option<Seq<char>>;

/// The strings of `v` hold the character sequences of `w`, in order.
pub open spec fn views_are(v: Seq<String>, w: Seq<Seq<char>>) -> bool {
    &&& v.len() == w.len()
    &&& forall|i: int| 0 <= i < v.len() ==> (#[trigger] v[i])@ == w[i]
}

/// The optional strings of `v` hold the optional sequences of `w`, in order.
pub open spec fn opt_views_are(v: Seq<Option<String>>, w: Seq<Option<Seq<char>>>) -> bool {
    &&& v.len() == w.len()
    &&& forall|i: int| 0 <= i < v.len() ==> match (#[trigger] v[i]) {
        Some(x) => w[i] == Some(x@),
        None => w[i] is None,
    }
}

/// Parses `doc` as an HTML document (`Html::parse_document`) and gives the
/// text of each element the selector `css` matches (`Html::select`,
/// `ElementRef::text`). `None` when `Selector::parse` refuses `css`.
#[verifier::external_body]
pub(crate) fn select_texts(doc: &str, css: &str) -> (r: Option<Vec<String>>)
    ensures
        r is Some <==> css_valid(css@),
        r matches Some(v) ==> views_are(v@, html_texts(doc@, css@)),
        r matches Some(v) ==> v@.len() == html_count(doc@, css@),
{
    let sel = scraper::Selector::parse(css).ok()?;
    let html = scraper::Html::parse_document(doc);
    Some(html.select(&sel).map(|e| e.text().collect::<String>()).collect())
}

/// As `select_texts`, giving each match's inner HTML (`ElementRef::inner_html`).
#[verifier::external_body]
pub(crate) fn select_inners(doc: &str, css: &str) -> (r: Option<Vec<String>>)
    ensures
        r is Some <==> css_valid(css@),
        r matches Some(v) ==> views_are(v@, html_inners(doc@, css@)),
        r matches Some(v) ==> v@.len() == html_count(doc@, css@),
{
    let sel = scraper::Selector::parse(css).ok()?;
    let html = scraper::Html::parse_document(doc);
    Some(html.select(&sel).map(|e| e.inner_html()).collect())
}

/// As `select_texts`, giving each match's own HTML (`ElementRef::html`).
#[verifier::external_body]
pub(crate) fn select_outers(doc: &str, css: &str) -> (r: Option<Vec<String>>)
    ensures
        r is Some <==> css_valid(css@),
        r matches Some(v) ==> views_are(v@, html_outers(doc@, css@)),
        r matches Some(v) ==> v@.len() == html_count(doc@, css@),
{
    let sel = scraper::Selector::parse(css).ok()?;
    let html = scraper::Html::parse_document(doc);
    Some(html.select(&sel).map(|e| e.html()).collect())
}

/// As `select_texts`, giving each match's attribute `attr` (`ElementRef::attr`).
#[verifier::external_body]
pub(crate) fn select_attrs(doc: &str, css: &str, attr: &str) -> (r: Option<Vec<Option<String>>>)
    ensures
        r is Some <==> css_valid(css@),
        r matches Some(v) ==> opt_views_are(v@, html_attrs(doc@, css@, attr@)),
        r matches Some(v) ==> v@.len() == html_count(doc@, css@),
{
    let sel = scraper::Selector::parse(css).ok()?;
    let html = scraper::Html::parse_document(doc);
    Some(html.select(&sel).map(|e| e.attr(attr).map(|a| a.to_string())).collect())
}

/// Parses `doc`, takes every element matching `css` out of the tree
/// (`NodeMut::detach`, as the parser's `remove_from_parent` does) and writes
/// the document back (`Html::html`). `None` when `Selector::parse` refuses `css`.
#[verifier::external_body]
pub(crate) fn remove_matching(doc: &str, css: &str) -> (r: Option<String>)
    ensures
        r is Some <==> css_valid(css@),
        r matches Some(s) ==> s@ == html_without(doc@, css@),
{
    let sel = scraper::Selector::parse(css).ok()?;
    let mut html = scraper::Html::parse_document(doc);
    let ids: Vec<_> = html.select(&sel).map(|e| e.id()).collect();
    for id in ids {
        if let Some(mut node) = html.tree.get_mut(id) {
            node.detach();
        }
    }
    Some(html.html())
}

/// The first match of `pattern` in `s` (`Regex::new`, `Regex::find`,
/// `Match::as_str`). `None` when `Regex::new` refuses the pattern.
#[verifier::external_body]
pub(crate) fn regex_find(pattern: &str, s: &str) -> (r: Option<Option<String>>)
    ensures
        r is Some <==> regex_valid(pattern@),
        r matches Some(m) ==> match m {
            Some(x) => regex_first(pattern@, s@) == Some(x@),
            None => regex_first(pattern@, s@) is None,
        },
{
    let re = regex::Regex::new(pattern).ok()?;
    Some(re.find(s).map(|m| m.as_str().to_string()))
}

/// The local calendar date (year, month, day) `hours` hours before now
/// (`chrono::Local::now`, `TimeDelta::try_hours`, `DateTime::checked_sub_signed`,
/// `Datelike`). `None` when the duration or the date is out of chrono's range.
/// Nothing ties the date to the arguments: it depends on the clock and the
/// machine's time zone; the month is from 1 to 12 and the day from 1 to 31.
#[verifier::external_body]
pub(crate) fn local_date_hours_ago(hours: i64) -> (r: Option<(i32, u32, u32)>)
    ensures
        r matches Some((y, m, d)) ==> 1 <= m <= 12 && 1 <= d <= 31,
{
    let delta = chrono::TimeDelta::try_hours(hours)?;
    let when = chrono::Local::now().checked_sub_signed(delta)?;
    Some((when.year(), when.month(), when.day()))
}

} // verus!
