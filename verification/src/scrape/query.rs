//! The first match of a selector, and what a scraper does when a page lacks
//! what it looks for.

use vstd::prelude::*;

use crate::scrape::html::{
    css_valid, html_attrs, html_outers, html_texts, select_attrs, select_outers, select_texts,
};
use crate::strs::{contains_spec, contains_str};
use crate::text::{trim, trim_spec};

verus! {

/// Why a page could not be read.
#[derive(Debug, Clone, Copy, PartialEq, Eq, Structural)]
pub enum ScrapeError {
    /// The CSS selector parser refused one of the rules' selectors.
    BadSelector,
    /// The regular expression parser refused the rules' pattern.
    BadPattern,
    /// The page lacks an element the rules need.
    MissingElement,
    /// A link the rules need is missing or not shaped as expected.
    BadLink,
    /// A number on the page does not fit.
    BadNumber,
    /// A date on the page is out of the calendar's range.
    BadDate,
}

/// The text of the first element of `doc` matching `css`, if any.
pub open spec fn first_text(doc: Seq<char>, css: Seq<char>) -> Option<Seq<char>> {
    let t = html_texts(doc, css);
    if t.len() > 0 { Some(t[0]) } else { None }
}

/// The HTML of the first element of `doc` matching `css`, if any.
pub open spec fn first_outer(doc: Seq<char>, css: Seq<char>) -> Option<Seq<char>> {
    let t = html_outers(doc, css);
    if t.len() > 0 { Some(t[0]) } else { None }
}

/// The attribute `attr` of the first element of `doc` matching `css`, if that
/// element exists and has it.
pub open spec fn first_attr(doc: Seq<char>, css: Seq<char>, attr: Seq<char>) -> Option<Seq<char>> {
    let t = html_attrs(doc, css, attr);
    if t.len() > 0 { t[0] } else { None }
}

/// The trimmed text of the first element of `doc` matching `css`, if any.
pub open spec fn first_trimmed(doc: Seq<char>, css: Seq<char>) -> Option<Seq<char>> {
    match first_text(doc, css) {
        Some(t) => Some(trim_spec(t)),
        None => None,
    }
}

/// The trimmed text of the first match, or the empty text when there is none.
pub open spec fn first_trimmed_or_empty(doc: Seq<char>, css: Seq<char>) -> Seq<char> {
    match first_text(doc, css) {
        Some(t) => trim_spec(t),
        None => Seq::empty(),
    }
}

/// The text of the first element of `doc` matching `css`.
pub fn text_of_first(doc: &str, css: &str) -> (r: Result<Option<String>, ScrapeError>)
    ensures
        r is Ok <==> css_valid(css@),
        r matches Ok(o) ==> match o {
            Some(t) => first_text(doc@, css@) == Some(t@),
            None => first_text(doc@, css@) is None,
        },
        r matches Err(e) ==> e == ScrapeError::BadSelector,
{
    match select_texts(doc, css) {
        None => Err(ScrapeError::BadSelector),
        Some(mut v) => {
            if v.len() == 0 {
                Ok(None)
            } else {
                let t = v.remove(0);
                Ok(Some(t))
            }
        },
    }
}

/// The trimmed text of the first element of `doc` matching `css`; the page
/// must have one.
pub fn trimmed_text_of_first(doc: &str, css: &str) -> (r: Result<String, ScrapeError>)
    ensures
        r is Ok <==> css_valid(css@) && first_text(doc@, css@) is Some,
        r matches Ok(t) ==> first_trimmed(doc@, css@) == Some(t@),
        r matches Err(e) ==> (e == ScrapeError::BadSelector <==> !css_valid(css@)),
        r matches Err(e) ==> e == ScrapeError::BadSelector || e == ScrapeError::MissingElement,
{
    match text_of_first(doc, css) {
        Err(e) => Err(e),
        Ok(None) => Err(ScrapeError::MissingElement),
        Ok(Some(t)) => Ok(trim(t.as_str())),
    }
}

/// The trimmed text of the first element of `doc` matching `css`, or the
/// empty text when there is none.
pub fn trimmed_text_or_empty(doc: &str, css: &str) -> (r: Result<String, ScrapeError>)
    ensures
        r is Ok <==> css_valid(css@),
        r matches Ok(t) ==> t@ == first_trimmed_or_empty(doc@, css@),
        r matches Err(e) ==> e == ScrapeError::BadSelector,
{
    match text_of_first(doc, css) {
        Err(e) => Err(e),
        Ok(None) => Ok(String::new()),
        Ok(Some(t)) => Ok(trim(t.as_str())),
    }
}

/// The HTML of the first element of `doc` matching `css`.
pub fn outer_of_first(doc: &str, css: &str) -> (r: Result<Option<String>, ScrapeError>)
    ensures
        r is Ok <==> css_valid(css@),
        r matches Ok(o) ==> match o {
            Some(t) => first_outer(doc@, css@) == Some(t@),
            None => first_outer(doc@, css@) is None,
        },
        r matches Err(e) ==> e == ScrapeError::BadSelector,
{
    match select_outers(doc, css) {
        None => Err(ScrapeError::BadSelector),
        Some(mut v) => {
            if v.len() == 0 {
                Ok(None)
            } else {
                let t = v.remove(0);
                Ok(Some(t))
            }
        },
    }
}

/// The attribute `attr` of the first element of `doc` matching `css`.
pub fn attr_of_first(doc: &str, css: &str, attr: &str) -> (r: Result<Option<String>, ScrapeError>)
    ensures
        r is Ok <==> css_valid(css@),
        r matches Ok(o) ==> match o {
            Some(t) => first_attr(doc@, css@, attr@) == Some(t@),
            None => first_attr(doc@, css@, attr@) is None,
        },
        r matches Err(e) ==> e == ScrapeError::BadSelector,
{
    match select_attrs(doc, css, attr) {
        None => Err(ScrapeError::BadSelector),
        Some(mut v) => {
            if v.len() == 0 {
                Ok(None)
            } else {
                let t = v.remove(0);
                Ok(t)
            }
        },
    }
}

/// The first element of a sequence, if any.
pub open spec fn head<A>(s: Seq<A>) -> Option<A> {
    if s.len() > 0 { Some(s[0]) } else { None }
}

/// Whether `text` is a page a site serves when it blocks scrapers (a
/// Cloudflare check) rather than the page asked for.
pub open spec fn blocked_spec(text: Seq<char>) -> bool {
    ||| contains_spec(text, "Enable JavaScript and cookies to continue"@)
    ||| contains_spec(text, "Checking if the site connection is secure"@)
    ||| contains_spec(text, "Verify below to continue reading"@)
}

/// Whether a fetched page is a check page put in front of the site.
pub fn blocked_page(text: &str) -> (r: bool)
    ensures
        r == blocked_spec(text@),
{
    contains_str(text, "Enable JavaScript and cookies to continue")
        || contains_str(text, "Checking if the site connection is secure")
        || contains_str(text, "Verify below to continue reading")
}

} // verus!
