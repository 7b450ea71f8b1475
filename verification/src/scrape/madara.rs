//! The rules for sites built on the Madara WordPress theme.

use vstd::prelude::*;

use crate::scrape::html::{css_valid, html_outers, html_texts, remove_matching, select_outers, select_texts, html_without, views_are};
use crate::scrape::query::{
    attr_of_first, first_attr, first_outer, first_text, first_trimmed, first_trimmed_or_empty,
    outer_of_first, text_of_first, trimmed_text_of_first, trimmed_text_or_empty, ScrapeError,
};
use crate::sources::chapter::{Chapter, ChapterPreview};
use crate::sources::novel::{Novel, NovelPreview, NovelStatus};
use crate::sources::source::{MadaraPaths, MadaraScraper, SortOrder, SourceID};
use crate::strs::{contains_spec, contains_str, replace_chars, replace_chars_spec, split_char, split_spec};
use crate::text::{decimal, trim, trim_spec, usize_to_string};

verus! {

/// The paths the scraper uses: its own, or the default ones.
pub open spec fn paths_of(s: MadaraScraper) -> (Seq<char>, Seq<char>, Seq<char>) {
    match s.path {
        Some(p) => (p.novels@, p.novel@, p.chapter@),
        None => ("novel"@, "novel"@, "novel"@),
    }
}

/// The query that sorts a novel list.
pub open spec fn order_query(order: SortOrder) -> Seq<char> {
    match order {
        SortOrder::Latest => "?m_orderby=latest"@,
        SortOrder::Rating => "?m_orderby=rating"@,
    }
}

/// Piece `k` of a link split at its slashes, if it has that many.
pub open spec fn link_piece(href: Seq<char>, k: int) -> Option<Seq<char>> {
    let p = split_spec(href, '/');
    if 0 <= k < p.len() { Some(p[k]) } else { None }
}

/// The link of the first `a` in the first `.post-title` of a novel's entry.
pub open spec fn title_link(item: Seq<char>) -> Option<Seq<char>> {
    match first_outer(item, ".post-title"@) {
        Some(t) => first_attr(t, "a"@, "href"@),
        None => None,
    }
}

/// The novel's path in a link to it: the fifth piece of the link.
pub open spec fn entry_path(item: Seq<char>) -> Option<Seq<char>> {
    match title_link(item) {
        Some(h) => link_piece(h, 4),
        None => None,
    }
}

/// A novel entry of a list page yields a name and a path.
pub open spec fn entry_ok(item: Seq<char>) -> bool {
    &&& first_text(item, ".post-title"@) is Some
    &&& entry_path(item) is Some
}

/// `p` is the preview the entry `item` gives for source `source`.
pub open spec fn entry_preview(p: NovelPreview, source: SourceID, item: Seq<char>) -> bool {
    &&& p.source == source
    &&& first_trimmed(item, ".post-title"@) == Some(p.name@)
    &&& entry_path(item) == Some(p.url@)
}

/// The selectors the list pages need.
pub open spec fn list_selectors_valid() -> bool {
    &&& css_valid(".post-title"@)
    &&& css_valid("a"@)
}

/// `v` holds one preview per entry of `items`, in order.
pub open spec fn previews_of(v: Seq<NovelPreview>, source: SourceID, items: Seq<Seq<char>>) -> bool {
    &&& v.len() == items.len()
    &&& forall|i: int| 0 <= i < v.len() ==> entry_preview(#[trigger] v[i], source, items[i])
}

/// The piece `k` of a link, split at its slashes.
fn piece_of(href: &str, k: usize) -> (r: Option<String>)
    ensures
        match r {
            Some(t) => link_piece(href@, k as int) == Some(t@),
            None => link_piece(href@, k as int) is None,
        },
{
    let mut parts = split_char(href, '/');
    if k < parts.len() {
        Some(parts.remove(k))
    } else {
        None
    }
}

/// The preview a novel entry of a list page gives: the trimmed text of its
/// `.post-title`, and the fifth piece of the link in it.
pub fn entry_to_preview(source: SourceID, item: &str) -> (r: Result<NovelPreview, ScrapeError>)
    ensures
        r is Ok <==> list_selectors_valid() && entry_ok(item@),
        r matches Ok(p) ==> entry_preview(p, source, item@),
{
    let name = match trimmed_text_of_first(item, ".post-title") {
        Ok(n) => n,
        Err(e) => {
            return Err(e);
        },
    };
    let title = match outer_of_first(item, ".post-title") {
        Ok(Some(t)) => t,
        Ok(None) => {
            return Err(ScrapeError::MissingElement);
        },
        Err(e) => {
            return Err(e);
        },
    };
    let href = match attr_of_first(title.as_str(), "a", "href") {
        Ok(Some(h)) => h,
        Ok(None) => {
            return Err(ScrapeError::BadLink);
        },
        Err(e) => {
            return Err(e);
        },
    };
    match piece_of(href.as_str(), 4) {
        Some(url) => Ok(NovelPreview { source, name, url }),
        None => Err(ScrapeError::BadLink),
    }
}

/// The previews of all the entries, in order.
pub fn entries_to_previews(source: SourceID, items: &Vec<String>) -> (r: Result<Vec<NovelPreview>, ScrapeError>)
    ensures
        r is Ok <==> (items@.len() == 0 || list_selectors_valid()) && forall|i: int| 0 <= i < items@.len() ==> entry_ok(#[trigger] items@[i]@),
        r matches Ok(v) ==> v@.len() == items@.len() && forall|i: int| 0 <= i < v@.len() ==> entry_preview(
            #[trigger] v@[i],
            source,
            items@[i]@,
        ),
{
    let mut out: Vec<NovelPreview> = Vec::new();
    let mut i: usize = 0;
    while i < items.len()
        invariant
            i <= items@.len(),
            out@.len() == i,
            list_selectors_valid() || i == 0,
            forall|j: int| 0 <= j < i ==> entry_ok(#[trigger] items@[j]@),
            forall|j: int| 0 <= j < i ==> entry_preview(#[trigger] out@[j], source, items@[j]@),
        decreases items@.len() - i,
    {
        match entry_to_preview(source, items[i].as_str()) {
            Ok(p) => {
                out.push(p);
            },
            Err(e) => {
                return Err(e);
            },
        }
        i = i + 1;
    }
    Ok(out)
}

/// The same characters.
pub fn same_text(a: &str, b: &str) -> (r: bool)
    ensures
        r == (a@ == b@),
{
    String::from_str(a) == String::from_str(b)
}

/// What a novel's page gives before its chapters are fetched.
#[derive(Debug)]
pub struct NovelPage {
    pub full_url: String,
    pub name: String,
    pub author: String,
    pub status: NovelStatus,
    pub genres: String,
    pub summary: String,
    pub request: ChapterRequest,
}

/// How a novel's chapter list is fetched: by posting to the novel's own
/// endpoint, or to the site's admin endpoint with the novel's id.
#[derive(Debug)]
pub enum ChapterRequest {
    /// Post to this URL with no body.
    Novel { url: String },
    /// Post to this URL a form with `action` `manga_get_chapters` and `manga` the id.
    Admin { url: String, novel_id: String },
}

/// The novel's details so far, as (genres, author, status).
pub type Details = (Seq<char>, Seq<char>, NovelStatus);

/// What one detail of a novel's page changes: its name (the `h5`) says which
/// detail its value (the `.summary-content`) gives.
pub open spec fn detail_step(acc: Details, name: Seq<char>, value: Seq<char>) -> Details {
    if name == "Genre(s)"@ {
        (replace_chars_spec(value, '\t', '\n', ","@), acc.1, acc.2)
    } else if name == "Author(s)"@ {
        (acc.0, value, acc.2)
    } else if name == "Status"@ {
        (acc.0, acc.1, if contains_spec(value, "OnGoing"@) { NovelStatus::Ongoing } else { NovelStatus::Completed })
    } else {
        acc
    }
}

/// A detail block of a novel's page has a name and a value.
pub open spec fn detail_ok(item: Seq<char>) -> bool {
    &&& first_text(item, "h5"@) is Some
    &&& first_text(item, ".summary-content"@) is Some
}

/// The details the blocks give, the later ones overriding the earlier.
pub open spec fn details_fold(items: Seq<Seq<char>>) -> Details
    decreases items.len(),
{
    if items.len() == 0 {
        (Seq::empty(), Seq::empty(), NovelStatus::Unknown)
    } else {
        let it = items.last();
        detail_step(
            details_fold(items.drop_last()),
            first_trimmed(it, "h5"@)->0,
            first_trimmed(it, ".summary-content"@)->0,
        )
    }
}

/// The characters of the strings, in order.
pub open spec fn views(v: Seq<String>) -> Seq<Seq<char>> {
    v.map_values(|s: String| s@)
}

/// Reads the detail blocks of a novel's page.
pub fn read_details(items: &Vec<String>) -> (r: Result<(String, String, NovelStatus), ScrapeError>)
    ensures
        r is Ok <==> (items@.len() == 0 || (css_valid("h5"@) && css_valid(".summary-content"@)))
            && forall|i: int| 0 <= i < items@.len() ==> detail_ok(#[trigger] items@[i]@),
        r matches Ok((g, a, st)) ==> (g@, a@, st) == details_fold(views(items@)),
{
    let mut genres = String::new();
    let mut author = String::new();
    let mut status = NovelStatus::Unknown;
    let ghost vs = views(items@);
    let mut i: usize = 0;
    while i < items.len()
        invariant
            i <= items@.len(),
            vs == views(items@),
            i == 0 || (css_valid("h5"@) && css_valid(".summary-content"@)),
            forall|j: int| 0 <= j < i ==> detail_ok(#[trigger] items@[j]@),
            (genres@, author@, status) == details_fold(vs.take(i as int)),
        decreases items@.len() - i,
    {
        let item = items[i].as_str();
        let name = match trimmed_text_of_first(item, "h5") {
            Ok(n) => n,
            Err(e) => {
                return Err(e);
            },
        };
        let value = match trimmed_text_of_first(item, ".summary-content") {
            Ok(v) => v,
            Err(e) => {
                return Err(e);
            },
        };
        proof {
            assert(vs.take(i + 1).drop_last() =~= vs.take(i as int));
            assert(vs.take(i + 1).last() == items@[i as int]@);
        }
        if same_text(name.as_str(), "Genre(s)") {
            genres = replace_chars(value.as_str(), '\t', '\n', ",");
        } else if same_text(name.as_str(), "Author(s)") {
            author = value;
        } else if same_text(name.as_str(), "Status") {
            status = if contains_str(value.as_str(), "OnGoing") {
                NovelStatus::Ongoing
            } else {
                NovelStatus::Completed
            };
        }
        i = i + 1;
    }
    proof {
        assert(vs.take(items@.len() as int) =~= vs);
    }
    Ok((genres, author, status))
}

impl MadaraScraper {
    /// The page listing the site's novels: `page` of the list, in the given order.
    pub fn popular_url(&self, order: SortOrder, page: usize) -> (r: String)
        ensures
            r@ == self.base_url@ + paths_of(*self).0 + "/page/"@ + decimal(page as nat) + order_query(order),
    {
        let sort_order = match order {
            SortOrder::Latest => "?m_orderby=latest",
            SortOrder::Rating => "?m_orderby=rating",
        };
        let mut url = self.base_url.clone();
        match &self.path {
            Some(p) => url.append(p.novels.as_str()),
            None => url.append("novel"),
        }
        url.append("/page/");
        url.append(usize_to_string(page).as_str());
        url.append(sort_order);
        url
    }

    /// The novels a list page shows: the entries (`.page-item-detail`) of
    /// the page without its badges (`.manga-title-badges`).
    pub fn parse_popular(&self, page: &str) -> (r: Result<Vec<NovelPreview>, ScrapeError>)
        ensures
            ({
                let items = html_outers(html_without(page@, ".manga-title-badges"@), ".page-item-detail"@);
                &&& r is Ok <==> css_valid(".manga-title-badges"@) && css_valid(".page-item-detail"@)
                    && (items.len() == 0 || list_selectors_valid())
                    && forall|i: int| 0 <= i < items.len() ==> entry_ok(#[trigger] items[i])
                &&& r matches Ok(v) ==> previews_of(v@, self.source_id, items)
            }),
    {
        let cleaned = match remove_matching(page, ".manga-title-badges") {
            Some(c) => c,
            None => {
                return Err(ScrapeError::BadSelector);
            },
        };
        let items = match select_outers(cleaned.as_str(), ".page-item-detail") {
            Some(v) => v,
            None => {
                return Err(ScrapeError::BadSelector);
            },
        };
        let r = entries_to_previews(self.source_id, &items);
        proof {
            let want = html_outers(html_without(page@, ".manga-title-badges"@), ".page-item-detail"@);
            assert forall|i: int| 0 <= i < want.len() implies #[trigger] want[i] == items@[i]@ by {
                assert(views_are(items@, want));
            }
        }
        r
    }

    /// The search page for `search_term`.
    pub fn search_url(&self, search_term: &str) -> (r: String)
        ensures
            r@ == self.base_url@ + "?s="@ + search_term@ + "&post_type=wp-manga"@,
    {
        let mut url = self.base_url.clone();
        url.append("?s=");
        url.append(search_term);
        url.append("&post_type=wp-manga");
        url
    }

    /// The novels a search page shows: its entries (`.c-tabs-item__content`).
    pub fn parse_search(&self, page: &str) -> (r: Result<Vec<NovelPreview>, ScrapeError>)
        ensures
            ({
                let items = html_outers(page@, ".c-tabs-item__content"@);
                &&& r is Ok <==> css_valid(".c-tabs-item__content"@)
                    && (items.len() == 0 || list_selectors_valid())
                    && forall|i: int| 0 <= i < items.len() ==> entry_ok(#[trigger] items[i])
                &&& r matches Ok(v) ==> previews_of(v@, self.source_id, items)
            }),
    {
        let items = match select_outers(page, ".c-tabs-item__content") {
            Some(v) => v,
            None => {
                return Err(ScrapeError::BadSelector);
            },
        };
        let r = entries_to_previews(self.source_id, &items);
        proof {
            let want = html_outers(page@, ".c-tabs-item__content"@);
            assert forall|i: int| 0 <= i < want.len() implies #[trigger] want[i] == items@[i]@ by {
                assert(views_are(items@, want));
            }
        }
        r
    }

    /// The page of the novel at `novel_path`.
    pub fn novel_url(&self, novel_path: &str) -> (r: String)
        ensures
            r@ == self.base_url@ + paths_of(*self).1 + "/"@ + novel_path@ + "/"@,
    {
        let mut url = self.base_url.clone();
        match &self.path {
            Some(p) => url.append(p.novel.as_str()),
            None => url.append("novel"),
        }
        url.append("/");
        url.append(novel_path);
        url.append("/");
        url
    }

    /// The page of a chapter of the novel at `novel_path`.
    pub fn chapter_url(&self, novel_path: &str, chapter_path: &str) -> (r: String)
        ensures
            r@ == self.base_url@ + paths_of(*self).2 + "/"@ + novel_path@ + "/"@ + chapter_path@,
    {
        let mut url = self.base_url.clone();
        match &self.path {
            Some(p) => url.append(p.chapter.as_str()),
            None => url.append("novel"),
        }
        url.append("/");
        url.append(novel_path);
        url.append("/");
        url.append(chapter_path);
        url
    }
}

/// The value, or the empty text.
pub open spec fn or_empty(o: Option<Seq<char>>) -> Seq<char> {
    match o {
        Some(t) => t,
        None => Seq::empty(),
    }
}

/// The novel's id on a Madara page: the `value` of `.rating-post-id`, or
/// else the `data-id` of `#manga-chapters-holder`.
pub open spec fn novel_id_of(doc: Seq<char>) -> Seq<char> {
    let a = or_empty(first_attr(doc, ".rating-post-id"@, "value"@));
    if a.len() > 0 { a } else { or_empty(first_attr(doc, "#manga-chapters-holder"@, "data-id"@)) }
}

/// The selector of a novel page's detail blocks.
pub open spec fn details_css() -> Seq<char> {
    ".post-content_item, .post-content"@
}

/// The selector of what is taken out of a novel's summary.
pub open spec fn summary_noise_css() -> Seq<char> {
    "div.summary__content .code-block,script"@
}

/// What a novel's page must hold to be read.
pub open spec fn novel_page_ok(s: MadaraScraper, page: Seq<char>) -> bool {
    let c1 = html_without(page, ".manga-title-badges"@);
    let items = html_outers(c1, details_css());
    let c2 = html_without(c1, summary_noise_css());
    &&& css_valid(".manga-title-badges"@)
    &&& css_valid(".post-title"@)
    &&& first_text(c1, ".post-title"@) is Some
    &&& css_valid(details_css())
    &&& (items.len() == 0 || (css_valid("h5"@) && css_valid(".summary-content"@)))
    &&& forall|i: int| 0 <= i < items.len() ==> detail_ok(#[trigger] items[i])
    &&& css_valid(summary_noise_css())
    &&& css_valid("div.summary__content"@)
    &&& first_text(c2, "div.summary__content"@) is Some
    &&& !s.new_chap_endpoint ==> css_valid(".rating-post-id"@)
    &&& !s.new_chap_endpoint && or_empty(first_attr(c2, ".rating-post-id"@, "value"@)).len() == 0 ==> css_valid("#manga-chapters-holder"@)
}

impl MadaraScraper {
    /// Reads a novel's page (without its badges): its name (`.post-title`),
    /// its details, its summary (without code blocks and scripts), and how
    /// to fetch its chapter list.
    pub fn parse_novel_page(&self, novel_path: &str, page: &str) -> (r: Result<NovelPage, ScrapeError>)
        ensures
            r is Ok <==> novel_page_ok(*self, page@),
            r matches Ok(p) ==> {
                let c1 = html_without(page@, ".manga-title-badges"@);
                let c2 = html_without(c1, summary_noise_css());
                &&& p.full_url@ == self.base_url@ + paths_of(*self).1 + "/"@ + novel_path@ + "/"@
                &&& first_trimmed(c1, ".post-title"@) == Some(p.name@)
                &&& (p.genres@, p.author@, p.status) == details_fold(html_outers(c1, details_css()))
                &&& first_trimmed(c2, "div.summary__content"@) == Some(p.summary@)
                &&& self.new_chap_endpoint ==> (p.request matches ChapterRequest::Novel { url }
                    && url@ == p.full_url@ + "ajax/chapters/"@)
                &&& !self.new_chap_endpoint ==> (p.request matches ChapterRequest::Admin { url, novel_id }
                    && url@ == self.base_url@ + "wp-admin/admin-ajax.php"@ && novel_id@ == novel_id_of(c2))
            },
    {
        let full_url = self.novel_url(novel_path);
        let cleaned = match remove_matching(page, ".manga-title-badges") {
            Some(c) => c,
            None => {
                return Err(ScrapeError::BadSelector);
            },
        };
        let name = match trimmed_text_of_first(cleaned.as_str(), ".post-title") {
            Ok(n) => n,
            Err(e) => {
                return Err(e);
            },
        };
        let items = match select_outers(cleaned.as_str(), ".post-content_item, .post-content") {
            Some(v) => v,
            None => {
                return Err(ScrapeError::BadSelector);
            },
        };
        proof {
            assert(views(items@) =~= html_outers(cleaned@, details_css()));
            assert forall|i: int| 0 <= i < items@.len() implies #[trigger] items@[i]@ == html_outers(cleaned@, details_css())[i] by {
                assert(views_are(items@, html_outers(cleaned@, details_css())));
            }
        }
        let (genres, author, status) = match read_details(&items) {
            Ok(d) => d,
            Err(e) => {
                return Err(e);
            },
        };
        let cleaned2 = match remove_matching(cleaned.as_str(), "div.summary__content .code-block,script") {
            Some(c) => c,
            None => {
                return Err(ScrapeError::BadSelector);
            },
        };
        let summary = match trimmed_text_of_first(cleaned2.as_str(), "div.summary__content") {
            Ok(t) => t,
            Err(e) => {
                return Err(e);
            },
        };
        let request = if self.new_chap_endpoint {
            let mut url = full_url.clone();
            url.append("ajax/chapters/");
            ChapterRequest::Novel { url }
        } else {
            let first = match attr_of_first(cleaned2.as_str(), ".rating-post-id", "value") {
                Ok(Some(v)) => v,
                Ok(None) => String::new(),
                Err(e) => {
                    return Err(e);
                },
            };
            let novel_id = if first.as_str().is_empty() {
                match attr_of_first(cleaned2.as_str(), "#manga-chapters-holder", "data-id") {
                    Ok(Some(v)) => v,
                    Ok(None) => String::new(),
                    Err(e) => {
                        return Err(e);
                    },
                }
            } else {
                first
            };
            let mut url = self.base_url.clone();
            url.append("wp-admin/admin-ajax.php");
            ChapterRequest::Admin { url, novel_id }
        };
        Ok(NovelPage { full_url, name, author, status, genres, summary, request })
    }
}

/// The name of a chapter entry: the trimmed text of its first link, or
/// "[No Name Provided]" when that is empty.
pub open spec fn chapter_name_of(item: Seq<char>) -> Option<Seq<char>> {
    match first_trimmed(item, "a"@) {
        Some(t) => Some(if t.len() == 0 { "[No Name Provided]"@ } else { t }),
        None => None,
    }
}

/// A chapter's path in a link to it: the sixth piece of the link, and the
/// seventh after a slash when there is one.
pub open spec fn chapter_path_of(href: Seq<char>) -> Option<Seq<char>> {
    let p = split_spec(href, '/');
    if p.len() > 6 {
        Some(p[5] + "/"@ + p[6])
    } else if p.len() > 5 {
        Some(p[5])
    } else {
        None
    }
}

/// The chapter's path from the link of a chapter entry.
pub open spec fn chapter_link_of(item: Seq<char>) -> Option<Seq<char>> {
    match first_attr(item, "a"@, "href"@) {
        Some(h) => chapter_path_of(h),
        None => None,
    }
}

/// A chapter entry yields a name and a path.
pub open spec fn chapter_item_ok(item: Seq<char>) -> bool {
    &&& chapter_name_of(item) is Some
    &&& chapter_link_of(item) is Some
}

/// `v` lists the chapters of `items` from the last entry to the first (the
/// page lists the newest first), numbered from 1, all released on `date`.
pub open spec fn chapters_from(v: Seq<ChapterPreview>, items: Seq<Seq<char>>, date: Seq<char>) -> bool {
    &&& v.len() == items.len()
    &&& forall|k: int| 0 <= k < v.len() ==> {
        let c = #[trigger] v[k];
        let item = items[items.len() - 1 - k];
        &&& c.chapter_no == k + 1
        &&& c.release_date@ == date
        &&& chapter_name_of(item) == Some(c.name@)
        &&& chapter_link_of(item) == Some(c.url@)
    }
}

/// The name and path of a chapter entry.
fn chapter_entry(item: &str) -> (r: Result<(String, String), ScrapeError>)
    ensures
        r is Ok <==> css_valid("a"@) && chapter_item_ok(item@),
        r matches Ok((n, u)) ==> chapter_name_of(item@) == Some(n@) && chapter_link_of(item@) == Some(u@),
{
    let name = match trimmed_text_of_first(item, "a") {
        Ok(n) => n,
        Err(e) => {
            return Err(e);
        },
    };
    let name = if name.as_str().is_empty() {
        String::from_str("[No Name Provided]")
    } else {
        name
    };
    let href = match attr_of_first(item, "a", "href") {
        Ok(Some(h)) => h,
        Ok(None) => {
            return Err(ScrapeError::BadLink);
        },
        Err(e) => {
            return Err(e);
        },
    };
    let mut parts = split_char(href.as_str(), '/');
    if parts.len() > 6 {
        let mut url = parts[5].clone();
        url.append("/");
        url.append(parts[6].as_str());
        Ok((name, url))
    } else if parts.len() > 5 {
        Ok((name, parts.remove(5)))
    } else {
        Err(ScrapeError::BadLink)
    }
}

/// The chapters of a list of entries, oldest first, numbered from 1.
pub fn chapters_from_items(items: &Vec<String>, date: &str) -> (r: Result<Vec<ChapterPreview>, ScrapeError>)
    ensures
        r is Ok <==> (items@.len() == 0 || css_valid("a"@)) && forall|i: int| 0 <= i < items@.len() ==> chapter_item_ok(#[trigger] items@[i]@),
        r matches Ok(v) ==> chapters_from(v@, views(items@), date@),
{
    let n = items.len();
    let mut entries: Vec<(String, String)> = Vec::new();
    let mut i: usize = 0;
    while i < n
        invariant
            n == items@.len(),
            i <= n,
            entries@.len() == i,
            i == 0 || css_valid("a"@),
            forall|j: int| 0 <= j < i ==> chapter_item_ok(#[trigger] items@[j]@),
            forall|j: int| 0 <= j < i ==> chapter_name_of(items@[j]@) == Some((#[trigger] entries@[j]).0@)
                && chapter_link_of(items@[j]@) == Some(entries@[j].1@),
        decreases n - i,
    {
        match chapter_entry(items[i].as_str()) {
            Ok(e) => {
                entries.push(e);
            },
            Err(e) => {
                return Err(e);
            },
        }
        i = i + 1;
    }
    let mut out: Vec<ChapterPreview> = Vec::new();
    let mut k: usize = 0;
    while k < n
        invariant
            n == items@.len(),
            entries@.len() == n,
            k <= n,
            out@.len() == k,
            forall|j: int| 0 <= j < n ==> chapter_name_of(items@[j]@) == Some((#[trigger] entries@[j]).0@)
                && chapter_link_of(items@[j]@) == Some(entries@[j].1@),
            forall|j: int| 0 <= j < k ==> {
                let c = #[trigger] out@[j];
                let item = items@[n - 1 - j]@;
                &&& c.chapter_no == j + 1
                &&& c.release_date@ == date@
                &&& chapter_name_of(item) == Some(c.name@)
                &&& chapter_link_of(item) == Some(c.url@)
            },
        decreases n - k,
    {
        let e = &entries[n - 1 - k];
        out.push(
            ChapterPreview {
                chapter_no: k + 1,
                release_date: String::from_str(date),
                name: e.0.clone(),
                url: e.1.clone(),
            },
        );
        k = k + 1;
    }
    proof {
        assert forall|j: int| 0 <= j < out@.len() implies #[trigger] views(items@)[items@.len() - 1 - j] == items@[n - 1 - j]@ by {}
    }
    Ok(out)
}

/// What a chapter's page gives: its title (the text of `.text-center`, else
/// of `#chapter-heading`), and its paragraphs joined, from the first of
/// `.text-left`, `.text-right` and `.entry-content` that the page has.
pub open spec fn chapter_title_of(page: Seq<char>) -> Seq<char> {
    let a = first_trimmed_or_empty(page, ".text-center"@);
    if a.len() > 0 { a } else { first_trimmed_or_empty(page, "#chapter-heading"@) }
}

/// The trimmed texts joined, each after `sep`.
pub open spec fn joined(texts: Seq<Seq<char>>, sep: Seq<char>) -> Seq<char>
    decreases texts.len(),
{
    if texts.len() == 0 {
        Seq::empty()
    } else {
        joined(texts.drop_last(), sep) + sep + trim_spec(texts.last())
    }
}

/// The text of a chapter's page.
pub open spec fn chapter_body_of(page: Seq<char>) -> Seq<char> {
    if html_texts(page, ".text-left"@).len() > 0 {
        trim_spec(joined(html_texts(page, ".text-left p"@), "\n\n"@))
    } else if html_texts(page, ".text-right"@).len() > 0 {
        trim_spec(joined(html_texts(page, ".text-right p"@), "\n"@))
    } else if html_texts(page, ".entry-content"@).len() > 0 {
        trim_spec(joined(html_texts(page, ".entry-content p"@), "\n"@))
    } else {
        "No text was found. Check the source - if it has text, the scraper is broken."@
    }
}

/// The selectors a chapter's page needs, as far as its contents lead.
pub open spec fn chapter_page_ok(page: Seq<char>) -> bool {
    &&& css_valid(".text-center"@)
    &&& first_trimmed_or_empty(page, ".text-center"@).len() == 0 ==> css_valid("#chapter-heading"@)
    &&& css_valid(".text-left"@)
    &&& html_texts(page, ".text-left"@).len() > 0 ==> css_valid(".text-left p"@)
    &&& html_texts(page, ".text-left"@).len() == 0 ==> css_valid(".text-right"@)
    &&& html_texts(page, ".text-left"@).len() == 0 && html_texts(page, ".text-right"@).len() > 0 ==> css_valid(".text-right p"@)
    &&& html_texts(page, ".text-left"@).len() == 0 && html_texts(page, ".text-right"@).len() == 0 ==> css_valid(".entry-content"@)
    &&& html_texts(page, ".text-left"@).len() == 0 && html_texts(page, ".text-right"@).len() == 0
        && html_texts(page, ".entry-content"@).len() > 0 ==> css_valid(".entry-content p"@)
}

/// Joins the trimmed texts of the elements matching `css`, each after `sep`, and trims the whole.
fn join_paragraphs(page: &str, css: &str, sep: &str) -> (r: Result<String, ScrapeError>)
    ensures
        r is Ok <==> css_valid(css@),
        r matches Ok(t) ==> t@ == trim_spec(joined(html_texts(page@, css@), sep@)),
{
    let lines = match select_texts(page, css) {
        Some(v) => v,
        None => {
            return Err(ScrapeError::BadSelector);
        },
    };
    let ghost want = html_texts(page@, css@);
    let mut text = String::new();
    let mut i: usize = 0;
    while i < lines.len()
        invariant
            i <= lines@.len(),
            views_are(lines@, want),
            text@ == joined(want.take(i as int), sep@),
        decreases lines@.len() - i,
    {
        proof {
            assert(want.take(i + 1).drop_last() =~= want.take(i as int));
        }
        text.append(sep);
        let t = trim(lines[i].as_str());
        text.append(t.as_str());
        i = i + 1;
    }
    proof {
        assert(want.take(lines@.len() as int) =~= want);
    }
    Ok(trim(text.as_str()))
}

/// Whether the page has an element matching `css`.
fn has_match(page: &str, css: &str) -> (r: Result<bool, ScrapeError>)
    ensures
        r is Ok <==> css_valid(css@),
        r matches Ok(b) ==> b == (html_texts(page@, css@).len() > 0),
{
    match select_texts(page, css) {
        Some(v) => Ok(v.len() > 0),
        None => Err(ScrapeError::BadSelector),
    }
}

/// What reading a chapter list needs: valid selectors, and, when it lists
/// chapters, a readable release text and readable entries.
pub open spec fn chapter_list_ok(response: Seq<char>) -> bool {
    let items = html_outers(response, ".wp-manga-chapter"@);
    let raw = first_trimmed_or_empty(response, "span.chapter-release-date"@);
    &&& css_valid(".wp-manga-chapter"@)
    &&& items.len() > 0 ==> {
        &&& css_valid("span.chapter-release-date"@)
        &&& css_valid("a"@)
        &&& crate::scrape::dates::age_readable(raw)
        &&& forall|i: int| 0 <= i < items.len() ==> chapter_item_ok(#[trigger] items[i])
    }
}

impl MadaraScraper {
    /// The chapters a chapter list (the answer to the chapter request) shows:
    /// its `.wp-manga-chapter` entries, oldest first, numbered from 1, all
    /// with the release date of the list's first `span.chapter-release-date`
    /// (an age is turned into the date it stands for).
    pub fn parse_chapter_list(&self, response: &str) -> (r: Result<Vec<ChapterPreview>, ScrapeError>)
        ensures
            ({
                let items = html_outers(response@, ".wp-manga-chapter"@);
                let raw = first_trimmed_or_empty(response@, "span.chapter-release-date"@);
                &&& r is Ok ==> css_valid(".wp-manga-chapter"@)
                &&& r is Ok && items.len() > 0 ==> css_valid("span.chapter-release-date"@) && css_valid("a"@)
                    && crate::scrape::dates::age_readable(raw)
                    && forall|i: int| 0 <= i < items.len() ==> chapter_item_ok(#[trigger] items[i])
                &&& css_valid(".wp-manga-chapter"@) && items.len() == 0 ==> (r matches Ok(v) && v@.len() == 0)
                &&& r matches Ok(v) ==> (v@.len() > 0 ==> chapters_from(v@, items, v@[0].release_date@))
                &&& r matches Ok(v) ==> (v@.len() > 0 ==> crate::scrape::dates::dated_as(raw, v@[0].release_date@))
                &&& r matches Ok(v) ==> v@.len() == items.len()
                &&& chapter_list_ok(response@) && crate::scrape::dates::age_hours(raw) is None ==> r is Ok
                &&& r is Err ==> !chapter_list_ok(response@) || (crate::scrape::dates::age_hours(raw) is Some
                    && r == Err::<Vec<ChapterPreview>, ScrapeError>(ScrapeError::BadDate))
            }),
    {
        let items = match select_outers(response, ".wp-manga-chapter") {
            Some(v) => v,
            None => {
                return Err(ScrapeError::BadSelector);
            },
        };
        proof {
            assert(views(items@) =~= html_outers(response@, ".wp-manga-chapter"@));
        }
        if items.len() == 0 {
            return Ok(Vec::new());
        }
        let raw = match trimmed_text_or_empty(response, "span.chapter-release-date") {
            Ok(t) => t,
            Err(e) => {
                return Err(e);
            },
        };
        let date = match crate::scrape::dates::release_date(raw.as_str()) {
            Ok(d) => d,
            Err(e) => {
                return Err(e);
            },
        };
        let r = chapters_from_items(&items, date.as_str());
        proof {
            assert forall|i: int| 0 <= i < items@.len() implies #[trigger] items@[i]@ == html_outers(response@, ".wp-manga-chapter"@)[i] by {
                assert(views(items@)[i] == items@[i]@);
            }
        }
        r
    }

    /// Reads a chapter's page (see `chapter_title_of` and `chapter_body_of`).
    pub fn parse_chapter(&self, novel_path: String, chapter_path: String, page: &str) -> (r: Result<Chapter, ScrapeError>)
        ensures
            r is Ok <==> chapter_page_ok(page@),
            r matches Ok(c) ==> {
                &&& c.source == self.source_id
                &&& c.novel_url == novel_path
                &&& c.chapter_url == chapter_path
                &&& c.chapter_name@ == chapter_title_of(page@)
                &&& c.chapter_contents@ == chapter_body_of(page@)
            },
    {
        let mut chapter_name = match trimmed_text_or_empty(page, ".text-center") {
            Ok(t) => t,
            Err(e) => {
                return Err(e);
            },
        };
        if chapter_name.as_str().is_empty() {
            chapter_name = match trimmed_text_or_empty(page, "#chapter-heading") {
                Ok(t) => t,
                Err(e) => {
                    return Err(e);
                },
            };
        }
        let left = match has_match(page, ".text-left") {
            Ok(b) => b,
            Err(e) => {
                return Err(e);
            },
        };
        let chapter_text = if left {
            match join_paragraphs(page, ".text-left p", "\n\n") {
                Ok(t) => t,
                Err(e) => {
                    return Err(e);
                },
            }
        } else {
            let right = match has_match(page, ".text-right") {
                Ok(b) => b,
                Err(e) => {
                    return Err(e);
                },
            };
            if right {
                match join_paragraphs(page, ".text-right p", "\n") {
                    Ok(t) => t,
                    Err(e) => {
                        return Err(e);
                    },
                }
            } else {
                let content = match has_match(page, ".entry-content") {
                    Ok(b) => b,
                    Err(e) => {
                        return Err(e);
                    },
                };
                if content {
                    match join_paragraphs(page, ".entry-content p", "\n") {
                        Ok(t) => t,
                        Err(e) => {
                            return Err(e);
                        },
                    }
                } else {
                    String::from_str("No text was found. Check the source - if it has text, the scraper is broken.")
                }
            }
        };
        Ok(Chapter {
            source: self.source_id,
            novel_url: novel_path,
            chapter_url: chapter_path,
            chapter_name,
            chapter_contents: chapter_text,
        })
    }
}

impl NovelPage {
    /// The novel a page and its chapter list give.
    pub fn into_novel(self, source: SourceID, source_name: String, novel_path: String, chapters: Vec<ChapterPreview>) -> (r: Novel)
        ensures
            r.source == source,
            r.source_name == source_name,
            r.full_url == self.full_url,
            r.novel_url == novel_path,
            r.name == self.name,
            r.author == self.author,
            r.status == self.status,
            r.genres == self.genres,
            r.summary == self.summary,
            r.chapters == chapters,
            r.alias is None,
    {
        Novel {
            source,
            source_name,
            full_url: self.full_url,
            novel_url: novel_path,
            name: self.name,
            author: self.author,
            status: self.status,
            genres: self.genres,
            summary: self.summary,
            chapters,
            alias: None,
        }
    }
}

} // verus!
