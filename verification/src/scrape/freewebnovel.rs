//! The rules for freewebnovel.com.

use vstd::prelude::*;

use crate::scrape::html::{
    css_valid, html_attrs, html_inners, html_outers, regex_find, regex_first, regex_valid,
    select_attrs, select_inners, select_outers, views_are, opt_views_are,
};
use crate::scrape::madara::views;
use crate::scrape::query::{
    attr_of_first, first_attr, first_text, first_trimmed, first_trimmed_or_empty,
    trimmed_text_of_first, trimmed_text_or_empty, ScrapeError,
};
use crate::sources::chapter::{Chapter, ChapterPreview};
use crate::sources::novel::{Novel, NovelPreview, NovelStatus};
use crate::sources::source::{FreeWebNovelScraper, SourceID};
use crate::strs::{
    after_first_byte, contains_spec, contains_str, occurs_at, parse_usize, parse_usize_spec,
    replace_chars, replace_chars_spec, replace_spec, replace_str, starts_with_str,
};
use crate::text::{decimal, lowercase, to_lowercase, trim, trim_spec, usize_to_string};

verus! {

/// A novel's path from the link of a list entry: the link without `.html`
/// and without its first character (the leading slash).
pub open spec fn entry_path_of(href: Seq<char>) -> Option<Seq<char>> {
    let t = replace_spec(href, ".html"@, ""@);
    if t.len() > 0 && (t[0] as u32) < 0x80 { Some(t.drop_first()) } else { None }
}

/// A list entry yields a name (`.tit`) and a path (the link of `h3 > a`).
pub open spec fn entry_ok(item: Seq<char>) -> bool {
    &&& first_text(item, ".tit"@) is Some
    &&& first_attr(item, "h3 > a"@, "href"@) matches Some(h) && entry_path_of(h) is Some
}

/// `p` is the preview the list entry `item` gives.
pub open spec fn entry_preview(p: NovelPreview, source: SourceID, item: Seq<char>) -> bool {
    &&& p.source == source
    &&& first_trimmed(item, ".tit"@) == Some(p.name@)
    &&& first_attr(item, "h3 > a"@, "href"@) matches Some(h) && entry_path_of(h) == Some(p.url@)
}

/// The preview of one list entry.
pub fn entry_to_preview(source: SourceID, item: &str) -> (r: Result<NovelPreview, ScrapeError>)
    ensures
        r is Ok <==> css_valid(".tit"@) && css_valid("h3 > a"@) && entry_ok(item@),
        r matches Ok(p) ==> entry_preview(p, source, item@),
{
    let name = match trimmed_text_of_first(item, ".tit") {
        Ok(n) => n,
        Err(e) => {
            return Err(e);
        },
    };
    let href = match attr_of_first(item, "h3 > a", "href") {
        Ok(Some(h)) => h,
        Ok(None) => {
            return Err(ScrapeError::BadLink);
        },
        Err(e) => {
            return Err(e);
        },
    };
    proof {
        reveal_strlit(".html");
    }
    let bare = replace_str(href.as_str(), ".html", "");
    match after_first_byte(bare.as_str()) {
        Some(url) => Ok(NovelPreview { source, name, url }),
        None => Err(ScrapeError::BadLink),
    }
}

/// The previews of all the entries, in order.
pub fn entries_to_previews(source: SourceID, items: &Vec<String>) -> (r: Result<Vec<NovelPreview>, ScrapeError>)
    ensures
        r is Ok <==> (items@.len() == 0 || (css_valid(".tit"@) && css_valid("h3 > a"@)))
            && forall|i: int| 0 <= i < items@.len() ==> entry_ok(#[trigger] items@[i]@),
        r matches Ok(v) ==> v@.len() == items@.len() && forall|i: int| 0 <= i < v@.len() ==> entry_preview(
            #[trigger] v@[i],
            source,
            items@[i]@,
        ),
{
    let mut out: Vec<NovelPreview> = Vec::new();
    let mut i: usize = 0;
    while i < items.len()
        invariant
            i <= items@.len(),
            out@.len() == i,
            i == 0 || (css_valid(".tit"@) && css_valid("h3 > a"@)),
            forall|j: int| 0 <= j < i ==> entry_ok(#[trigger] items@[j]@),
            forall|j: int| 0 <= j < i ==> entry_preview(#[trigger] out@[j], source, items@[j]@),
        decreases items@.len() - i,
    {
        match entry_to_preview(source, items[i].as_str()) {
            Ok(p) => {
                out.push(p);
            },
            Err(e) => {
                return Err(e);
            },
        }
        i = i + 1;
    }
    Ok(out)
}

/// (author, genres) after the links of a novel's page: links to authors add
/// to the author, links to genres to the genres, separated by ", ".
pub open spec fn people_fold(hrefs: Seq<Option<Seq<char>>>, inners: Seq<Seq<char>>) -> (Seq<char>, Seq<char>)
    decreases hrefs.len(),
{
    if hrefs.len() == 0 {
        (Seq::empty(), Seq::empty())
    } else {
        let (author, genres) = people_fold(hrefs.drop_last(), inners.take(hrefs.len() - 1));
        let href = hrefs.last()->0;
        let inner = inners[hrefs.len() - 1];
        if contains_spec(href, "/authors/"@) {
            (author + inner, genres)
        } else if contains_spec(href, "/genres/"@) {
            (author, if genres.len() == 0 { inner } else { genres + ", "@ + inner })
        } else {
            (author, genres)
        }
    }
}

/// The status a novel's page gives: its "Latest Release Novels" text, lowercased.
pub open spec fn status_of(raw: Seq<char>) -> NovelStatus {
    let low = lowercase(replace_chars_spec(raw, '\t', '\n', ","@));
    if low == "ongoing"@ {
        NovelStatus::Ongoing
    } else if low == "completed"@ {
        NovelStatus::Completed
    } else {
        NovelStatus::Unknown
    }
}

/// The inner HTML of each paragraph, each followed by a blank line.
pub open spec fn paragraphs(inners: Seq<Seq<char>>) -> Seq<char>
    decreases inners.len(),
{
    if inners.len() == 0 {
        Seq::empty()
    } else {
        paragraphs(inners.drop_last()) + inners.last() + "\n\n"@
    }
}

/// The selector of the link to a novel's latest chapter.
pub open spec fn latest_css() -> Seq<char> {
    "div.m-newest1 ul.ul-list5 a.con"@
}

/// The number of the latest chapter a novel's page gives: the first run of
/// digits in its link's inner HTML.
pub open spec fn latest_of(page: Seq<char>) -> Option<usize> {
    let inners = html_inners(page, latest_css());
    if inners.len() == 0 {
        None
    } else {
        match regex_first("\\d+"@, inners[0]) {
            Some(d) => parse_usize_spec(d),
            None => None,
        }
    }
}

/// The chapter list freewebnovel.com novels have: chapters 1 to `n`, named
/// "Chapter i" at "chapter-i", with no release date.
pub open spec fn numbered_chapters(v: Seq<ChapterPreview>, n: nat) -> bool {
    &&& v.len() == n
    &&& forall|k: int| 0 <= k < n ==> {
        let c = #[trigger] v[k];
        &&& c.chapter_no == k + 1
        &&& c.release_date@.len() == 0
        &&& c.name@ == "Chapter "@ + decimal((k + 1) as nat)
        &&& c.url@ == "chapter-"@ + decimal((k + 1) as nat)
    }
}

/// What a novel's page must hold to be read.
pub open spec fn novel_page_ok(page: Seq<char>) -> bool {
    &&& css_valid("h1.tit"@)
    &&& first_text(page, "h1.tit"@) is Some
    &&& css_valid("div.right > a"@)
    &&& forall|i: int| 0 <= i < html_attrs(page, "div.right > a"@, "href"@).len()
        ==> (#[trigger] html_attrs(page, "div.right > a"@, "href"@)[i]) is Some
    &&& css_valid("[title=\"Latest Release Novels\"]"@)
    &&& css_valid(".inner > p"@)
    &&& css_valid(latest_css())
    &&& regex_valid("\\d+"@)
    &&& latest_of(page) is Some
}

/// The chapters 1 to `n`.
pub fn numbered_chapter_list(n: usize) -> (r: Vec<ChapterPreview>)
    ensures
        numbered_chapters(r@, n as nat),
{
    let mut chapters: Vec<ChapterPreview> = Vec::new();
    let mut i: usize = 0;
    while i < n
        invariant
            i <= n,
            chapters@.len() == i,
            forall|k: int| 0 <= k < i ==> {
                let c = #[trigger] chapters@[k];
                &&& c.chapter_no == k + 1
                &&& c.release_date@.len() == 0
                &&& c.name@ == "Chapter "@ + decimal((k + 1) as nat)
                &&& c.url@ == "chapter-"@ + decimal((k + 1) as nat)
            },
        decreases n - i,
    {
        let no = i + 1;
        let digits = usize_to_string(no);
        let mut name = String::from_str("Chapter ");
        name.append(digits.as_str());
        let mut url = String::from_str("chapter-");
        url.append(digits.as_str());
        chapters.push(ChapterPreview { chapter_no: no, release_date: String::new(), name, url });
        i = i + 1;
    }
    chapters
}

/// The previews of the entries of `page` matching `css`.
fn previews_of_page(source: SourceID, page: &str, css: &str) -> (r: Result<Vec<NovelPreview>, ScrapeError>)
    ensures
        ({
            let items = html_outers(page@, css@);
            &&& r is Ok <==> css_valid(css@) && (items.len() == 0 || (css_valid(".tit"@) && css_valid("h3 > a"@)))
                && forall|i: int| 0 <= i < items.len() ==> entry_ok(#[trigger] items[i])
            &&& r matches Ok(v) ==> v@.len() == items.len() && forall|i: int| 0 <= i < v@.len() ==> entry_preview(
                #[trigger] v@[i],
                source,
                items[i],
            )
        }),
{
    let items = match select_outers(page, css) {
        Some(v) => v,
        None => {
            return Err(ScrapeError::BadSelector);
        },
    };
    let ghost want = html_outers(page@, css@);
    proof {
        assert(views_are(items@, want));
        assert((forall|i: int| 0 <= i < want.len() ==> entry_ok(#[trigger] want[i])) <==> (forall|i: int|
            0 <= i < items@.len() ==> entry_ok(#[trigger] items@[i]@))) by {
            if forall|i: int| 0 <= i < want.len() ==> entry_ok(#[trigger] want[i]) {
                assert forall|i: int| 0 <= i < items@.len() implies entry_ok(#[trigger] items@[i]@) by {
                    assert(items@[i]@ == want[i]);
                }
            }
            if forall|i: int| 0 <= i < items@.len() ==> entry_ok(#[trigger] items@[i]@) {
                assert forall|i: int| 0 <= i < want.len() implies entry_ok(#[trigger] want[i]) by {
                    assert(items@[i]@ == want[i]);
                }
            }
        }
    }
    let r = entries_to_previews(source, &items);
    proof {
        if r is Ok {
            let v = r->Ok_0;
            assert forall|i: int| 0 <= i < v@.len() implies entry_preview(#[trigger] v@[i], source, want[i]) by {
                assert(items@[i]@ == want[i]);
            }
        }
    }
    r
}

impl FreeWebNovelScraper {
    /// The page of completed novels numbered `page`.
    pub fn popular_url(&self, page: usize) -> (r: String)
        ensures
            r@ == "https://freewebnovel.com/completed-novel/"@ + decimal(page as nat),
    {
        let mut url = String::from_str("https://freewebnovel.com/completed-novel/");
        url.append(usize_to_string(page).as_str());
        url
    }

    /// The novels a list page shows: its `.li-row` entries.
    pub fn parse_popular(&self, page: &str) -> (r: Result<Vec<NovelPreview>, ScrapeError>)
        ensures
            ({
                let items = html_outers(page@, ".li-row"@);
                &&& r is Ok <==> css_valid(".li-row"@) && (items.len() == 0 || (css_valid(".tit"@) && css_valid("h3 > a"@)))
                    && forall|i: int| 0 <= i < items.len() ==> entry_ok(#[trigger] items[i])
                &&& r matches Ok(v) ==> v@.len() == items.len() && forall|i: int| 0 <= i < v@.len() ==> entry_preview(
                    #[trigger] v@[i],
                    self.source_id,
                    items[i],
                )
            }),
    {
        previews_of_page(self.source_id, page, ".li-row")
    }

    /// The novels a search answer shows: its `.li-row > .li > .con` entries.
    pub fn parse_search(&self, page: &str) -> (r: Result<Vec<NovelPreview>, ScrapeError>)
        ensures
            ({
                let items = html_outers(page@, ".li-row > .li > .con"@);
                &&& r is Ok <==> css_valid(".li-row > .li > .con"@) && (items.len() == 0 || (css_valid(".tit"@) && css_valid("h3 > a"@)))
                    && forall|i: int| 0 <= i < items.len() ==> entry_ok(#[trigger] items[i])
                &&& r matches Ok(v) ==> v@.len() == items.len() && forall|i: int| 0 <= i < v@.len() ==> entry_preview(
                    #[trigger] v@[i],
                    self.source_id,
                    items[i],
                )
            }),
    {
        previews_of_page(self.source_id, page, ".li-row > .li > .con")
    }

    /// The address searches are posted to (with the term as `searchkey`).
    pub fn search_url(&self) -> (r: String)
        ensures
            r@ == "https://freewebnovel.com/search/"@,
    {
        String::from_str("https://freewebnovel.com/search/")
    }

    /// A novel's key: its path without slashes.
    pub fn novel_key(&self, novel_path: &str) -> (r: String)
        ensures
            r@ == replace_spec(novel_path@, "/"@, ""@),
    {
        proof {
            reveal_strlit("/");
        }
        replace_str(novel_path, "/", "")
    }

    /// The page of the novel with key `novel_key`.
    pub fn novel_url(&self, novel_key: &str) -> (r: String)
        ensures
            r@ == "https://freewebnovel.com/"@ + novel_key@ + ".html"@,
    {
        let mut url = String::from_str("https://freewebnovel.com/");
        url.append(novel_key);
        url.append(".html");
        url
    }

    /// The page of a chapter.
    pub fn chapter_url(&self, novel_path: &str, chapter_path: &str) -> (r: String)
        ensures
            r@ == "https://freewebnovel.com/"@ + novel_path@ + "/"@ + chapter_path@ + ".html"@,
    {
        let mut url = String::from_str("https://freewebnovel.com/");
        url.append(novel_path);
        url.append("/");
        url.append(chapter_path);
        url.append(".html");
        url
    }

    /// Reads a novel's page: its name (`h1.tit`), author and genres (the
    /// links of `div.right`), status, summary (the paragraphs of `.inner`)
    /// and chapters (1 to the latest's number).
    pub fn parse_novel(&self, novel_path: &str, page: &str) -> (r: Result<Novel, ScrapeError>)
        ensures
            r is Ok <==> novel_page_ok(page@),
            r matches Ok(n) ==> {
                let key = replace_spec(novel_path@, "/"@, ""@);
                let hrefs = html_attrs(page@, "div.right > a"@, "href"@);
                let people = people_fold(hrefs, html_inners(page@, "div.right > a"@));
                &&& n.source == self.source_id
                &&& n.source_name@ == "FreeWebNovel"@
                &&& n.full_url@ == "https://freewebnovel.com/"@ + key + ".html"@
                &&& n.novel_url@ == key
                &&& first_trimmed(page@, "h1.tit"@) == Some(n.name@)
                &&& n.author@ == people.0
                &&& n.genres@ == people.1
                &&& n.status == status_of(first_trimmed_or_empty(page@, "[title=\"Latest Release Novels\"]"@))
                &&& n.summary@ == paragraphs(html_inners(page@, ".inner > p"@))
                &&& numbered_chapters(n.chapters@, latest_of(page@)->0 as nat)
                &&& n.alias is None
            },
    {
        let novel_url = self.novel_key(novel_path);
        let full_url = self.novel_url(novel_url.as_str());
        let name = match trimmed_text_of_first(page, "h1.tit") {
            Ok(n) => n,
            Err(e) => {
                return Err(e);
            },
        };
        let (author, genres) = match read_people(page) {
            Ok(p) => p,
            Err(e) => {
                return Err(e);
            },
        };
        let raw = match trimmed_text_or_empty(page, "[title=\"Latest Release Novels\"]") {
            Ok(t) => t,
            Err(e) => {
                return Err(e);
            },
        };
        let status = status_from(raw.as_str());
        let summary = match read_paragraphs(page, ".inner > p") {
            Ok(s) => s,
            Err(e) => {
                return Err(e);
            },
        };
        let latest = match read_latest(page) {
            Ok(n) => n,
            Err(e) => {
                return Err(e);
            },
        };
        let chapters = numbered_chapter_list(latest);
        Ok(Novel {
            source: self.source_id,
            source_name: String::from_str("FreeWebNovel"),
            full_url,
            novel_url,
            name,
            author,
            status,
            genres,
            summary,
            chapters,
            alias: None,
        })
    }

    /// Reads a chapter's page: its title (`h1.tit`) and its paragraphs (`div.txt p`),
    /// leaving out the advertising scripts.
    pub fn parse_chapter(&self, novel_path: String, chapter_path: String, page: &str) -> (r: Result<Chapter, ScrapeError>)
        ensures
            r is Ok <==> css_valid("h1.tit"@) && first_text(page@, "h1.tit"@) is Some && css_valid("div.txt p"@),
            r matches Ok(c) ==> {
                &&& c.source == self.source_id
                &&& c.novel_url == novel_path
                &&& c.chapter_url == chapter_path
                &&& first_trimmed(page@, "h1.tit"@) == Some(c.chapter_name@)
                &&& c.chapter_contents@ == trim_spec(text_lines(html_inners(page@, "div.txt p"@)))
            },
    {
        let chapter_name = match trimmed_text_of_first(page, "h1.tit") {
            Ok(n) => n,
            Err(e) => {
                return Err(e);
            },
        };
        let lines = match select_inners(page, "div.txt p") {
            Some(v) => v,
            None => {
                return Err(ScrapeError::BadSelector);
            },
        };
        let ghost want = html_inners(page@, "div.txt p"@);
        let mut contents = String::new();
        let mut i: usize = 0;
        while i < lines.len()
            invariant
                i <= lines@.len(),
                views_are(lines@, want),
                contents@ == text_lines(want.take(i as int)),
            decreases lines@.len() - i,
        {
            proof {
                assert(want.take(i + 1).drop_last() =~= want.take(i as int));
            }
            let line = trim(lines[i].as_str());
            if !starts_with_str(line.as_str(), "window.pubfuturetag") {
                contents.append(line.as_str());
                contents.append("\n\n");
            }
            i = i + 1;
        }
        proof {
            assert(want.take(lines@.len() as int) =~= want);
        }
        Ok(Chapter {
            source: self.source_id,
            novel_url: novel_path,
            chapter_url: chapter_path,
            chapter_name,
            chapter_contents: trim(contents.as_str()),
        })
    }
}

/// The trimmed lines of a chapter that are not advertising scripts, each
/// followed by a blank line.
pub open spec fn text_lines(inners: Seq<Seq<char>>) -> Seq<char>
    decreases inners.len(),
{
    if inners.len() == 0 {
        Seq::empty()
    } else {
        let line = trim_spec(inners.last());
        let rest = text_lines(inners.drop_last());
        if occurs_at(line, "window.pubfuturetag"@, 0) { rest } else { rest + line + "\n\n"@ }
    }
}

/// The author and genres of a novel's page.
fn read_people(page: &str) -> (r: Result<(String, String), ScrapeError>)
    ensures
        r is Ok <==> css_valid("div.right > a"@) && forall|i: int| 0 <= i < html_attrs(page@, "div.right > a"@, "href"@).len()
            ==> (#[trigger] html_attrs(page@, "div.right > a"@, "href"@)[i]) is Some,
        r matches Ok((a, g)) ==> (a@, g@) == people_fold(
            html_attrs(page@, "div.right > a"@, "href"@),
            html_inners(page@, "div.right > a"@),
        ),
{
    let hrefs = match select_attrs(page, "div.right > a", "href") {
        Some(v) => v,
        None => {
            return Err(ScrapeError::BadSelector);
        },
    };
    let inners = match select_inners(page, "div.right > a") {
        Some(v) => v,
        None => {
            return Err(ScrapeError::BadSelector);
        },
    };
    let ghost hs = html_attrs(page@, "div.right > a"@, "href"@);
    let ghost ins = html_inners(page@, "div.right > a"@);
    let mut author = String::new();
    let mut genres = String::new();
    let mut i: usize = 0;
    while i < hrefs.len()
        invariant
            i <= hrefs@.len(),
            opt_views_are(hrefs@, hs),
            views_are(inners@, ins),
            inners@.len() == hrefs@.len(),
            hs == html_attrs(page@, "div.right > a"@, "href"@),
            ins == html_inners(page@, "div.right > a"@),
            css_valid("div.right > a"@),
            forall|j: int| 0 <= j < i ==> (#[trigger] hs[j]) is Some,
            (author@, genres@) == people_fold(hs.take(i as int), ins.take(i as int)),
        decreases hrefs@.len() - i,
    {
        let href = match &hrefs[i] {
            Some(h) => h,
            None => {
                proof {
                    assert(hs[i as int] is None);
                }
                return Err(ScrapeError::BadLink);
            },
        };
        proof {
            assert(hs.take(i + 1).drop_last() =~= hs.take(i as int));
            assert(ins.take(i + 1).take(i as int) =~= ins.take(i as int));
        }
        if i >= inners.len() {
            return Err(ScrapeError::MissingElement);
        }
        if contains_str(href.as_str(), "/authors/") {
            author.append(inners[i].as_str());
        } else if contains_str(href.as_str(), "/genres/") {
            if genres.as_str().is_empty() {
                genres.append(inners[i].as_str());
            } else {
                genres.append(", ");
                genres.append(inners[i].as_str());
            }
        }
        i = i + 1;
    }
    proof {
        assert(hs.take(hrefs@.len() as int) =~= hs);
        assert(ins.take(hrefs@.len() as int) =~= ins);
    }
    Ok((author, genres))
}

/// The status a novel's page gives (see `status_of`).
fn status_from(raw: &str) -> (r: NovelStatus)
    ensures
        r == status_of(raw@),
{
    let cleaned = replace_chars(raw, '\t', '\n', ",");
    let low = to_lowercase(cleaned.as_str());
    if crate::scrape::madara::same_text(low.as_str(), "ongoing") {
        NovelStatus::Ongoing
    } else if crate::scrape::madara::same_text(low.as_str(), "completed") {
        NovelStatus::Completed
    } else {
        NovelStatus::Unknown
    }
}

/// The inner HTML of the elements matching `css`, each followed by a blank line.
fn read_paragraphs(page: &str, css: &str) -> (r: Result<String, ScrapeError>)
    ensures
        r is Ok <==> css_valid(css@),
        r matches Ok(t) ==> t@ == paragraphs(html_inners(page@, css@)),
{
    let lines = match select_inners(page, css) {
        Some(v) => v,
        None => {
            return Err(ScrapeError::BadSelector);
        },
    };
    let ghost want = html_inners(page@, css@);
    let mut text = String::new();
    let mut i: usize = 0;
    while i < lines.len()
        invariant
            i <= lines@.len(),
            views_are(lines@, want),
            text@ == paragraphs(want.take(i as int)),
        decreases lines@.len() - i,
    {
        proof {
            assert(want.take(i + 1).drop_last() =~= want.take(i as int));
        }
        text.append(lines[i].as_str());
        text.append("\n\n");
        i = i + 1;
    }
    proof {
        assert(want.take(lines@.len() as int) =~= want);
    }
    Ok(text)
}

/// The number of the novel's latest chapter (see `latest_of`).
fn read_latest(page: &str) -> (r: Result<usize, ScrapeError>)
    ensures
        r is Ok <==> css_valid(latest_css()) && regex_valid("\\d+"@) && latest_of(page@) is Some,
        r matches Ok(n) ==> latest_of(page@) == Some(n),
{
    let inners = match select_inners(page, "div.m-newest1 ul.ul-list5 a.con") {
        Some(v) => v,
        None => {
            return Err(ScrapeError::BadSelector);
        },
    };
    if inners.len() == 0 {
        return Err(ScrapeError::MissingElement);
    }
    let found = match regex_find("\\d+", inners[0].as_str()) {
        Some(f) => f,
        None => {
            return Err(ScrapeError::BadPattern);
        },
    };
    let digits = match found {
        Some(d) => d,
        None => {
            return Err(ScrapeError::BadNumber);
        },
    };
    match parse_usize(digits.as_str()) {
        Some(n) => Ok(n),
        None => Err(ScrapeError::BadNumber),
    }
}

} // verus!
