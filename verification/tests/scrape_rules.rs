use termreader::scrape::madara::ChapterRequest;
use termreader::scrape::query::{text_of_first, trimmed_text_of_first, ScrapeError};
use termreader::sources::novel::NovelStatus;
use termreader::sources::source::{FreeWebNovelScraper, MadaraPaths, MadaraScraper, SortOrder, SourceID};

fn boxnovel(new_endpoint: bool) -> MadaraScraper {
    MadaraScraper::new(
        SourceID::new(1),
        "https://boxnovel.com/".into(),
        "BoxNovel".into(),
        None,
        new_endpoint,
    )
}

const MADARA_LIST: &str = r#"<html><body>
<div class="page-item-detail">
  <div class="post-title"><h3><a href="https://boxnovel.com/novel/awakening/">  Awakening <span class="manga-title-badges">HOT</span></a></h3></div>
</div>
<div class="page-item-detail">
  <div class="post-title"><h3><a href="https://boxnovel.com/novel/the-second-one/">The Second One</a></h3></div>
</div>
</body></html>"#;

const MADARA_NOVEL: &str = r#"<html><body>
<div class="post-title"><h1><span class="manga-title-badges">NEW</span> Beastmaster of the Ages </h1></div>
<div class="post-content">
 <div class="post-content_item"><div class="summary-heading"><h5>Author(s)</h5></div><div class="summary-content"> Someone Famous </div></div>
 <div class="post-content_item"><div class="summary-heading"><h5>Genre(s)</h5></div><div class="summary-content">Action	Fantasy</div></div>
 <div class="post-content_item"><div class="summary-heading"><h5>Status</h5></div><div class="summary-content"> OnGoing </div></div>
</div>
<div class="summary__content"><p>A beastmaster rises.</p><div class="code-block">ADVERT</div><script>var x = 1;</script></div>
<input class="rating-post-id" value="4242">
</body></html>"#;

const MADARA_CHAPTERS: &str = r#"<html><body><ul>
<li class="wp-manga-chapter"><a href="https://zinnovel.com/manga/beastmaster-of-the-ages/chapter-3/">Chapter 3</a><span class="chapter-release-date"><i>March 3, 2023</i></span></li>
<li class="wp-manga-chapter"><a href="https://zinnovel.com/manga/beastmaster-of-the-ages/chapter-2/p-1/">  </a></li>
<li class="wp-manga-chapter"><a href="https://zinnovel.com/manga/beastmaster-of-the-ages/chapter-1">Chapter 1</a></li>
</ul></body></html>"#;

const MADARA_CHAPTER_LEFT: &str = r#"<html><body>
<div class="text-center"> Chapter 2496 Beast Massacre </div>
<div class="text-left"><p> First paragraph. </p><p>Second paragraph.</p></div>
</body></html>"#;

#[test]
fn madara_list_urls() {
    let s = boxnovel(true);
    assert_eq!(s.popular_url(SortOrder::Rating, 1), "https://boxnovel.com/novel/page/1?m_orderby=rating");
    assert_eq!(s.popular_url(SortOrder::Latest, 12), "https://boxnovel.com/novel/page/12?m_orderby=latest");
    assert_eq!(s.search_url("awakening"), "https://boxnovel.com/?s=awakening&post_type=wp-manga");
    assert_eq!(s.novel_url("awakening"), "https://boxnovel.com/novel/awakening/");
    let z = MadaraScraper::new(
        SourceID::new(2),
        "https://zinnovel.com/".into(),
        "ZinnNovel".into(),
        Some(MadaraPaths::new("manga", "manga", "manga")),
        false,
    );
    assert_eq!(
        z.chapter_url("beastmaster-of-the-ages", "chapter-1"),
        "https://zinnovel.com/manga/beastmaster-of-the-ages/chapter-1"
    );
}

#[test]
fn madara_list_page_names_and_paths() {
    let s = boxnovel(true);
    let novels = s.parse_popular(MADARA_LIST).unwrap();
    assert_eq!(novels.len(), 2);
    assert_eq!(novels[0].name, "Awakening");
    assert_eq!(novels[0].url, "awakening");
    assert_eq!(novels[0].source, SourceID::new(1));
    assert_eq!(novels[1].name, "The Second One");
    assert_eq!(novels[1].url, "the-second-one");
}

#[test]
fn madara_entry_without_link_is_refused() {
    let s = boxnovel(true);
    let page = r#"<div class="c-tabs-item__content"><div class="post-title">No link</div></div>"#;
    assert_eq!(s.parse_search(page), Err(ScrapeError::BadLink));
    let page = r#"<div class="c-tabs-item__content"><div class="post-title"><a href="/short">x</a></div></div>"#;
    assert_eq!(s.parse_search(page), Err(ScrapeError::BadLink));
    let page = r#"<div class="c-tabs-item__content"><p>nothing</p></div>"#;
    assert_eq!(s.parse_search(page), Err(ScrapeError::MissingElement));
    assert_eq!(s.parse_search("<p>no results</p>"), Ok(vec![]));
}

#[test]
fn madara_novel_page_details() {
    let s = boxnovel(false);
    let page = s.parse_novel_page("beastmaster-of-the-ages", MADARA_NOVEL).unwrap();
    assert_eq!(page.full_url, "https://boxnovel.com/novel/beastmaster-of-the-ages/");
    assert_eq!(page.name, "Beastmaster of the Ages");
    assert_eq!(page.author, "Someone Famous");
    assert_eq!(page.genres, "Action,Fantasy");
    assert_eq!(page.status, NovelStatus::Ongoing);
    assert_eq!(page.summary, "A beastmaster rises.");
    match page.request {
        ChapterRequest::Admin { url, novel_id } => {
            assert_eq!(url, "https://boxnovel.com/wp-admin/admin-ajax.php");
            assert_eq!(novel_id, "4242");
        }
        _ => panic!("expected the admin endpoint"),
    }
    let page = boxnovel(true).parse_novel_page("beastmaster-of-the-ages", MADARA_NOVEL).unwrap();
    match page.request {
        ChapterRequest::Novel { url } => {
            assert_eq!(url, "https://boxnovel.com/novel/beastmaster-of-the-ages/ajax/chapters/")
        }
        _ => panic!("expected the novel's endpoint"),
    }
}

#[test]
fn madara_novel_page_without_a_title_is_refused() {
    assert_eq!(
        boxnovel(true).parse_novel_page("x", "<p>empty</p>").unwrap_err(),
        ScrapeError::MissingElement
    );
}

#[test]
fn madara_chapters_oldest_first() {
    let s = boxnovel(true);
    let chapters = s.parse_chapter_list(MADARA_CHAPTERS).unwrap();
    assert_eq!(chapters.len(), 3);
    assert_eq!(chapters[0].chapter_no, 1);
    assert_eq!(chapters[0].name, "Chapter 1");
    assert_eq!(chapters[0].url, "chapter-1");
    assert_eq!(chapters[1].chapter_no, 2);
    assert_eq!(chapters[1].name, "[No Name Provided]");
    assert_eq!(chapters[1].url, "chapter-2/p-1");
    assert_eq!(chapters[2].chapter_no, 3);
    assert_eq!(chapters[2].url, "chapter-3/");
    assert!(chapters.iter().all(|c| c.release_date == "March 3, 2023"));
    assert_eq!(s.parse_chapter_list("<ul></ul>"), Ok(vec![]));
}

#[test]
fn madara_novel_assembled() {
    let s = boxnovel(true);
    let page = s.parse_novel_page("beastmaster-of-the-ages", MADARA_NOVEL).unwrap();
    let chapters = s.parse_chapter_list(MADARA_CHAPTERS).unwrap();
    let novel = page.into_novel(s.source_id, s.source_name.clone(), "beastmaster-of-the-ages".into(), chapters);
    assert_eq!(novel.name, "Beastmaster of the Ages");
    assert_eq!(novel.novel_url, "beastmaster-of-the-ages");
    assert_eq!(novel.chapters.len(), 3);
    assert_eq!(novel.get_chapter_url(2), Some("chapter-2/p-1".to_string()));
    assert_eq!(
        novel.synopsis(),
        "Author: Someone Famous\nStatus: Ongoing\nGenres: Action,Fantasy\n\nA beastmaster rises."
    );
}

#[test]
fn madara_chapter_text() {
    let s = boxnovel(true);
    let c = s.parse_chapter("novel".into(), "chapter-2496".into(), MADARA_CHAPTER_LEFT).unwrap();
    assert_eq!(c.chapter_name, "Chapter 2496 Beast Massacre");
    assert_eq!(c.chapter_contents, "First paragraph.\n\nSecond paragraph.");
    assert_eq!(c.novel_url, "novel");
    assert_eq!(c.chapter_url, "chapter-2496");
    let right = r#"<h1 id="chapter-heading">Heading</h1><div class="text-right"><p>a</p><p> b </p></div>"#;
    let c = s.parse_chapter("n".into(), "c".into(), right).unwrap();
    assert_eq!(c.chapter_name, "Heading");
    assert_eq!(c.chapter_contents, "a\nb");
    let content = r#"<div class="entry-content"><p>x</p><p>y</p></div>"#;
    assert_eq!(s.parse_chapter("n".into(), "c".into(), content).unwrap().chapter_contents, "x\ny");
    let none = s.parse_chapter("n".into(), "c".into(), "<p>nothing</p>").unwrap();
    assert_eq!(none.chapter_name, "");
    assert_eq!(
        none.chapter_contents,
        "No text was found. Check the source - if it has text, the scraper is broken."
    );
}

const FREEWN_NOVEL: &str = r#"<html><body>
<h1 class="tit">My Three Wives Are Beautiful Vampires</h1>
<div class="item"><div class="right"><a href="/authors/Li-Hong-Tian">Li Hong Tian</a></div></div>
<div class="item"><div class="right"><a href="/genres/Fantasy">Fantasy</a>, <a href="/genres/Harem">Harem</a></div></div>
<div class="item"><div class="right"><a href="/status/Ongoing" title="Latest Release Novels"> OnGoing </a></div></div>
<div class="inner"><p>First.</p><p>Second.</p></div>
<div class="m-newest1"><ul class="ul-list5"><li><a class="con" href="/x/chapter-877.html">Chapter 877 - The End</a></li></ul></div>
</body></html>"#;

#[test]
fn freewebnovel_urls() {
    let s = FreeWebNovelScraper::new(3.into());
    assert_eq!(s.popular_url(2), "https://freewebnovel.com/completed-novel/2");
    assert_eq!(s.search_url(), "https://freewebnovel.com/search/");
    assert_eq!(s.novel_key("/my-novel/"), "my-novel");
    assert_eq!(s.novel_url("my-novel"), "https://freewebnovel.com/my-novel.html");
    assert_eq!(s.chapter_url("my-novel", "chapter-3"), "https://freewebnovel.com/my-novel/chapter-3.html");
}

#[test]
fn freewebnovel_novel_page() {
    let s = FreeWebNovelScraper::new(3.into());
    let n = s.parse_novel("/my-three-wives-are-beautiful-vampires-novel", FREEWN_NOVEL).unwrap();
    assert_eq!(n.name, "My Three Wives Are Beautiful Vampires");
    assert_eq!(n.novel_url, "my-three-wives-are-beautiful-vampires-novel");
    assert_eq!(n.full_url, "https://freewebnovel.com/my-three-wives-are-beautiful-vampires-novel.html");
    assert_eq!(n.source_name, "FreeWebNovel");
    assert_eq!(n.author, "Li Hong Tian");
    assert_eq!(n.genres, "Fantasy, Harem");
    assert_eq!(n.status, NovelStatus::Ongoing);
    assert_eq!(n.summary, "First.\n\nSecond.\n\n");
    assert_eq!(n.chapters.len(), 877);
    assert_eq!(n.chapters[876].chapter_no, 877);
    assert_eq!(n.chapters[876].name, "Chapter 877");
    assert_eq!(n.chapters[876].url, "chapter-877");
    assert_eq!(n.chapters[0].release_date, "");
}

#[test]
fn freewebnovel_status_words() {
    let s = FreeWebNovelScraper::new(3.into());
    let page = FREEWN_NOVEL.replace(" OnGoing ", "COMPLETED");
    assert_eq!(s.parse_novel("n", &page).unwrap().status, NovelStatus::Completed);
    let page = FREEWN_NOVEL.replace(" OnGoing ", "Hiatus");
    assert_eq!(s.parse_novel("n", &page).unwrap().status, NovelStatus::Unknown);
}

#[test]
fn freewebnovel_page_without_latest_chapter_is_refused() {
    let s = FreeWebNovelScraper::new(3.into());
    let page = FREEWN_NOVEL.replace("m-newest1", "m-other");
    assert_eq!(s.parse_novel("n", &page).unwrap_err(), ScrapeError::MissingElement);
    let page = FREEWN_NOVEL.replace("Chapter 877 - The End", "The End");
    assert_eq!(s.parse_novel("n", &page).unwrap_err(), ScrapeError::BadNumber);
    let page = FREEWN_NOVEL.replace("<a href=\"/genres/Harem\">", "<a>");
    assert_eq!(s.parse_novel("n", &page).unwrap_err(), ScrapeError::BadLink);
}

#[test]
fn freewebnovel_chapter_leaves_out_scripts() {
    let s = FreeWebNovelScraper::new(3.into());
    let page = r#"<h1 class="tit"> Chapter 1 </h1><div class="txt"><p>One.</p><p>window.pubfuturetag = [];</p><p> Two. </p></div>"#;
    let c = s.parse_chapter("n".into(), "chapter-1".into(), page).unwrap();
    assert_eq!(c.chapter_name, "Chapter 1");
    assert_eq!(c.chapter_contents, "One.\n\nTwo.");
}

#[test]
fn freewebnovel_list_paths() {
    let s = FreeWebNovelScraper::new(3.into());
    let page = r#"<div class="li-row"><h3 class="tit"><a href="/a-novel.html">A Novel</a></h3></div>"#;
    let v = s.parse_popular(page).unwrap();
    assert_eq!(v.len(), 1);
    assert_eq!(v[0].name, "A Novel");
    assert_eq!(v[0].url, "a-novel");
    let page = r#"<div class="li-row"><h3 class="tit">No link</h3></div>"#;
    assert_eq!(s.parse_popular(page), Err(ScrapeError::BadLink));
}

#[test]
fn queries_refuse_a_bad_selector() {
    assert_eq!(text_of_first("<p>x</p>", "[[["), Err(ScrapeError::BadSelector));
    assert_eq!(text_of_first("<p>x</p>", "p"), Ok(Some("x".to_string())));
    assert_eq!(trimmed_text_of_first("<p> x </p>", "div"), Err(ScrapeError::MissingElement));
}
