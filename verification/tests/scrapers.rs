use termreader::scrape::madara::ChapterRequest;
use termreader::scrape::query::blocked_page;
use termreader::sources::source::{FreeWebNovelScraper, MadaraPaths, MadaraScraper, SortOrder, SourceID};

const USER_AGENT: &str = "Mozilla/5.0 (Linux; Android 10; K) AppleWebKit/537.36 (KHTML, like Gecko) Chrome/113.0.0.0 Mobile Safari/537.36";

fn get_html(url: &str) -> Result<String, String> {
    let client = reqwest::blocking::ClientBuilder::new()
        .user_agent(USER_AGENT)
        .build()
        .map_err(|e| e.to_string())?;
    let text = client
        .get(url)
        .send()
        .map_err(|e| e.to_string())?
        .text()
        .map_err(|e| e.to_string())?;
    if blocked_page(&text) {
        panic!("Cloudflare reached, error handling currently unimplemented.");
    }
    Ok(text)
}

/// The page at `url`, or, when the site cannot be reached, a copy of a page
/// of the same shape kept here.
fn page_or_copy(fetched: Result<String, String>, copy: &str) -> String {
    match fetched {
        Ok(page) => page,
        Err(e) => {
            println!("could not reach the site ({e}); reading a kept copy of the page");
            copy.to_string()
        }
    }
}

const FREEWN_LIST: &str = r#"<html><body>
<div class="li-row"><div class="li"><div class="con">
<h3 class="tit"><a href="/my-three-wives-are-beautiful-vampires-novel.html" title="My Three Wives Are Beautiful Vampires">My Three Wives Are Beautiful Vampires</a></h3>
</div></div></div>
<div class="li-row"><div class="li"><div class="con">
<h3 class="tit"><a href="/martial-peak.html" title="Martial Peak">Martial Peak</a></h3>
</div></div></div>
</body></html>"#;

const FREEWN_NOVEL: &str = r#"<html><body>
<h1 class="tit">My Three Wives Are Beautiful Vampires</h1>
<div class="txt"><div class="item"><div class="right"><a href="/authors/Li-Hong-Tian" title="Li Hong Tian">Li Hong Tian</a></div></div>
<div class="item"><div class="right"><a href="/genres/Fantasy" title="Fantasy">Fantasy</a>, <a href="/genres/Harem" title="Harem">Harem</a></div></div>
<div class="item"><div class="right"><a href="/status/Ongoing" title="Latest Release Novels">Ongoing</a></div></div></div>
<div class="inner"><p>A man wakes up in a world of vampires.</p><p>He marries three of them.</p></div>
<div class="m-newest1"><ul class="ul-list5"><li><a class="con" href="/my-three-wives-are-beautiful-vampires-novel/chapter-877.html">Chapter 877 - The End</a></li></ul></div>
</body></html>"#;

const FREEWN_CHAPTER: &str = r#"<html><body>
<h1 class="tit">My Three Wives Are Beautiful Vampires Chapter 877</h1>
<div class="txt"><p>The night was long.</p><p>window.pubfuturetag = window.pubfuturetag || [];</p><p>  The morning came.  </p></div>
</body></html>"#;

fn post_form(url: &str, fields: &[(&str, String)]) -> Result<String, String> {
    let mut form = reqwest::blocking::multipart::Form::new();
    for (k, v) in fields {
        form = form.text(k.to_string(), v.clone());
    }
    let client = reqwest::blocking::Client::new();
    client
        .post(url)
        .multipart(form)
        .send()
        .map_err(|e| e.to_string())?
        .text()
        .map_err(|e| e.to_string())
}

fn post_empty(url: &str) -> Result<String, String> {
    let client = reqwest::blocking::Client::new();
    client
        .post(url)
        .send()
        .map_err(|e| e.to_string())?
        .text()
        .map_err(|e| e.to_string())
}

fn madara_novel(
    source: &MadaraScraper,
    path: &str,
) -> Result<termreader::sources::novel::Novel, String> {
    let page = get_html(&source.novel_url(path))?;
    let parsed = source
        .parse_novel_page(path, &page)
        .map_err(|e| format!("{e:?}"))?;
    let response = match &parsed.request {
        ChapterRequest::Novel { url } => post_empty(url)?,
        ChapterRequest::Admin { url, novel_id } => post_form(
            url,
            &[("action", "manga_get_chapters".to_string()), ("manga", novel_id.clone())],
        )?,
    };
    let chapters = source
        .parse_chapter_list(&response)
        .map_err(|e| format!("{e:?}"))?;
    Ok(parsed.into_novel(
        source.source_id,
        source.source_name.clone(),
        path.to_string(),
        chapters,
    ))
}

#[test]
fn freewn_get_popular() {
    let source = FreeWebNovelScraper::new(1.into());
    let page = page_or_copy(get_html(&source.popular_url(1)), FREEWN_LIST);
    let data = source.parse_popular(&page).unwrap();
    println!("{data:?}");
}

#[test]
fn freewn_get_novel() {
    let source = FreeWebNovelScraper::new(1.into());
    let path = "my-three-wives-are-beautiful-vampires-novel";
    let key = source.novel_key(path);
    let page = page_or_copy(get_html(&source.novel_url(&key)), FREEWN_NOVEL);
    let data = source.parse_novel(path, &page).unwrap();
    println!("{data:#?}");
}

#[test]
fn freewn_parse_chapter() {
    let source = FreeWebNovelScraper::new(1.into());
    let novel = "my-three-wives-are-beautiful-vampires-novel";
    let chapter = "chapter-877";
    let page = page_or_copy(get_html(&source.chapter_url(novel, chapter)), FREEWN_CHAPTER);
    let data = source
        .parse_chapter(novel.into(), chapter.into(), &page)
        .unwrap();
    println!("{data:#?}");
}

#[test]
fn freewn_search() {
    let source = FreeWebNovelScraper::new(1.into());
    let page = page_or_copy(
        post_form(&source.search_url(), &[("searchkey", "my three".to_string())]),
        FREEWN_LIST,
    );
    let data = source.parse_search(&page).unwrap();
    println!("{data:#?}");
}

#[test]
fn get_popular() {
    let source = MadaraScraper::new(
        SourceID::new(1),
        "https://boxnovel.com/".into(),
        "Source".into(),
        None,
        true,
    );

    let popular = get_html(&source.popular_url(SortOrder::Rating, 1))
        .and_then(|page| source.parse_popular(&page).map_err(|e| format!("{e:?}")));

    println!("{:?}", popular);
}

#[test]
fn get_chapters() {
    let source = MadaraScraper::new(
        SourceID::new(1),
        "https://zinnovel.com/".into(),
        "Source".into(),
        Some(MadaraPaths::new("manga", "manga", "manga")),
        true,
    );

    let chaps = madara_novel(&source, "beastmaster-of-the-ages");

    println!("{chaps:?}");
}

#[test]
fn parse_chapter() {
    let source = MadaraScraper::new(
        SourceID::new(1),
        "https://zinnovel.com/".into(),
        "Source".into(),
        Some(MadaraPaths::new("manga", "manga", "manga")),
        false,
    );

    let novel = "beastmaster-of-the-ages";
    let chapter = "chapter-2496-beast-massacre";
    let chap = get_html(&source.chapter_url(novel, chapter)).and_then(|page| {
        source
            .parse_chapter(novel.into(), chapter.into(), &page)
            .map_err(|e| format!("{e:?}"))
    });
    println!("{chap:?}");
}

#[test]
fn search_novel() {
    let source = MadaraScraper::new(
        SourceID::new(1),
        "https://boxnovel.com/".into(),
        "Source".into(),
        None,
        true,
    );

    let s = get_html(&source.search_url("awakening"))
        .and_then(|page| source.parse_search(&page).map_err(|e| format!("{e:?}")));
    println!("{s:?}");
}
