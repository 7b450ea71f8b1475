use termreader::reader::portion::{BookProgress, BookProgressData};
use termreader::sources::novel::{Novel, NovelStatus};
use termreader::sources::source::SourceID;
use termreader::state::book_info::{BookInfo, BookSource, GlobalBookData};
use termreader::state::commands::{parse_command, Command};
use termreader::state::library::LibBookInfo;
use termreader::state::local::{hash_file, BookType, LocalBookData};
use termreader::state::screen::{
    CurrentScreen, HistoryOptions, HistoryScreen, LibraryOptions, LibraryScreen, Screen, SettingsOptions,
    SourceOptions,
};
use termreader::state::tabs::CategoryTabs;
use termreader::state::book_info::ID;

fn novel(chapters: usize) -> Novel {
    Novel {
        source: SourceID::new(5),
        source_name: "Source".into(),
        full_url: "https://example.com/novel/n/".into(),
        novel_url: "n".into(),
        name: "N".into(),
        author: "A".into(),
        status: NovelStatus::Completed,
        genres: "G".into(),
        summary: "S".into(),
        chapters: (1..=chapters)
            .map(|i| termreader::sources::chapter::ChapterPreview {
                chapter_no: i,
                release_date: String::new(),
                name: format!("Chapter {i}"),
                url: format!("chapter-{i}"),
            })
            .collect(),
        alias: None,
    }
}

#[test]
fn screens() {
    assert!(CurrentScreen::Reader.in_reader());
    assert!(!CurrentScreen::Typing.in_reader());
    assert!(CurrentScreen::Library(LibraryOptions::Default).on_main_menu());
    assert!(CurrentScreen::Sources(SourceOptions::Default).on_main_menu());
    assert!(CurrentScreen::Settings(SettingsOptions::Default).on_main_menu());
    assert!(!CurrentScreen::History(HistoryOptions::HistoryLocalBookOptions).on_main_menu());
    assert!(CurrentScreen::Library(LibraryOptions::Default).on_library_menu());
    assert!(!CurrentScreen::Library(LibraryOptions::CategorySelect).on_library_menu());
    assert!(Screen::Reader.in_reader());
    assert!(Screen::History(HistoryScreen::Default).on_main_menu());
    assert!(!Screen::Library(LibraryScreen::BookSelect).on_main_menu());
    assert!(Screen::Library(LibraryScreen::Default).on_library_menu());
}

#[test]
fn tabs_wrap_around() {
    let mut t = CategoryTabs::with_tabs(vec!["a".into(), "b".into(), "c".into()]);
    assert_eq!(t.index, 0);
    t.previous();
    assert_eq!(t.index, 2);
    t.next();
    assert_eq!(t.index, 0);
    t.next();
    t.next();
    assert_eq!(t.index, 2);
    t.next();
    t.previous();
    assert_eq!(t.index, 2);
}

#[test]
fn commands_in_any_case() {
    assert_eq!(parse_command("quit", None), Command::Quit);
    assert_eq!(parse_command("Q", None), Command::Quit);
    assert_eq!(parse_command("ClearHistory", None), Command::ClearHistory);
    assert_eq!(parse_command("update", None), Command::NoOp);
    let id = ID::generate();
    assert_eq!(parse_command("UPDATE", Some(id)), Command::UpdateBook(id));
    assert_eq!(parse_command("jump", Some(id)), Command::NoOp);
}

#[test]
fn local_books() {
    let d = LocalBookData::create("/home/me/books/Great Book.txt", "one\ntwo\nthree");
    assert_eq!(d.name, "Great Book");
    assert_eq!(d.path_to_book, "/home/me/books/Great Book.txt");
    assert_eq!(d.format, BookType::Txt);
    assert_eq!(d.progress.total_lines, 3);
    assert_eq!(d.progress.progress, BookProgress::Location((0, 0)));
    assert_eq!(d.hash, hash_file("/home/me/books/Great Book.txt"));
    assert_eq!(
        hash_file("abc"),
        "ba7816bf8f01cfea414140de5dae2223b00361a396177a9cb410ff61f20015ad"
    );
    assert_eq!(d.get_progress_lines(), (1, 3));
    assert_eq!(LocalBookData::create("notes.md", "").format, BookType::Unknown);
    assert!(LocalBookData::create_checked("/", "").is_none());
}

#[test]
fn library_books() {
    let lib = LibBookInfo::from_local("/b/story.txt", "x", Some("Cat".into())).unwrap();
    assert!(lib.is_local());
    assert_eq!(lib.name, "story");
    assert_eq!(lib.category, Some("Cat".to_string()));
    let mut g = LibBookInfo::from_global(novel(4), None);
    assert!(!g.is_local());
    assert_eq!(g.name, "N");
    assert_eq!(g.get_progress(), BookProgress::Location((0, 0)));
    g.set_progress(BookProgressData::new(9, BookProgress::Location((3, 1))));
    assert_eq!(g.get_progress(), BookProgress::Location((3, 1)));
    g.update_progress(BookProgress::Finished);
    assert_eq!(g.get_progress(), BookProgress::Finished);
    match &g.source_data {
        BookSource::Global(d) => {
            assert_eq!(d.current_chapter, 1);
            assert_eq!(d.chapter_progress[&1].total_lines, 9);
        }
        _ => panic!("expected a book from a site"),
    }
    let n = LibBookInfo::new(BookSource::Global(GlobalBookData::create(novel(2), 2)), None);
    assert_eq!(n.name, "N");
}

#[test]
fn book_info_chapters() {
    let mut b = BookInfo::from_novel_temp(novel(3), 2);
    assert!(!b.is_local());
    assert_eq!(b.get_source_id(), Some(SourceID::new(5)));
    assert_eq!(b.get_novel().unwrap().name, "N");
    let src = b.get_source_data();
    assert_eq!(src.get_name(), "N");
    assert_eq!(src.get_chapter(), 2);
    assert_eq!(src.get_next_chapter(), Some(3));
    assert_eq!(src.get_prev_chapter(), Some(1));
    b.get_source_data_mut().set_chapter(3);
    assert_eq!(b.get_source_data().get_next_chapter(), None);
    b.set_progress(BookProgressData::new(5, BookProgress::Location((1, 0))), Some(3));
    assert_eq!(b.get_progress(), BookProgress::Location((1, 0)));
    b.update_progress(BookProgress::Location((2, 0)), Some(3));
    assert_eq!(b.get_progress(), BookProgress::Location((2, 0)));
    b.get_source_data_mut().clear_chapter_data();
    assert_eq!(b.get_progress(), BookProgress::Location((0, 0)));
    b.get_source_data_mut().set_chapter(1);
    assert_eq!(b.get_source_data().get_prev_chapter(), None);
}

#[test]
fn local_book_info() {
    let local = LocalBookData::create("/b/story.txt", "a\nb");
    let mut b = BookInfo::Library(LibBookInfo::new(BookSource::Local(local), None));
    assert!(b.is_local());
    assert_eq!(b.get_source_id(), None);
    assert!(b.get_novel().is_none());
    assert_eq!(b.get_source_data().get_chapter(), 0);
    assert_eq!(b.get_source_data().get_next_chapter(), None);
    b.update_progress(BookProgress::Finished, None);
    assert_eq!(b.get_progress(), BookProgress::Finished);
}
