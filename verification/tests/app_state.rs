use termreader::sources::novel::{Novel, NovelStatus};
use termreader::sources::source::{Source, SourceID};
use termreader::sources::chapter::Chapter;
use termreader::state::app::{AppBuffer, AppState};
use termreader::state::book_info::{BookInfo, BookSource};
use termreader::state::history::HistoryEntry;
use termreader::state::screen::{CurrentScreen, HistoryOptions, LibraryOptions, SourceOptions};
use termreader::state::history::HistoryData;
use termreader::state::library::LibBookInfo;
use termreader::state::library_data::LibraryData;
use termreader::state::lists::{ListSelection, StatefulList};
use termreader::state::menu::MenuOptions;
use termreader::state::screen::{NovelPreviewSelection, SourceBookBox};
use termreader::state::source_data::SourceData;

fn novel(name: &str) -> Novel {
    Novel {
        source: SourceID::new(1),
        source_name: "Source".into(),
        full_url: "https://example.com/novel/n/".into(),
        novel_url: "n".into(),
        name: name.into(),
        author: "A".into(),
        status: NovelStatus::Ongoing,
        genres: "G".into(),
        summary: "S".into(),
        chapters: Vec::new(),
        alias: None,
    }
}

fn book(name: &str) -> LibBookInfo {
    LibBookInfo::from_global(novel(name), None)
}

/// Two books whose IDs differ.
fn two_books() -> (LibBookInfo, LibBookInfo) {
    let a = book("A");
    let mut b = book("B");
    while b.id == a.id {
        b = book("B");
    }
    (a, b)
}

fn names(list: &StatefulList<LibBookInfo>) -> Vec<String> {
    list.items.iter().map(|b| b.name.clone()).collect()
}

fn list_of<'a>(lib: &'a LibraryData, cat: &str) -> &'a StatefulList<LibBookInfo> {
    &lib.books.iter().find(|e| e.0 == cat).unwrap().1
}

#[test]
fn list_selection_wraps() {
    let mut l = StatefulList::with_items(vec![1, 2, 3]);
    assert_eq!(l.state.selected, Some(0));
    l.previous();
    assert_eq!(l.state.selected, Some(2));
    l.next();
    assert_eq!(l.state.selected, Some(0));
    l.next();
    l.next();
    assert_eq!(l.selected(), Some(&3));
    l.next();
    assert_eq!(l.selected(), Some(&1));
    l.state.offset = 4;
    l.unselect();
    assert_eq!(l.state, ListSelection { offset: 0, selected: None });
    l.next();
    assert_eq!(l.state.selected, Some(0));
    l.unselect();
    l.previous();
    assert_eq!(l.state.selected, Some(0));
}

#[test]
fn list_edges() {
    let mut e: StatefulList<u8> = StatefulList::new();
    e.next();
    e.previous();
    assert_eq!(e.state, ListSelection::default());
    assert_eq!(e.selected(), None);
    e.insert(7);
    assert_eq!(e.items, vec![7]);
    assert_eq!(e.state.selected, Some(0));
    let one = StatefulList::with_item("x");
    assert_eq!(one.selected_idx(), Some(0));
    let none: StatefulList<u8> = StatefulList::with_items(Vec::new());
    assert_eq!(none.selected_idx(), None);
    let mut l = StatefulList::with_items(vec![1, 2]);
    l.state.select(Some(5));
    assert_eq!(l.selected(), None);
    l.next();
    assert_eq!(l.state.selected, Some(0));
    l.state.offset = 3;
    l.select_first();
    assert_eq!(l.state, ListSelection { offset: 3, selected: Some(0) });
}

#[test]
fn library_starts_with_default() {
    let lib = LibraryData::empty();
    assert_eq!(lib.default_category_name, "Default");
    assert_eq!(lib.books.len(), 1);
    assert_eq!(lib.categories.items, vec!["Default".to_string()]);
    assert_eq!(lib.categories.state.selected, Some(0));
    assert!(lib.get_category_list().items.is_empty());
}

#[test]
fn library_categories() {
    let mut lib = LibraryData::empty();
    lib.create_category("Fantasy".into());
    lib.create_category("Fantasy".into());
    assert_eq!(lib.categories.items, vec!["Default".to_string(), "Fantasy".to_string()]);
    assert_eq!(lib.books.len(), 2);
    lib.add_book(book("A"), Some("Fantasy".into()));
    lib.add_book(book("B"), Some("Nowhere".into()));
    assert_eq!(names(list_of(&lib, "Fantasy")), vec!["A"]);
    assert_eq!(list_of(&lib, "Fantasy").items[0].category, Some("Fantasy".to_string()));
    assert_eq!(names(list_of(&lib, "Default")), vec!["B"]);
    assert_eq!(list_of(&lib, "Default").items[0].category, None);
    assert_eq!(list_of(&lib, "Default").state.selected, Some(0));

    lib.rename_category("Fantasy".into(), "Magic".into());
    assert_eq!(lib.categories.items, vec!["Default".to_string(), "Magic".to_string()]);
    assert_eq!(names(list_of(&lib, "Magic")), vec!["A"]);
    lib.rename_category("Missing".into(), "Other".into());
    assert_eq!(lib.books.len(), 2);

    lib.categories.next();
    assert_eq!(names(lib.get_category_list()), vec!["A"]);
    lib.get_category_list_mut().unselect();
    assert_eq!(list_of(&lib, "Magic").state.selected, None);

    lib.delete_category("Default".into());
    assert_eq!(lib.books.len(), 2);
    lib.delete_category("Magic".into());
    assert_eq!(lib.categories.items, vec!["Default".to_string()]);
    assert_eq!(lib.categories.state.selected, Some(0));
    assert_eq!(names(list_of(&lib, "Default")), vec!["B", "A"]);
}

#[test]
fn renaming_the_default_category() {
    let mut lib = LibraryData::empty();
    lib.rename_category("Default".into(), "Main".into());
    assert_eq!(lib.default_category_name, "Main");
    lib.add_book(book("A"), None);
    assert_eq!(names(list_of(&lib, "Main")), vec!["A"]);
}

#[test]
fn renaming_onto_a_category_replaces_it() {
    let mut lib = LibraryData::empty();
    lib.create_category("X".into());
    lib.create_category("Y".into());
    lib.add_book(book("A"), Some("X".into()));
    lib.add_book(book("B"), Some("Y".into()));
    lib.rename_category("X".into(), "Y".into());
    assert_eq!(lib.books.len(), 2);
    assert_eq!(names(list_of(&lib, "Y")), vec!["A"]);
    assert_eq!(
        lib.categories.items,
        vec!["Default".to_string(), "Y".to_string(), "Y".to_string()]
    );
}

#[test]
fn library_books_move_and_go() {
    let mut lib = LibraryData::empty();
    lib.create_category("C".into());
    let (a, b) = two_books();
    let (ida, idb) = (a.id, b.id);
    lib.add_book(a, None);
    lib.add_book(b, None);
    assert_eq!(lib.find_book(ida).unwrap().name, "A");
    lib.move_category(ida, Some("C".into()));
    assert_eq!(names(list_of(&lib, "Default")), vec!["B"]);
    assert_eq!(names(list_of(&lib, "C")), vec!["A"]);
    assert_eq!(list_of(&lib, "C").items[0].category, Some("C".to_string()));
    lib.rename_book(idb, "Bee".into());
    let found = lib.find_book(idb).unwrap();
    assert_eq!(found.name, "Bee");
    match &found.source_data {
        BookSource::Global(d) => assert_eq!(d.name, "Bee"),
        _ => panic!("expected a book from a site"),
    }
    lib.find_book_mut(ida).unwrap().name = "Ay".into();
    assert_eq!(lib.find_book(ida).unwrap().name, "Ay");
    lib.remove_book(idb);
    assert!(lib.find_book(idb).is_none());
    assert!(lib.find_book_mut(idb).is_none());
    assert!(list_of(&lib, "Default").items.is_empty());
    assert_eq!(list_of(&lib, "Default").state.selected, None);
    lib.rename_book(idb, "Gone".into());
    assert_eq!(names(list_of(&lib, "C")), vec!["Ay"]);
}

#[test]
fn removing_the_selected_book_selects_the_first() {
    let mut lib = LibraryData::empty();
    let (a, b) = two_books();
    let idb = b.id;
    lib.add_book(a, None);
    lib.add_book(b, None);
    lib.get_category_list_mut().next();
    assert_eq!(lib.get_category_list().state.selected, Some(1));
    lib.remove_book(idb);
    assert_eq!(names(lib.get_category_list()), vec!["A"]);
    assert_eq!(lib.get_category_list().state.selected, Some(0));
}

#[test]
fn add_then_remove_gives_back_the_books() {
    let mut lib = LibraryData::empty();
    let (a, b) = two_books();
    let idb = b.id;
    lib.add_book(a, None);
    lib.add_book(b, Some("None such".into()));
    lib.remove_book(idb);
    assert_eq!(names(list_of(&lib, "Default")), vec!["A"]);
}

#[test]
fn create_then_delete_gives_back_the_categories() {
    let mut lib = LibraryData::empty();
    lib.add_book(book("A"), None);
    lib.create_category("Tmp".into());
    lib.delete_category("Tmp".into());
    assert_eq!(lib.categories.items, vec!["Default".to_string()]);
    assert_eq!(names(list_of(&lib, "Default")), vec!["A"]);
}

#[test]
fn rename_then_back_gives_back_the_categories() {
    let mut lib = LibraryData::empty();
    lib.create_category("One".into());
    lib.rename_category("One".into(), "Two".into());
    lib.rename_category("Two".into(), "One".into());
    assert_eq!(lib.categories.items, vec!["Default".to_string(), "One".to_string()]);
}

#[test]
fn history_clears() {
    let mut h = HistoryData::default();
    h.selected.select(Some(2));
    h.clear();
    assert!(h.history.is_empty());
    assert_eq!(h.selected, ListSelection { offset: 0, selected: None });
}

#[test]
fn menus() {
    let m = MenuOptions::new(vec!["Default".into()]);
    assert_eq!(m.local_options.items.len(), 5);
    assert_eq!(m.global_options.items[1], "View chapter list");
    assert_eq!(m.global_history_options.items, vec!["Continue reading", "View book", "Remove from history"]);
    assert_eq!(m.source_book_options.items, vec!["Start from beginning", "Add book to library"]);
    assert_eq!(m.category_options.items[3], "Delete categories");
    assert_eq!(m.category_list.items, vec!["Default"]);
    assert_eq!(m.source_options.state.selected, Some(0));
    let empty = MenuOptions::new(Vec::new());
    assert_eq!(empty.category_list.state.selected, None);
}

#[test]
fn sources_to_browse() {
    let mut s = SourceData::build();
    assert_eq!(s.get_source_names(), vec!["BoxNovel", "ZinnNovel", "NovelTranslate"]);
    assert_eq!(s.get_state().selected, Some(0));
    match &s.sources.items[1].1 {
        Source::Madara(m) => {
            assert_eq!(m.base_url, "https://zinnovel.com/");
            assert_eq!(m.path.as_ref().unwrap().novels, "manga");
            assert!(!m.new_chap_endpoint);
        }
        _ => panic!("expected a Madara source"),
    }
    s.get_list_mut().next();
    assert_eq!(s.get_list().state.selected, Some(1));
    s.get_state_mut().select(None);
    assert_eq!(s.get_state().selected, None);
    assert!(s.current_novel.is_none());
    assert_eq!(s.current_book_ui_option, SourceBookBox::Options);
    assert_ne!(NovelPreviewSelection::Summary, NovelPreviewSelection::Chapters);
}

#[test]
fn screens_and_the_way_back() {
    let mut app = AppState::build(LibraryData::empty(), HistoryData::default());
    assert_eq!(app.current_screen, CurrentScreen::Library(LibraryOptions::Default));
    assert!(app.prev_screens.is_empty());
    assert_eq!(app.current_main_tab.tabs, vec!["Library", "Updates", "Sources", "History", "Settings"]);
    assert_eq!(app.menu_options.category_list.items, vec!["Default"]);
    assert_eq!(app.history_data.selected.selected, None);
    assert!(!app.command_bar);
    app.update_screen(CurrentScreen::Library(LibraryOptions::CategorySelect));
    assert_eq!(app.prev_screens, vec![CurrentScreen::Library(LibraryOptions::Default)]);
    assert_eq!(app.get_last_screen(), CurrentScreen::Library(LibraryOptions::Default));
    app.update_screen(CurrentScreen::Reader);
    app.update_screen(CurrentScreen::Reader);
    assert_eq!(app.current_screen, CurrentScreen::Reader);
    assert_eq!(app.get_last_screen(), CurrentScreen::Library(LibraryOptions::CategorySelect));
    assert_eq!(app.prev_screens.len(), 2);
    app.update_screen(CurrentScreen::History(HistoryOptions::Default));
    assert!(app.prev_screens.is_empty());
    app.update_screen(CurrentScreen::Typing);
    assert_eq!(app.prev_screens, vec![CurrentScreen::History(HistoryOptions::Default)]);
    app.to_source_screen();
    assert_eq!(app.current_screen, CurrentScreen::Sources(SourceOptions::Default));
    assert!(app.prev_screens.is_empty());
    app.to_lib_screen();
    assert_eq!(app.current_screen, CurrentScreen::Library(LibraryOptions::Default));
    app.to_history_screen();
    assert_eq!(app.current_screen, CurrentScreen::History(HistoryOptions::Default));
}

#[test]
fn menus_follow_the_library() {
    let mut app = AppState::build(LibraryData::empty(), HistoryData::default());
    app.library_data.create_category("More".into());
    app.update_category_list();
    assert_eq!(app.menu_options.category_list.items, vec!["Default", "More"]);
    assert_eq!(app.menu_options.category_list.state.selected, Some(0));
    app.menu_options.global_options.next();
    app.menu_options.category_options.previous();
    app.reset_selections();
    assert_eq!(app.menu_options.global_options.state.selected, Some(0));
    assert_eq!(app.menu_options.category_options.state.selected, Some(0));
}

#[test]
fn history_selected_when_loaded() {
    let mut h = HistoryData::default();
    h.history.push_back(HistoryEntry { book: BookInfo::Library(book("A")), timestamp: 5, chapter: 1 });
    let app = AppState::build(LibraryData::empty(), h);
    assert_eq!(app.history_data.selected.selected, Some(0));
    assert_eq!(app.history_data.history.len(), 1);
}

#[test]
fn buffer_clears() {
    let mut b = AppBuffer::new();
    assert_eq!(b.temp_state_select.selected, Some(0));
    assert_eq!(b.novel_preview_selection, NovelPreviewSelection::Chapters);
    b.text.push_str("abc");
    b.novel_preview_scroll = 3;
    b.selection_options.push("x".into());
    b.clear();
    assert!(b.text.is_empty());
    assert!(b.selection_options.is_empty());
    assert_eq!(b.novel_preview_scroll, 0);
}

#[test]
fn opening_the_reader() {
    let mut app = AppState::build(LibraryData::empty(), HistoryData::default());
    let mut n = novel("N");
    n.chapters = vec![termreader::sources::chapter::ChapterPreview {
        chapter_no: 1,
        release_date: String::new(),
        name: "Chapter 1".into(),
        url: "chapter-1".into(),
    }];
    let info = BookInfo::from_novel_temp(n, 1);
    let text = Chapter {
        source: SourceID::new(1),
        novel_url: "n".into(),
        chapter_url: "chapter-1".into(),
        chapter_name: "Chapter 1".into(),
        chapter_contents: "one\ntwo".into(),
    };
    app.move_to_reader(info, Some(1), Some(text), Vec::new());
    assert_eq!(app.current_screen, CurrentScreen::Reader);
    assert_eq!(app.get_last_screen(), CurrentScreen::Library(LibraryOptions::Default));
    let r = app.reader_data.as_ref().unwrap();
    assert_eq!(r.global_chapter, 1);
}

#[test]
fn results_and_novels_shown() {
    let mut app = AppState::build(LibraryData::empty(), HistoryData::default());
    app.to_source_screen();
    app.show_search_results(vec![termreader::sources::novel::NovelPreview::new(
        SourceID::new(1),
        "N".into(),
        "n".into(),
    )]);
    assert_eq!(app.current_screen, CurrentScreen::Sources(SourceOptions::SearchResults));
    assert_eq!(app.buffer.novel_previews.state.selected, Some(0));
    let mut n = novel("N");
    n.chapters = vec![termreader::sources::chapter::ChapterPreview {
        chapter_no: 1,
        release_date: String::new(),
        name: "Chapter 1".into(),
        url: "chapter-1".into(),
    }];
    app.show_novel(n, true);
    assert_eq!(app.current_screen, CurrentScreen::Sources(SourceOptions::BookView));
    assert_eq!(app.buffer.chapter_previews.items.len(), 1);
    assert_eq!(app.get_last_screen(), CurrentScreen::Sources(SourceOptions::SearchResults));
    let text = Chapter {
        source: SourceID::new(1),
        novel_url: "n".into(),
        chapter_url: "chapter-1".into(),
        chapter_name: "Chapter 1".into(),
        chapter_contents: "first line\nsecond line".into(),
    };
    app.open_temp_chapter(text, 1);
    assert_eq!(app.current_screen, CurrentScreen::Reader);
    let r = app.reader_data.as_mut().unwrap();
    assert!(r.can_lay_out());
    let page = r.lay_out(20, 5).unwrap();
    assert_eq!(page.lines, vec!["first line", "second line"]);
    assert!(r.can_record());
    let again = r.lay_out(20, 5).unwrap();
    assert_eq!(again.lines, page.lines);
}

#[test]
fn sources_found_by_id() {
    let s = SourceData::build();
    assert_eq!(s.get_source_by_id(SourceID::new(3)).unwrap().get_name(), "NovelTranslate");
    assert!(s.get_source_by_id(SourceID::new(9)).is_none());
}

#[test]
fn library_checks() {
    let mut lib = LibraryData::empty();
    assert!(lib.is_wf());
    assert!(lib.is_category_selected());
    let b = book("A");
    let id = b.id;
    lib.add_book(b, None);
    assert!(lib.is_selected_where_held(id));
    lib.books[0].1.state.selected = None;
    assert!(!lib.is_selected_where_held(id));
    lib.books.push(("Default".into(), StatefulList::new()));
    assert!(!lib.is_wf());
    let mut other = LibraryData::empty();
    other.default_category_name = "Gone".into();
    assert!(!other.is_wf());
    let id2 = termreader::state::book_info::ID::from_u128(77);
    assert_eq!(id2.as_u128(), 77);
}

#[test]
fn saving_reading_progress() {
    let mut lib = LibraryData::empty();
    let (a, other) = two_books();
    let id = a.id;
    let chapter = a.source_data.get_chapter();
    lib.add_book(a.clone(), None);
    let mut history = HistoryData::default();
    history.history.push_back(HistoryEntry { book: BookInfo::Library(other.clone()), timestamp: 1, chapter: 0 });
    history.history.push_back(HistoryEntry { book: BookInfo::Library(a.clone()), timestamp: 2, chapter: 0 });
    let mut app = AppState::build(lib, history);

    app.update_from_reader();
    assert_eq!(app.history_data.history.len(), 2);

    let text = Chapter {
        source: SourceID::new(1),
        novel_url: "n".into(),
        chapter_url: "chapter-1".into(),
        chapter_name: "Chapter 1".into(),
        chapter_contents: "first line\nsecond line".into(),
    };
    app.move_to_reader(BookInfo::Library(a), Some(0), Some(text), Vec::new());
    app.reader_data.as_mut().unwrap().lay_out(20, 5).unwrap();
    assert!(app.reader_data.as_ref().unwrap().can_record());
    app.update_from_reader();

    let saved = app.library_data.find_book(id).unwrap();
    match &saved.source_data {
        BookSource::Global(d) => {
            assert!(d.read_chapters.contains(&0));
            assert!(d.chapter_progress.contains_key(&0));
        }
        BookSource::Local(_) => panic!("a book from a site"),
    }
    let h = &app.history_data.history;
    assert_eq!(h.len(), 2);
    assert!(matches!(&h[0].book, BookInfo::Library(d) if d.id == id));
    assert_eq!(h[0].chapter, chapter);
    assert!(h[0].timestamp > 2);
    assert!(matches!(&h[1].book, BookInfo::Library(d) if d.id == other.id));

    app.update_from_reader();
    assert_eq!(app.history_data.history.len(), 2);
}

#[test]
fn opening_a_library_chapter() {
    let mut lib = LibraryData::empty();
    let a = book("A");
    let id = a.id;
    lib.add_book(a, None);
    let mut app = AppState::build(lib, HistoryData::default());
    let text = Chapter {
        source: SourceID::new(1),
        novel_url: "n".into(),
        chapter_url: "chapter-3".into(),
        chapter_name: "Chapter 3".into(),
        chapter_contents: "three".into(),
    };
    assert!(app.can_open_library_chapter(&text, 3, &Vec::new()));
    app.open_library_chapter(text, 3, Vec::new());
    assert_eq!(app.current_screen, CurrentScreen::Reader);
    let r = app.reader_data.as_ref().unwrap();
    assert_eq!(r.global_chapter, 3);
    match &r.book_info {
        BookInfo::Library(b) => {
            assert_eq!(b.id, id);
            assert_eq!(b.source_data.get_chapter(), 3);
        }
        BookInfo::Reader(_) => panic!("a library book"),
    }
    // The library's own copy keeps its chapter until the reading is saved.
    assert_ne!(app.library_data.find_book(id).unwrap().source_data.get_chapter(), 3);

    let mut empty = AppState::build(LibraryData::empty(), HistoryData::default());
    let t = Chapter {
        source: SourceID::new(1),
        novel_url: "n".into(),
        chapter_url: "c".into(),
        chapter_name: "C".into(),
        chapter_contents: "c".into(),
    };
    assert!(!empty.can_open_library_chapter(&t, 1, &Vec::new()));
    empty.update_from_reader();
    assert!(empty.history_data.history.is_empty());
}

#[test]
fn refreshing_a_novel() {
    let mut lib = LibraryData::empty();
    let a = book("A");
    let id = a.id;
    lib.add_book(a, None);
    let mut fresh = novel("A");
    fresh.chapters = vec![
        termreader::sources::chapter::ChapterPreview {
            chapter_no: 1,
            release_date: String::new(),
            name: "Chapter 1".into(),
            url: "chapter-1".into(),
        },
        termreader::sources::chapter::ChapterPreview {
            chapter_no: 2,
            release_date: String::new(),
            name: "Chapter 2".into(),
            url: "chapter-2".into(),
        },
    ];
    lib.update_novel(id, fresh);
    match &lib.find_book(id).unwrap().source_data {
        BookSource::Global(d) => {
            assert_eq!(d.total_chapters, 2);
            assert_eq!(d.novel.chapters.len(), 2);
        }
        BookSource::Local(_) => panic!("a book from a site"),
    }
    let (_, other) = two_books();
    let before = lib.books.len();
    lib.update_novel(other.id, novel("B"));
    assert_eq!(lib.books.len(), before);
}
