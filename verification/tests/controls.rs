use termreader::sources::chapter::{Chapter, ChapterPreview};
use termreader::sources::novel::{Novel, NovelStatus};
use termreader::sources::source::SourceID;
use termreader::state::app::AppState;
use termreader::state::book_info::BookInfo;
use termreader::state::controls::{alias, Action, Key};
use termreader::state::history::HistoryData;
use termreader::state::library::LibBookInfo;
use termreader::state::library_data::LibraryData;
use termreader::state::screen::{CurrentScreen, HistoryOptions, LibraryOptions, NovelPreviewSelection, SourceOptions, UpdateOptions};

fn app() -> AppState {
    AppState::build(LibraryData::empty(), HistoryData::default())
}

fn press(app: &mut AppState, key: Key) -> (bool, Action) {
    assert!(app.can_handle(key));
    app.handle_controls(key)
}

fn type_text(app: &mut AppState, text: &str) {
    for c in text.chars() {
        press(app, Key::Char(c));
    }
}

fn novel(chapters: usize) -> Novel {
    Novel {
        source: SourceID::new(2),
        source_name: "Source".into(),
        full_url: "https://example.com/novel/n/".into(),
        novel_url: "n".into(),
        name: "N".into(),
        author: "A".into(),
        status: NovelStatus::Ongoing,
        genres: "G".into(),
        summary: "S".into(),
        chapters: (1..=chapters)
            .map(|i| ChapterPreview {
                chapter_no: i,
                release_date: String::new(),
                name: format!("Chapter {i}"),
                url: format!("chapter-{i}"),
            })
            .collect(),
        alias: None,
    }
}

#[test]
fn keys_alias_the_arrows() {
    assert_eq!(alias(Key::Char('j')), Key::Down);
    assert_eq!(alias(Key::Char('k')), Key::Up);
    assert_eq!(alias(Key::Char('h')), Key::Left);
    assert_eq!(alias(Key::Char('l')), Key::Right);
    assert_eq!(alias(Key::Char('x')), Key::Char('x'));
}

#[test]
fn tabs_switch_the_main_menus() {
    let mut a = app();
    press(&mut a, Key::Tab);
    assert_eq!(a.current_screen, CurrentScreen::Updates(UpdateOptions::Default));
    press(&mut a, Key::Char(']'));
    assert_eq!(a.current_screen, CurrentScreen::Sources(SourceOptions::Default));
    press(&mut a, Key::BackTab);
    press(&mut a, Key::BackTab);
    assert_eq!(a.current_screen, CurrentScreen::Library(LibraryOptions::Default));
    press(&mut a, Key::BackTab);
    assert_eq!(a.current_main_tab.index, 4);
}

#[test]
fn escape_on_a_main_menu_quits() {
    let mut a = app();
    let (quit, act) = press(&mut a, Key::Esc);
    assert!(quit);
    assert!(matches!(act, Action::Nothing));
    let (quit, _) = press(&mut a, Key::Char('q'));
    assert!(quit);
}

#[test]
fn command_bar_runs_commands() {
    let mut a = app();
    press(&mut a, Key::Char(':'));
    assert!(a.command_bar);
    type_text(&mut a, "cLeArHiStOrY");
    assert_eq!(a.buffer.text, "cLeArHiStOrY");
    press(&mut a, Key::Backspace);
    press(&mut a, Key::Char('y'));
    let (quit, _) = press(&mut a, Key::Enter);
    assert!(!quit);
    assert!(!a.command_bar);
    assert!(a.buffer.text.is_empty());
    press(&mut a, Key::Char(':'));
    type_text(&mut a, "q");
    let (quit, _) = press(&mut a, Key::Enter);
    assert!(quit);
    press(&mut a, Key::Char(':'));
    type_text(&mut a, "x");
    press(&mut a, Key::Esc);
    assert!(!a.command_bar);
    assert!(a.buffer.text.is_empty());
}

#[test]
fn update_asks_to_fetch_the_selected_book() {
    let mut a = app();
    a.library_data.add_book(LibBookInfo::from_global(novel(3), None), None);
    press(&mut a, Key::Char(':'));
    type_text(&mut a, "update");
    let (_, act) = press(&mut a, Key::Enter);
    match act {
        Action::UpdateNovel { source, novel_url, .. } => {
            assert_eq!(source, SourceID::new(2));
            assert_eq!(novel_url, "n");
        }
        _ => panic!("expected an update"),
    }
}

#[test]
fn creating_a_category_by_typing() {
    let mut a = app();
    press(&mut a, Key::Char('c'));
    assert_eq!(a.current_screen, CurrentScreen::Library(LibraryOptions::CategoryOptions));
    press(&mut a, Key::Enter);
    assert_eq!(a.current_screen, CurrentScreen::Typing);
    type_text(&mut a, "Later");
    press(&mut a, Key::Enter);
    assert_eq!(a.current_screen, CurrentScreen::Library(LibraryOptions::Default));
    assert!(a.prev_screens.is_empty());
    assert_eq!(a.library_data.categories.items, vec!["Default", "Later"]);
    assert_eq!(a.menu_options.category_list.items, vec!["Default", "Later"]);
    assert!(a.buffer.text.is_empty());
}

#[test]
fn searching_and_browsing_a_source() {
    let mut a = app();
    press(&mut a, Key::Tab);
    press(&mut a, Key::Tab);
    press(&mut a, Key::Enter);
    assert_eq!(a.current_screen, CurrentScreen::Sources(SourceOptions::SourceSelect));
    press(&mut a, Key::Down);
    let (_, act) = press(&mut a, Key::Enter);
    assert!(matches!(act, Action::Popular { source } if source == SourceID::new(1)));
    press(&mut a, Key::Up);
    press(&mut a, Key::Enter);
    assert_eq!(a.current_screen, CurrentScreen::Typing);
    type_text(&mut a, "sword");
    let (_, act) = press(&mut a, Key::Enter);
    match act {
        Action::Search { source, term } => {
            assert_eq!(source, SourceID::new(1));
            assert_eq!(term, "sword");
        }
        _ => panic!("expected a search"),
    }
    assert_eq!(a.current_screen, CurrentScreen::Typing);
    press(&mut a, Key::Esc);
    assert_eq!(a.current_screen, CurrentScreen::Sources(SourceOptions::SourceSelect));
}

#[test]
fn a_novels_view() {
    let mut a = app();
    a.current_screen = CurrentScreen::Sources(SourceOptions::BookView);
    a.prev_screens = vec![CurrentScreen::Sources(SourceOptions::SearchResults)];
    a.buffer.novel = Some(novel(3));
    a.buffer.chapter_previews = termreader::state::lists::StatefulList::with_items(novel(3).chapters);
    a.buffer.novel_preview_selection = NovelPreviewSelection::Options;
    press(&mut a, Key::Tab);
    assert_eq!(a.buffer.novel_preview_selection, NovelPreviewSelection::Chapters);
    press(&mut a, Key::Down);
    let (_, act) = press(&mut a, Key::Enter);
    match act {
        Action::FetchChapter { chapter, chapter_url, in_library, .. } => {
            assert_eq!(chapter, 2);
            assert_eq!(chapter_url, "chapter-2");
            assert!(!in_library);
        }
        _ => panic!("expected a chapter"),
    }
    press(&mut a, Key::Tab);
    press(&mut a, Key::Down);
    press(&mut a, Key::Down);
    press(&mut a, Key::Up);
    assert_eq!(a.buffer.novel_preview_scroll, 1);
    press(&mut a, Key::Tab);
    press(&mut a, Key::Down);
    let (_, act) = press(&mut a, Key::Enter);
    assert!(matches!(act, Action::Nothing));
    assert_eq!(a.current_screen, CurrentScreen::Sources(SourceOptions::SearchResults));
    assert_eq!(a.library_data.books[0].1.items.len(), 1);
}

#[test]
fn the_reader_scrolls_and_leaves() {
    let mut a = app();
    let text = Chapter {
        source: SourceID::new(2),
        novel_url: "n".into(),
        chapter_url: "chapter-1".into(),
        chapter_name: "Chapter 1".into(),
        chapter_contents: "one\ntwo".into(),
    };
    a.move_to_reader(BookInfo::from_novel_temp(novel(3), 1), Some(1), Some(text), Vec::new());
    press(&mut a, Key::Down);
    let (_, act) = press(&mut a, Key::Right);
    match act {
        Action::FetchChapter { chapter, chapter_url, in_library, .. } => {
            assert_eq!(chapter, 2);
            assert_eq!(chapter_url, "chapter-2");
            assert!(!in_library);
        }
        _ => panic!("expected the next chapter"),
    }
    let (_, act) = press(&mut a, Key::Left);
    assert!(matches!(act, Action::Nothing));
    let (quit, act) = press(&mut a, Key::Esc);
    assert!(!quit);
    assert!(matches!(act, Action::SaveReading));
    assert_eq!(a.current_screen, CurrentScreen::Library(LibraryOptions::Default));
}

#[test]
fn history_entries() {
    let mut a = app();
    let mut h = HistoryData::default();
    h.history.push_back(termreader::state::history::HistoryEntry {
        book: BookInfo::from_novel_temp(novel(3), 2),
        timestamp: 1,
        chapter: 2,
    });
    a.history_data = h;
    a.current_screen = CurrentScreen::History(HistoryOptions::Default);
    press(&mut a, Key::Down);
    assert_eq!(a.history_data.selected.selected, Some(0));
    press(&mut a, Key::Enter);
    assert_eq!(a.current_screen, CurrentScreen::History(HistoryOptions::HistoryGlobalBookOptions));
    let (_, act) = press(&mut a, Key::Enter);
    match act {
        Action::FetchChapter { chapter, chapter_url, .. } => {
            assert_eq!(chapter, 2);
            assert_eq!(chapter_url, "chapter-2");
        }
        _ => panic!("expected the chapter read last"),
    }
    press(&mut a, Key::Down);
    press(&mut a, Key::Down);
    press(&mut a, Key::Enter);
    assert!(a.history_data.history.is_empty());
    assert_eq!(a.current_screen, CurrentScreen::History(HistoryOptions::Default));
}

#[test]
fn some_keys_cannot_be_taken() {
    let mut a = app();
    a.current_screen = CurrentScreen::Library(LibraryOptions::GlobalBookSelect);
    assert!(!a.can_handle(Key::Enter));
    assert!(a.can_handle(Key::Down));
    a.current_screen = CurrentScreen::Reader;
    assert!(!a.can_handle(Key::Down));
}

#[test]
fn history_down_then_up_comes_back() {
    let mut a = app();
    for ch in 1..=3 {
        a.history_data.history.push_back(termreader::state::history::HistoryEntry {
            book: BookInfo::from_novel_temp(novel(3), ch),
            timestamp: ch as u64,
            chapter: ch,
        });
    }
    a.current_screen = CurrentScreen::History(HistoryOptions::Default);
    press(&mut a, Key::Down);
    press(&mut a, Key::Down);
    assert_eq!(a.history_data.selected.selected, Some(1));
    press(&mut a, Key::Down);
    press(&mut a, Key::Up);
    assert_eq!(a.history_data.selected.selected, Some(1));
    press(&mut a, Key::Down);
    press(&mut a, Key::Down);
    assert_eq!(a.history_data.selected.selected, Some(0));
    press(&mut a, Key::Up);
    assert_eq!(a.history_data.selected.selected, Some(2));
}
