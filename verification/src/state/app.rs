//! The state of the app: the screen shown and the way back, and the data
//! each screen works on.

use vstd::prelude::*;

use crate::reader::reader_data::{can_create, can_open, ReaderData};
use crate::sources::chapter::{Chapter, ChapterPreview};
use crate::sources::novel::{Novel, NovelPreview};
use crate::clock::secs_since_epoch;
use crate::state::book_info::{BookInfo, BookSource, GlobalBookData};
use crate::state::library::LibBookInfo;
use crate::state::history::{last_same, lemma_last_same, without_last_same, HistoryData, HistoryEntry};
use crate::state::library_data::LibraryData;
use crate::state::same::is_same_book;
use crate::state::lists::{ListSelection, StatefulList};
use crate::state::menu::MenuOptions;
use crate::state::screen::{CurrentScreen, HistoryOptions, LibraryOptions, NovelPreviewSelection, SourceOptions};
use crate::state::source_data::SourceData;
use crate::state::tabs::CategoryTabs;

verus! {

/// Temporary data of the screens.
#[derive(Debug)]
pub struct AppBuffer {
    /// Text for textboxes.
    pub text: String,
    pub selection_options: Vec<String>,
    pub temp_state_unselect: ListSelection,
    pub temp_state_select: ListSelection,
    pub novel: Option<Novel>,
    pub novel_preview_selection: NovelPreviewSelection,
    pub novel_preview_scroll: usize,
    pub novel_previews: StatefulList<NovelPreview>,
    pub chapter_previews: StatefulList<ChapterPreview>,
}

impl AppBuffer {
    /// Whether `b` holds nothing: no text, no options, no novel, the
    /// chapters in focus, and the first option of the selecting box selected.
    pub open spec fn is_clear(b: AppBuffer) -> bool {
        &&& b.text@ == Seq::<char>::empty()
        &&& b.selection_options@ == Seq::<String>::empty()
        &&& b.temp_state_unselect == ListSelection::none()
        &&& b.temp_state_select == ListSelection::none().select_spec(Some(0))
        &&& b.novel is None
        &&& b.novel_preview_selection == NovelPreviewSelection::Chapters
        &&& b.novel_preview_scroll == 0
        &&& b.novel_previews@ == (ListSelection::none(), Seq::<NovelPreview>::empty())
        &&& b.chapter_previews@ == (ListSelection::none(), Seq::<ChapterPreview>::empty())
    }

    pub fn new() -> (r: Self)
        ensures
            Self::is_clear(r),
    {
        AppBuffer {
            text: String::new(),
            selection_options: Vec::new(),
            temp_state_unselect: ListSelection::default(),
            temp_state_select: ListSelection::default().with_selected(Some(0)),
            novel: None,
            novel_preview_selection: NovelPreviewSelection::Chapters,
            novel_preview_scroll: 0,
            novel_previews: StatefulList::new(),
            chapter_previews: StatefulList::new(),
        }
    }

    /// Empties the buffer.
    pub fn clear(&mut self)
        ensures
            Self::is_clear(*final(self)),
    {
        *self = AppBuffer::new();
    }
}

/// The screen after asking for `new` from `current` with the way back
/// `prev`, and the way back then. Asking for the reader in the reader
/// changes nothing; a main menu forgets the way back.
pub open spec fn screen_step(
    current: CurrentScreen,
    prev: Seq<CurrentScreen>,
    new: CurrentScreen,
) -> (CurrentScreen, Seq<CurrentScreen>) {
    if current is Reader && new is Reader {
        (current, prev)
    } else {
        let kept = if current.is_main_menu() { Seq::<CurrentScreen>::empty() } else { prev };
        if new.is_main_menu() {
            (new, Seq::<CurrentScreen>::empty())
        } else {
            (new, kept.push(current))
        }
    }
}

/// The state of the app.
#[derive(Debug)]
pub struct AppState {
    /// The screen that is being rendered.
    pub current_screen: CurrentScreen,
    /// The previously accessed screens: the way back.
    pub prev_screens: Vec<CurrentScreen>,
    /// The main tabs.
    pub current_main_tab: CategoryTabs,
    /// The user's library.
    pub library_data: LibraryData,
    /// The reader, once the user has opened a book in this session.
    pub reader_data: Option<ReaderData>,
    /// The reading history.
    pub history_data: HistoryData,
    /// The options of the menus, and their selections.
    pub menu_options: MenuOptions,
    /// The sources, and what was found in them.
    pub source_data: SourceData,
    /// Temporary data.
    pub buffer: AppBuffer,
    /// Whether the user is in the command bar.
    pub command_bar: bool,
}

impl AppState {
    /// `s` and `t` differ at most in the screen shown and the way back.
    pub open spec fn same_but_screens(s: AppState, t: AppState) -> bool {
        t == AppState { current_screen: t.current_screen, prev_screens: t.prev_screens, ..s }
    }

    /// The app on the library screen, over a library and a history loaded
    /// from disk; a history that has entries has its first selected.
    pub fn build(library_data: LibraryData, history_data: HistoryData) -> (r: Self)
        ensures
            r.current_screen == CurrentScreen::Library(LibraryOptions::Default),
            r.prev_screens@ == Seq::<CurrentScreen>::empty(),
            r.current_main_tab.index == 0,
            r.current_main_tab.tabs@.map_values(|t: String| t@) == seq![
                "Library"@,
                "Updates"@,
                "Sources"@,
                "History"@,
                "Settings"@,
            ],
            r.library_data == library_data,
            r.reader_data is None,
            r.history_data.history == history_data.history,
            r.history_data.selected == (if history_data.history@.len() == 0 {
                history_data.selected
            } else {
                history_data.selected.select_spec(Some(0))
            }),
            r.menu_options.category_list.items@ == library_data.categories.items@,
            AppBuffer::is_clear(r.buffer),
            !r.command_bar,
    {
        let mut history_data = history_data;
        if history_data.history.len() > 0 {
            history_data.selected.select(Some(0));
        }
        let cats = library_data.categories.items.clone();
        let tabs = vec![
            String::from_str("Library"),
            String::from_str("Updates"),
            String::from_str("Sources"),
            String::from_str("History"),
            String::from_str("Settings"),
        ];
        let r = Self {
            current_screen: CurrentScreen::Library(LibraryOptions::Default),
            prev_screens: Vec::new(),
            current_main_tab: CategoryTabs::with_tabs(tabs),
            library_data,
            history_data,
            reader_data: None,
            menu_options: MenuOptions::new(cats),
            source_data: SourceData::build(),
            buffer: AppBuffer::new(),
            command_bar: false,
        };
        proof {
            assert(r.current_main_tab.tabs@.map_values(|t: String| t@) =~= seq![
                "Library"@,
                "Updates"@,
                "Sources"@,
                "History"@,
                "Settings"@,
            ]);
        }
        r
    }

    /// The screen the back button leads to.
    pub fn get_last_screen(&self) -> (r: CurrentScreen)
        requires
            self.prev_screens@.len() > 0,
        ensures
            r == self.prev_screens@.last(),
    {
        self.prev_screens[self.prev_screens.len() - 1]
    }

    /// Goes to the screen `new`, remembering the way back.
    pub fn update_screen(&mut self, new: CurrentScreen)
        ensures
            (final(self).current_screen, final(self).prev_screens@) == screen_step(
                old(self).current_screen,
                old(self).prev_screens@,
                new,
            ),
            AppState::same_but_screens(*old(self), *final(self)),
    {
        if self.current_screen.in_reader() && new == CurrentScreen::Reader {
            return;
        }
        if self.current_screen.on_main_menu() {
            self.prev_screens = Vec::new();
        }
        if new.on_main_menu() {
            self.prev_screens = Vec::new();
        } else {
            self.prev_screens.push(self.current_screen);
        }
        self.current_screen = new;
    }

    pub fn to_history_screen(&mut self)
        ensures
            final(self).current_screen == CurrentScreen::History(HistoryOptions::Default),
            final(self).prev_screens@ == Seq::<CurrentScreen>::empty(),
            AppState::same_but_screens(*old(self), *final(self)),
    {
        self.prev_screens = Vec::new();
        self.current_screen = CurrentScreen::History(HistoryOptions::Default);
    }

    pub fn to_lib_screen(&mut self)
        ensures
            final(self).current_screen == CurrentScreen::Library(LibraryOptions::Default),
            final(self).prev_screens@ == Seq::<CurrentScreen>::empty(),
            AppState::same_but_screens(*old(self), *final(self)),
    {
        self.prev_screens = Vec::new();
        self.current_screen = CurrentScreen::Library(LibraryOptions::Default);
    }

    pub fn to_source_screen(&mut self)
        ensures
            final(self).current_screen == CurrentScreen::Sources(SourceOptions::Default),
            final(self).prev_screens@ == Seq::<CurrentScreen>::empty(),
            AppState::same_but_screens(*old(self), *final(self)),
    {
        self.prev_screens = Vec::new();
        self.current_screen = CurrentScreen::Sources(SourceOptions::Default);
    }

    /// Lists the library's categories in the category menu, the first selected.
    pub fn update_category_list(&mut self)
        ensures
            final(self).menu_options.category_list.items@ == old(self).library_data.categories.items@,
            final(self).menu_options.category_list.state == (if old(self).library_data.categories.items@.len()
                == 0 {
                ListSelection::none()
            } else {
                ListSelection::none().select_spec(Some(0))
            }),
            *final(self) == (AppState {
                menu_options: MenuOptions { category_list: final(self).menu_options.category_list, ..old(self).menu_options },
                ..*old(self)
            }),
    {
        let cats = self.library_data.categories.items.clone();
        self.menu_options.category_list = StatefulList::with_items(cats);
    }

    /// Selects the first option of every menu.
    pub fn reset_selections(&mut self)
        ensures
            final(self).menu_options.global_options@ == (old(self).menu_options.global_options.state.select_spec(Some(0)), old(self).menu_options.global_options.items@),
            final(self).menu_options.local_options@ == (old(self).menu_options.local_options.state.select_spec(Some(0)), old(self).menu_options.local_options.items@),
            final(self).menu_options.source_options@ == (old(self).menu_options.source_options.state.select_spec(Some(0)), old(self).menu_options.source_options.items@),
            final(self).menu_options.local_history_options@ == (old(self).menu_options.local_history_options.state.select_spec(Some(0)), old(self).menu_options.local_history_options.items@),
            final(self).menu_options.global_history_options@ == (old(self).menu_options.global_history_options.state.select_spec(Some(0)), old(self).menu_options.global_history_options.items@),
            final(self).menu_options.category_list@ == (old(self).menu_options.category_list.state.select_spec(Some(0)), old(self).menu_options.category_list.items@),
            final(self).menu_options.source_book_options@ == (old(self).menu_options.source_book_options.state.select_spec(Some(0)), old(self).menu_options.source_book_options.items@),
            final(self).menu_options.category_options@ == (old(self).menu_options.category_options.state.select_spec(Some(0)), old(self).menu_options.category_options.items@),
            *final(self) == (AppState { menu_options: final(self).menu_options, ..*old(self) }),
    {
        self.menu_options.global_options.select_first();
        self.menu_options.local_options.select_first();
        self.menu_options.source_options.select_first();
        self.menu_options.local_history_options.select_first();
        self.menu_options.global_history_options.select_first();
        self.menu_options.category_list.select_first();
        self.menu_options.source_book_options.select_first();
        self.menu_options.category_options.select_first();
    }

    /// Shows the novels a search or a list of popular novels found.
    pub fn show_search_results(&mut self, previews: Vec<NovelPreview>)
        ensures
            final(self).buffer.novel_previews@ == (if previews@.len() == 0 {
                ListSelection::none()
            } else {
                ListSelection::none().select_spec(Some(0))
            }, previews@),
            (final(self).current_screen, final(self).prev_screens@) == screen_step(
                old(self).current_screen,
                old(self).prev_screens@,
                CurrentScreen::Sources(SourceOptions::SearchResults),
            ),
            *final(self) == (AppState {
                buffer: AppBuffer { novel_previews: final(self).buffer.novel_previews, ..old(self).buffer },
                current_screen: final(self).current_screen,
                prev_screens: final(self).prev_screens,
                ..*old(self)
            }),
    {
        self.buffer.novel_previews = StatefulList::with_items(previews);
        self.update_screen(CurrentScreen::Sources(SourceOptions::SearchResults));
    }

    /// Shows a novel fetched: with its options (`with_options`) in the
    /// sources' view of a novel, otherwise in the chapter list.
    pub fn show_novel(&mut self, novel: Novel, with_options: bool)
        ensures
            final(self).buffer.novel == Some(novel),
            final(self).buffer.chapter_previews@ == (if novel.chapters@.len() == 0 {
                ListSelection::none()
            } else {
                ListSelection::none().select_spec(Some(0))
            }, novel.chapters@),
            (final(self).current_screen, final(self).prev_screens@) == screen_step(
                old(self).current_screen,
                old(self).prev_screens@,
                if with_options {
                    CurrentScreen::Sources(SourceOptions::BookView)
                } else {
                    CurrentScreen::Misc(crate::state::screen::MiscOptions::ChapterView)
                },
            ),
            *final(self) == (AppState {
                buffer: AppBuffer {
                    novel: final(self).buffer.novel,
                    chapter_previews: final(self).buffer.chapter_previews,
                    ..old(self).buffer
                },
                current_screen: final(self).current_screen,
                prev_screens: final(self).prev_screens,
                ..*old(self)
            }),
    {
        let chapters = novel.chapters.clone();
        proof {
            assert(chapters@ =~= novel.chapters@);
        }
        self.buffer.chapter_previews = StatefulList::with_items(chapters);
        self.buffer.novel = Some(novel);
        if with_options {
            self.update_screen(CurrentScreen::Sources(SourceOptions::BookView));
        } else {
            self.update_screen(CurrentScreen::Misc(crate::state::screen::MiscOptions::ChapterView));
        }
    }

    /// Opens chapter `ch` (with the text `text`) of the novel viewed in the
    /// reader, as a book that is not in the library.
    pub fn open_temp_chapter(&mut self, text: Chapter, ch: usize)
        requires
            old(self).buffer.novel is Some,
        ensures
            (final(self).current_screen, final(self).prev_screens@) == screen_step(
                old(self).current_screen,
                old(self).prev_screens@,
                CurrentScreen::Reader,
            ),
            exists|book: BookInfo, lines: Vec<String>| #[trigger] ReaderData::opened(final(self).reader_data->0, book, Some(ch), Some(text), lines)
                && (book matches BookInfo::Reader(d) && (d.source_data matches crate::state::book_info::BookSource::Global(g)
                && g.current_chapter == ch && g.novel.same(old(self).buffer.novel->0)
                && g.chapter_progress@ == Map::<usize, crate::reader::portion::BookProgressData>::empty())),
            final(self).reader_data is Some,
    {
        let novel = self.buffer.novel.as_ref().unwrap().clone();
        let book = BookInfo::from_novel_temp(novel, ch);
        let ghost b = book;
        let lines: Vec<String> = Vec::new();
        let ghost l = lines;
        self.move_to_reader(book, Some(ch), Some(text), lines);
        proof {
            assert(ReaderData::opened(self.reader_data->0, b, Some(ch), Some(text), l));
        }
    }

    /// `b` at chapter `ch`: a book from a site gets `ch` as its current
    /// chapter, a local book stays as it is.
    pub open spec fn at_chapter(b: LibBookInfo, ch: usize) -> LibBookInfo {
        match b.source_data {
            BookSource::Global(d) => LibBookInfo {
                source_data: BookSource::Global(GlobalBookData { current_chapter: ch, ..d }),
                ..b
            },
            BookSource::Local(_) => b,
        }
    }

    /// Opens chapter `ch` (with the text `text`) of the book selected in the
    /// library in the reader, at that chapter (from the lines of its file
    /// for a local book), going to the reader screen.
    pub fn open_library_chapter(&mut self, text: Chapter, ch: usize, file_lines: Vec<String>)
        requires
            old(self).library_chapter_openable(text, ch, file_lines@),
        ensures
            (final(self).current_screen, final(self).prev_screens@) == screen_step(
                old(self).current_screen,
                old(self).prev_screens@,
                CurrentScreen::Reader,
            ),
            final(self).reader_data is Some,
            exists|b: LibBookInfo|
                #[trigger] b.same(Self::at_chapter(old(self).library_data.selected_book()->0, ch))
                && ReaderData::opened(final(self).reader_data->0, BookInfo::Library(b), Some(ch), Some(text), file_lines),
            *final(self) == (AppState {
                current_screen: final(self).current_screen,
                prev_screens: final(self).prev_screens,
                reader_data: final(self).reader_data,
                ..*old(self)
            }),
    {
        let ghost sel = self.library_data.selected_book()->0;
        let mut book = self.library_data.get_category_list().selected().unwrap().clone();
        book.source_data.set_chapter(ch);
        let ghost b = book;
        proof {
            assert(b.same(Self::at_chapter(sel, ch)));
        }
        self.move_to_reader(BookInfo::Library(book), Some(ch), Some(text), file_lines);
    }

    /// What opening chapter `ch` of the book selected in the library needs:
    /// a well-formed library with a book selected, which can be opened at
    /// that chapter with the text `text` (or the lines `file_lines`).
    pub open spec fn library_chapter_openable(self, text: Chapter, ch: usize, file_lines: Seq<String>) -> bool {
        &&& self.library_data.wf()
        &&& self.library_data.category_selected()
        &&& self.library_data.selected_book() matches Some(b)
        &&& can_open(BookInfo::Library(Self::at_chapter(b, ch)), Some(ch), Some(text), file_lines)
    }

    /// Whether chapter `ch` of the book selected in the library can be
    /// opened (what `open_library_chapter` needs).
    pub fn can_open_library_chapter(&self, text: &Chapter, ch: usize, file_lines: &Vec<String>) -> (r: bool)
        ensures
            r == self.library_chapter_openable(*text, ch, file_lines@),
    {
        if !self.library_data.is_wf() || !self.library_data.is_category_selected() {
            return false;
        }
        match self.library_data.get_category_list().selected() {
            None => false,
            Some(b) => {
                let mut book = b.clone();
                book.source_data.set_chapter(ch);
                let info = BookInfo::Library(book);
                can_create(&info, Some(ch), &Some(text.clone()), file_lines)
            },
        }
    }

    /// Opens `book` in the reader (at chapter `chapter` with the text `text`
    /// for a book from a site; from the lines of its file for a local book),
    /// going to the reader screen.
    pub fn move_to_reader(
        &mut self,
        book: BookInfo,
        chapter: Option<usize>,
        text: Option<Chapter>,
        file_lines: Vec<String>,
    )
        requires
            can_open(book, chapter, text, file_lines@),
        ensures
            (final(self).current_screen, final(self).prev_screens@) == screen_step(
                old(self).current_screen,
                old(self).prev_screens@,
                CurrentScreen::Reader,
            ),
            final(self).reader_data matches Some(r) && ReaderData::opened(r, book, chapter, text, file_lines),
            *final(self) == (AppState {
                current_screen: final(self).current_screen,
                prev_screens: final(self).prev_screens,
                reader_data: final(self).reader_data,
                ..*old(self)
            }),
    {
        self.update_screen(CurrentScreen::Reader);
        self.reader_data = Some(ReaderData::create(book, chapter, text, file_lines));
    }

    /// What recording the reader's progress needs: a page whose progress is
    /// defined, and, for a book of the library, the library holding it.
    pub open spec fn can_save_reading(r: ReaderData, library: LibraryData) -> bool {
        &&& r.portion.wf()
        &&& r.portion.progress_defined()
        &&& r.book_info matches BookInfo::Library(d) ==> library.holds(d.id)
    }

    /// `f` is `o` once the progress of its reader is recorded: in the
    /// reader's book; in the library, whose copy of a library book becomes a
    /// copy of the reader's; and in the history, whose newest entry is a copy
    /// of the reader's book at its chapter, and which loses its last older
    /// entry for the same book. The entry's time is the clock's.
    pub open spec fn reading_saved(o: AppState, f: AppState) -> bool {
        let book = f.reader_data->0.book_info;
        let h = f.history_data.history@;
        &&& f.reader_data matches Some(n) && ReaderData::progress_recorded(o.reader_data->0, n)
        &&& match book {
            BookInfo::Library(d) => LibraryData::book_replaced(o.library_data, f.library_data, d),
            BookInfo::Reader(_) => f.library_data == o.library_data,
        }
        &&& h.len() > 0
        &&& h[0].book.same(book)
        &&& h[0].chapter == book.source().get_chapter_spec()
        &&& h.drop_first() == without_last_same(o.history_data.history@, h[0].book)
        &&& f.history_data.selected == o.history_data.selected
        &&& f == (AppState {
            reader_data: f.reader_data,
            library_data: f.library_data,
            history_data: f.history_data,
            ..o
        })
    }

    /// Records the reader's progress, if a book was opened (see
    /// `reading_saved`).
    pub fn update_from_reader(&mut self)
        requires
            old(self).library_data.wf(),
            old(self).reader_data matches Some(r) ==> Self::can_save_reading(r, old(self).library_data),
        ensures
            old(self).reader_data is None ==> *final(self) == *old(self),
            old(self).reader_data is Some ==> Self::reading_saved(*old(self), *final(self)),
    {
        match &mut self.reader_data {
            Some(r) => r.set_progress(),
            None => return,
        }
        let info = match &self.reader_data {
            Some(r) => r.book_info.clone(),
            None => return,
        };
        let copy = match &self.reader_data {
            Some(ReaderData { book_info: BookInfo::Library(d), .. }) => Some(d.clone()),
            _ => None,
        };
        if let Some(c) = copy {
            match self.library_data.find_book_mut(c.id) {
                Some(book) => {
                    *book = c;
                },
                None => {},
            }
        }
        let ch = info.get_source_data().get_chapter();
        let timestamp = secs_since_epoch();
        let ghost h0 = self.history_data.history@;
        let n = self.history_data.history.len();
        let mut index: Option<usize> = None;
        let mut i: usize = 0;
        while i < n
            invariant
                h0 == self.history_data.history@,
                n == h0.len(),
                i <= n,
                match last_same(h0.take(i as int), info) {
                    Some(k) => index == Some(k as usize),
                    None => index is None,
                },
            decreases n - i,
        {
            assert(h0.take(i + 1).drop_last() =~= h0.take(i as int));
            if is_same_book(&self.history_data.history[i].book, &info) {
                index = Some(i);
            }
            i = i + 1;
        }
        proof {
            assert(h0.take(n as int) =~= h0);
            lemma_last_same(h0, info);
        }
        if let Some(k) = index {
            self.history_data.history.remove(k);
        }
        self.history_data.history.push_front(HistoryEntry { book: info, timestamp, chapter: ch });
        proof {
            assert(self.history_data.history@.drop_first() =~= without_last_same(h0, info));
        }
    }
}

} // verus!
