//! What the app does with a key: the change of its state, and the work
//! outside the state (fetching from a site) that the key asks for.

use vstd::prelude::*;

use crate::scrape::madara::same_text;
use crate::sources::source::SourceID;
use crate::state::app::{screen_step, AppState};
use crate::state::book_info::{BookSource, ID};
use crate::state::commands::{command_of, parse_command, Command};
use crate::state::app::AppBuffer;
use crate::state::history::HistoryData;
use crate::state::library::LibBookInfo;
use crate::state::library_data::{pushed, LibraryData};
use crate::state::lists::{after_next, after_previous, ListSelection, StatefulList};
use crate::state::menu::MenuOptions;
use crate::state::screen::{MiscOptions, NovelPreviewSelection};
use crate::state::book_info::source_progress;
use crate::reader::portion::BookProgress;
use crate::state::library_data::{without_book, ListView};
use crate::sources::novel::chapter_url_spec;
use crate::state::screen::{
    CurrentScreen, HistoryOptions, LibraryOptions, SettingsOptions, SourceOptions, UpdateOptions,
};
use crate::text::{lowercase, pop_char, push_char, to_lowercase};

verus! {

/// A key the user pressed.
#[derive(Clone, Copy, Debug, PartialEq, Eq, Structural)]
pub enum Key {
    Char(char),
    Up,
    Down,
    Left,
    Right,
    Enter,
    Esc,
    Tab,
    BackTab,
    Backspace,
    Other,
}

/// Work outside the app's state that a key asks for.
#[derive(Debug)]
pub enum Action {
    Nothing,
    /// Fetch the text of chapter `chapter` of the novel at `novel_url` from
    /// the source `source`, for the reader; `in_library` tells whether the
    /// book is in the library.
    FetchChapter { source: SourceID, novel_url: String, chapter_url: String, chapter: usize, in_library: bool },
    /// Fetch the novel at `novel_url` and its chapters from the source
    /// `source`, to view it; `with_options` tells whether its options are offered.
    FetchNovel { source: SourceID, novel_url: String, with_options: bool },
    /// Search the source `source` for `term`.
    Search { source: SourceID, term: String },
    /// Fetch the novel at `novel_url` anew from the source `source`, to
    /// update the library's book `id`.
    UpdateNovel { source: SourceID, novel_url: String, id: ID },
    /// Fetch the popular novels of the source `source`.
    Popular { source: SourceID },
    /// Open the library's local book `id` in the reader, from its start when
    /// `from_start`.
    OpenBook { id: ID, from_start: bool },
    /// Open the local book of the history's entry `index` in the reader.
    OpenHistoryBook { index: usize },
    /// Record the reader's progress in the library and the history.
    SaveReading,
}

/// `l` after Up (the previous item) or another key (the next item).
pub open spec fn moved<T>(l: StatefulList<T>, up: bool) -> StatefulList<T> {
    StatefulList {
        state: if up { after_previous(l.state, l.items@.len()) } else { after_next(l.state, l.items@.len()) },
        ..l
    }
}

/// The keys `h`, `j`, `k` and `l` move like the arrows.
pub open spec fn alias_spec(key: Key) -> Key {
    match key {
        Key::Char('h') => Key::Left,
        Key::Char('j') => Key::Down,
        Key::Char('k') => Key::Up,
        Key::Char('l') => Key::Right,
        _ => key,
    }
}

pub fn alias(key: Key) -> (r: Key)
    ensures
        r == alias_spec(key),
{
    match key {
        Key::Char('h') => Key::Left,
        Key::Char('j') => Key::Down,
        Key::Char('k') => Key::Up,
        Key::Char('l') => Key::Right,
        _ => key,
    }
}

/// The main menu of the tab at `index`.
pub open spec fn main_screen(index: int) -> CurrentScreen {
    if index == 0 {
        CurrentScreen::Library(LibraryOptions::Default)
    } else if index == 1 {
        CurrentScreen::Updates(UpdateOptions::Default)
    } else if index == 2 {
        CurrentScreen::Sources(SourceOptions::Default)
    } else if index == 3 {
        CurrentScreen::History(HistoryOptions::Default)
    } else {
        CurrentScreen::Settings(SettingsOptions::Default)
    }
}

fn main_screen_of(index: usize) -> (r: CurrentScreen)
    requires
        index < 5,
    ensures
        r == main_screen(index as int),
{
    if index == 0 {
        CurrentScreen::Library(LibraryOptions::Default)
    } else if index == 1 {
        CurrentScreen::Updates(UpdateOptions::Default)
    } else if index == 2 {
        CurrentScreen::Sources(SourceOptions::Default)
    } else if index == 3 {
        CurrentScreen::History(HistoryOptions::Default)
    } else {
        CurrentScreen::Settings(SettingsOptions::Default)
    }
}

/// The history's selection after the key `key`, in a history of `len` entries.
pub open spec fn history_selection(sel: ListSelection, len: nat, key: Key) -> ListSelection {
    match key {
        Key::Up => if sel == ListSelection::none() || sel.selected == Some(0usize) {
            sel.select_spec(Some((len - 1) as usize))
        } else {
            sel.select_spec(
                match sel.selected {
                    Some(i) => Some((i - 1) as usize),
                    None => None,
                },
            )
        },
        Key::Down => if sel == ListSelection::none() {
            sel.select_spec(Some(0))
        } else {
            sel.select_spec(
                match sel.selected {
                    Some(i) => Some(((i + 1) % (len as int)) as usize),
                    None => None,
                },
            )
        },
        _ => sel,
    }
}

impl AppState {
    /// `f` is `o` after going back one screen, past a typing screen; `quit`
    /// when there was nowhere to go back to.
    pub open spec fn went_back(o: AppState, f: AppState, quit: bool) -> bool {
        let p = o.prev_screens@;
        &&& AppState::same_but_screens(o, f)
        &&& if p.len() == 0 {
            quit && f == o
        } else if p.last() == CurrentScreen::Typing {
            if p.len() == 1 {
                quit && f.prev_screens@ == Seq::<CurrentScreen>::empty() && f.current_screen == o.current_screen
            } else {
                !quit && f.current_screen == p[p.len() - 2] && f.prev_screens@ == p.subrange(0, p.len() - 2)
            }
        } else {
            !quit && f.current_screen == p.last() && f.prev_screens@ == p.drop_last()
        }
    }

    /// Goes back one screen, past a typing screen; gives `true` when there
    /// is nowhere to go back to, which quits the app.
    pub fn go_back(&mut self) -> (quit: bool)
        ensures
            AppState::went_back(*old(self), *final(self), quit),
    {
        if self.prev_screens.len() == 0 {
            return true;
        }
        let ghost p = self.prev_screens@;
        let mut prev = self.prev_screens.pop().unwrap();
        assert(self.prev_screens@ =~= p.drop_last());
        if prev == CurrentScreen::Typing {
            if self.prev_screens.len() == 0 {
                assert(self.prev_screens@ =~= Seq::<CurrentScreen>::empty());
                return true;
            } else {
                prev = self.prev_screens.pop().unwrap();
                assert(self.prev_screens@ =~= p.subrange(0, p.len() - 2));
            }
        }
        self.current_screen = prev;
        false
    }

    /// Switches between the main tabs with `]`/Tab and `[`/BackTab, showing
    /// the tab's main menu.
    pub fn control_main_menu(&mut self, key: Key)
        requires
            AppState::control_main_menu_ok(*old(self), key),
        ensures
            AppState::control_main_menu_done(*old(self), *final(self), key),
    {
        match key {
            Key::Char(']') | Key::Tab => {
                self.current_main_tab.next();
                self.current_screen = main_screen_of(self.current_main_tab.index);
            },
            Key::Char('[') | Key::BackTab => {
                self.current_main_tab.previous();
                self.current_screen = main_screen_of(self.current_main_tab.index);
            },
            _ => {},
        }
    }

    /// Moves through the history with Up and Down, from one end round to
    /// the other; Enter opens the options of the selected entry's book.
    pub fn control_history_menu(&mut self, key: Key)
        requires
            AppState::control_history_menu_ok(*old(self), key),
        ensures
            AppState::control_history_menu_done(*old(self), *final(self), key),
    {
        if self.history_data.history.len() == 0 {
            return;
        }
        let hist_len = self.history_data.history.len();
        match key {
            Key::Up => {
                let sel = self.history_data.selected;
                if sel == ListSelection::default() || sel.selected() == Some(0) {
                    self.history_data.selected.select(Some(hist_len - 1));
                } else {
                    let to = match sel.selected() {
                        Some(i) => Some(i - 1),
                        None => None,
                    };
                    self.history_data.selected.select(to);
                }
            },
            Key::Down => {
                let sel = self.history_data.selected;
                if sel == ListSelection::default() {
                    self.history_data.selected.select(Some(0));
                } else {
                    let to = match sel.selected() {
                        Some(i) => Some((i + 1) % hist_len),
                        None => None,
                    };
                    self.history_data.selected.select(to);
                }
            },
            Key::Enter => {
                let book_idx = self.history_data.selected.selected();
                match book_idx {
                    None => {},
                    Some(i) => {
                        if self.history_data.history[i].book.is_local() {
                            self.update_screen(CurrentScreen::History(HistoryOptions::HistoryLocalBookOptions));
                        } else {
                            self.update_screen(CurrentScreen::History(HistoryOptions::HistoryGlobalBookOptions));
                        }
                    },
                }
            },
            _ => {},
        }
    }
}


impl AppState {
    /// `f` is `o` after the command `cmd` gave `r` (whether to quit, and the work asked for).
    pub open spec fn ran(o: AppState, f: AppState, cmd: Command, r: (bool, Action)) -> bool {
        match cmd {
            Command::NoOp => f == o && !r.0 && r.1 is Nothing,
            Command::Quit => f == o && r.0 && r.1 is Nothing,
            Command::ClearHistory => {
                &&& !r.0
                &&& r.1 is Nothing
                &&& f.history_data.history@ == Seq::<crate::state::history::HistoryEntry>::empty()
                &&& f == (AppState {
                    history_data: HistoryData {
                        history: f.history_data.history,
                        selected: o.history_data.selected.select_spec(None),
                    },
                    ..o
                })
            },
            Command::UpdateBook(id) => {
                &&& f == o
                &&& !r.0
                &&& if o.library_data.holds(id) {
                    exists|b: LibBookInfo| #[trigger] o.library_data.first_held(id, b) && match b.source_data {
                        BookSource::Global(d) => r.1 matches Action::UpdateNovel { source, novel_url, id: i }
                            && source == d.novel.source && novel_url == d.novel.novel_url && i == id,
                        BookSource::Local(_) => r.1 is Nothing,
                    }
                } else {
                    r.1 is Nothing
                }
            },
        }
    }

    /// Runs a command: `Quit` quits, `ClearHistory` empties the history,
    /// and `UpdateBook` asks to fetch a web book's novel anew.
    pub fn run_command(&mut self, cmd: Command) -> (r: (bool, Action))
        requires
            cmd is UpdateBook ==> old(self).library_data.wf(),
        ensures
            AppState::ran(*old(self), *final(self), cmd, r),
    {
        match cmd {
            Command::NoOp => (false, Action::Nothing),
            Command::Quit => (true, Action::Nothing),
            Command::ClearHistory => {
                self.history_data.clear();
                (false, Action::Nothing)
            },
            Command::UpdateBook(id) => {
                match self.library_data.find_book(id) {
                    None => (false, Action::Nothing),
                    Some(book) => {
                        match &book.source_data {
                            BookSource::Global(data) => (
                                false,
                                Action::UpdateNovel {
                                    source: data.novel.source,
                                    novel_url: data.novel.novel_url.clone(),
                                    id,
                                },
                            ),
                            BookSource::Local(_) => (false, Action::Nothing),
                        }
                    },
                }
            },
        }
    }

    /// The ID of the book an `update` command typed in `o` names: the
    /// selected book of the library, when its main view is open.
    pub open spec fn update_target(o: AppState) -> Option<ID> {
        if lowercase(o.buffer.text@) == "update"@ && o.current_screen == CurrentScreen::Library(LibraryOptions::Default) {
            match o.library_data.selected_book() {
                Some(b) => Some(b.id),
                None => None,
            }
        } else {
            None
        }
    }

    /// `f` is `o` with only the text typed changed, to `text`.
    pub open spec fn typed(o: AppState, f: AppState, text: Seq<char>) -> bool {
        &&& f.buffer.text@ == text
        &&& f == (AppState { buffer: AppBuffer { text: f.buffer.text, ..o.buffer }, ..o })
    }

    /// The text after Backspace: without its last character.
    pub open spec fn backspaced(text: Seq<char>) -> Seq<char> {
        if text.len() > 0 { text.drop_last() } else { text }
    }

    /// A key in the command bar: Enter runs the command typed and closes the
    /// bar, Esc closes it, other keys edit the text.
    pub fn handle_commands(&mut self, key: Key) -> (r: (bool, Action))
        requires
            AppState::handle_commands_ok(*old(self), key),
        ensures
            AppState::handle_commands_done(*old(self), *final(self), key, r),
    {
        match key {
            Key::Enter => {
                let lower = to_lowercase(self.buffer.text.as_str());
                let mut selected: Option<ID> = None;
                if same_text(lower.as_str(), "update")
                    && self.current_screen == CurrentScreen::Library(LibraryOptions::Default) {
                    let list = self.library_data.get_category_list();
                    match list.selected() {
                        Some(b) => {
                            selected = Some(b.id);
                        },
                        None => {},
                    }
                }
                let cmd = parse_command(self.buffer.text.as_str(), selected);
                self.buffer.text = String::new();
                self.command_bar = false;
                self.run_command(cmd)
            },
            Key::Backspace => {
                pop_char(&mut self.buffer.text);
                (false, Action::Nothing)
            },
            Key::Char(c) => {
                push_char(&mut self.buffer.text, c);
                (false, Action::Nothing)
            },
            Key::Esc => {
                self.buffer.text = String::new();
                self.command_bar = false;
                (false, Action::Nothing)
            },
            _ => (false, Action::Nothing),
        }
    }

    /// `f` is `o` with only the library changed, to `lib`.
    pub open spec fn with_library(o: AppState, f: AppState) -> bool {
        f == (AppState { library_data: f.library_data, ..o })
    }

    /// In the library's main view: `}`/Right and `{`/Left move between the
    /// categories (on the library's tab), Up and Down through the books,
    /// Enter opens the selected book's options, and `c` the category options.
    pub fn control_library_menu(&mut self, key: Key)
        requires
            AppState::control_library_menu_ok(*old(self), key),
        ensures
            AppState::control_library_menu_done(*old(self), *final(self), key),
    {
        match key {
            Key::Right | Key::Char('}') => {
                if self.current_main_tab.index == 0 {
                    self.library_data.categories.next();
                }
            },
            Key::Left | Key::Char('{') => {
                if self.current_main_tab.index == 0 {
                    self.library_data.categories.previous();
                }
            },
            Key::Up => {
                self.library_data.get_category_list_mut().previous();
            },
            Key::Down => {
                self.library_data.get_category_list_mut().next();
            },
            Key::Enter => {
                let b = self.library_data.get_category_list().selected();
                match b {
                    None => {},
                    Some(book) => {
                        if book.is_local() {
                            self.update_screen(CurrentScreen::Library(LibraryOptions::LocalBookSelect));
                        } else {
                            self.update_screen(CurrentScreen::Library(LibraryOptions::GlobalBookSelect));
                        }
                    },
                }
            },
            Key::Char('c') => {
                self.menu_options.category_options.state.select(Some(0));
                self.update_screen(CurrentScreen::Library(LibraryOptions::CategoryOptions));
            },
            _ => {},
        }
    }
}


impl AppState {
    /// What Enter on the typing screen needs of the screen it came from:
    /// renaming needs a book selected, creating a category nothing more,
    /// renaming a category one selected in its menu, searching a source
    /// selected.
    pub open spec fn can_submit(o: AppState) -> bool {
        &&& o.prev_screens@.len() > 0
        &&& match o.prev_screens@.last() {
            CurrentScreen::Library(LibraryOptions::LocalBookSelect)
            | CurrentScreen::Library(LibraryOptions::GlobalBookSelect) => o.library_data.wf()
                && o.library_data.category_selected() && o.library_data.selected_book() is Some,
            CurrentScreen::Library(LibraryOptions::CategoryOptions) => o.library_data.wf(),
            CurrentScreen::Library(LibraryOptions::CategorySelect) => o.library_data.wf()
                && (o.menu_options.category_list.state.selected matches Some(i)
                && i < o.menu_options.category_list.items@.len()),
            CurrentScreen::Sources(SourceOptions::SourceSelect) => o.source_data.sources.state.selected matches Some(i)
                && i < o.source_data.sources.items@.len(),
            _ => false,
        }
    }

    /// `f` has the library's categories listed in the category menu, the
    /// first selected.
    pub open spec fn lists_categories(f: AppState) -> bool {
        let cats = f.library_data.categories.items@;
        &&& f.menu_options.category_list.items@ == cats
        &&& f.menu_options.category_list.state == (if cats.len() == 0 {
            ListSelection::none()
        } else {
            ListSelection::none().select_spec(Some(0))
        })
    }

    /// `f` is `o` with only the library, the category menu, the screens and
    /// the text typed changed.
    pub open spec fn submitted(o: AppState, f: AppState) -> bool {
        f == (AppState {
            library_data: f.library_data,
            menu_options: MenuOptions { category_list: f.menu_options.category_list, ..o.menu_options },
            current_screen: f.current_screen,
            prev_screens: f.prev_screens,
            buffer: AppBuffer { text: f.buffer.text, ..o.buffer },
            ..o
        })
    }

    /// A key on the typing screen: Enter submits the text to the screen it
    /// came from (renaming the selected book, creating a category, renaming
    /// the selected category, or searching the selected source) and empties
    /// it, Esc empties it and goes back, other keys edit it.
    pub fn handle_typing(&mut self, key: Key) -> (r: Action)
        requires
            AppState::handle_typing_ok(*old(self), key),
        ensures
            AppState::handle_typing_done(*old(self), *final(self), key, r),
    {
        match key {
            Key::Backspace => {
                pop_char(&mut self.buffer.text);
                Action::Nothing
            },
            Key::Char(c) => {
                push_char(&mut self.buffer.text, c);
                Action::Nothing
            },
            Key::Esc => {
                self.buffer.text = String::new();
                self.current_screen = self.prev_screens.pop().unwrap();
                Action::Nothing
            },
            Key::Enter => {
                let r = match self.get_last_screen() {
                    CurrentScreen::Library(LibraryOptions::LocalBookSelect)
                    | CurrentScreen::Library(LibraryOptions::GlobalBookSelect) => {
                        let id = self.library_data.get_category_list().selected().unwrap().id;
                        let name = self.buffer.text.clone();
                        self.library_data.rename_book(id, name);
                        self.to_lib_screen();
                        Action::Nothing
                    },
                    CurrentScreen::Library(LibraryOptions::CategoryOptions) => {
                        let name = self.buffer.text.clone();
                        self.library_data.create_category(name);
                        self.update_category_list();
                        self.to_lib_screen();
                        Action::Nothing
                    },
                    CurrentScreen::Library(LibraryOptions::CategorySelect) => {
                        let old_name = self.menu_options.category_list.selected().unwrap().clone();
                        let name = self.buffer.text.clone();
                        self.library_data.rename_category(old_name, name);
                        self.update_category_list();
                        self.to_lib_screen();
                        self.update_screen(CurrentScreen::Library(LibraryOptions::CategoryOptions));
                        Action::Nothing
                    },
                    _ => {
                        let source = self.source_data.sources.selected().unwrap().1.get_id();
                        Action::Search { source, term: self.buffer.text.clone() }
                    },
                };
                self.buffer.text = String::new();
                r
            },
            _ => Action::Nothing,
        }
    }

    /// In a source's search results: Up and Down move through them, Enter
    /// asks to fetch the selected novel from the selected source.
    pub fn control_source_search_result(&mut self, key: Key) -> (r: Action)
        requires
            AppState::control_source_search_result_ok(*old(self), key),
        ensures
            AppState::control_source_search_result_done(*old(self), *final(self), key, r),
    {
        match key {
            Key::Up => {
                self.buffer.novel_previews.previous();
                Action::Nothing
            },
            Key::Down => {
                self.buffer.novel_previews.next();
                Action::Nothing
            },
            Key::Enter => {
                let url = self.buffer.novel_previews.selected().unwrap().url.clone();
                let source = self.source_data.sources.selected().unwrap().1.get_id();
                Action::FetchNovel { source, novel_url: url, with_options: true }
            },
            _ => Action::Nothing,
        }
    }
}


/// The part of a novel's view in focus after `]`/Tab.
pub open spec fn focus_next(s: NovelPreviewSelection) -> NovelPreviewSelection {
    match s {
        NovelPreviewSelection::Options => NovelPreviewSelection::Chapters,
        NovelPreviewSelection::Chapters => NovelPreviewSelection::Summary,
        NovelPreviewSelection::Summary => NovelPreviewSelection::Options,
    }
}

/// The part of a novel's view in focus after `[`/BackTab.
pub open spec fn focus_previous(s: NovelPreviewSelection) -> NovelPreviewSelection {
    match s {
        NovelPreviewSelection::Options => NovelPreviewSelection::Summary,
        NovelPreviewSelection::Chapters => NovelPreviewSelection::Options,
        NovelPreviewSelection::Summary => NovelPreviewSelection::Chapters,
    }
}

impl AppState {
    /// What Enter in a novel's view needs: with its options in focus, an
    /// option selected, and for the first (read from the beginning) a novel
    /// with a first chapter and a source selected, for the second (add to
    /// the library) a novel and a screen to go back to; with its chapters in
    /// focus, a chapter selected that the novel lists.
    pub open spec fn can_open_from_view(o: AppState) -> bool {
        let src = o.source_data.sources;
        let opts = o.menu_options.source_book_options;
        let chs = o.buffer.chapter_previews;
        match o.buffer.novel_preview_selection {
            NovelPreviewSelection::Options => opts.state.selected matches Some(k) && (
                (k == 0 ==> (o.buffer.novel matches Some(n) && chapter_url_spec(n.chapters@, 1) is Some)
                    && (src.state.selected matches Some(j) && j < src.items@.len()))
                && (k == 1 ==> o.buffer.novel is Some && o.library_data.wf() && o.prev_screens@.len() > 0)),
            NovelPreviewSelection::Chapters => (chs.state.selected matches Some(i) && i < chs.items@.len())
                && (o.buffer.novel matches Some(n)
                && chapter_url_spec(n.chapters@, chs.items@[chs.state.selected->0 as int].chapter_no) is Some),
            NovelPreviewSelection::Summary => true,
        }
    }

    /// In a novel's view: `]`/Tab and `[`/BackTab move the focus between its
    /// options, chapters and summary; Up and Down move in the part in focus
    /// (scroll the summary); Enter on the options reads from the first
    /// chapter or adds the novel to the library (going back), and on the
    /// chapters reads the selected one.
    pub fn control_source_book_view(&mut self, key: Key) -> (r: Action)
        requires
            AppState::control_source_book_view_ok(*old(self), key),
        ensures
            AppState::control_source_book_view_done(*old(self), *final(self), key, r),
    {
        match key {
            Key::Char(']') | Key::Tab => {
                self.buffer.novel_preview_selection = match self.buffer.novel_preview_selection {
                    NovelPreviewSelection::Options => NovelPreviewSelection::Chapters,
                    NovelPreviewSelection::Chapters => NovelPreviewSelection::Summary,
                    NovelPreviewSelection::Summary => NovelPreviewSelection::Options,
                };
                Action::Nothing
            },
            Key::Char('[') | Key::BackTab => {
                self.buffer.novel_preview_selection = match self.buffer.novel_preview_selection {
                    NovelPreviewSelection::Options => NovelPreviewSelection::Summary,
                    NovelPreviewSelection::Chapters => NovelPreviewSelection::Options,
                    NovelPreviewSelection::Summary => NovelPreviewSelection::Chapters,
                };
                Action::Nothing
            },
            Key::Up => {
                match self.buffer.novel_preview_selection {
                    NovelPreviewSelection::Options => self.menu_options.source_book_options.previous(),
                    NovelPreviewSelection::Chapters => self.buffer.chapter_previews.previous(),
                    NovelPreviewSelection::Summary => {
                        if self.buffer.novel_preview_scroll != 0 {
                            self.buffer.novel_preview_scroll -= 1;
                        }
                    },
                }
                Action::Nothing
            },
            Key::Down => {
                match self.buffer.novel_preview_selection {
                    NovelPreviewSelection::Options => self.menu_options.source_book_options.next(),
                    NovelPreviewSelection::Chapters => self.buffer.chapter_previews.next(),
                    NovelPreviewSelection::Summary => {
                        self.buffer.novel_preview_scroll += 1;
                    },
                }
                Action::Nothing
            },
            Key::Enter => {
                match self.buffer.novel_preview_selection {
                    NovelPreviewSelection::Options => {
                        let opt = self.menu_options.source_book_options.state.selected().unwrap();
                        if opt == 0 {
                            let novel = self.buffer.novel.as_ref().unwrap();
                            let source = self.source_data.sources.selected().unwrap().1.get_id();
                            Action::FetchChapter {
                                source,
                                novel_url: novel.novel_url.clone(),
                                chapter_url: novel.get_chapter_url(1).unwrap(),
                                chapter: 1,
                                in_library: false,
                            }
                        } else if opt == 1 {
                            let novel = self.buffer.novel.as_ref().unwrap().clone();
                            let book = LibBookInfo::from_global(novel, None);
                            self.library_data.add_book(book, None);
                            self.current_screen = self.prev_screens.pop().unwrap();
                            Action::Nothing
                        } else {
                            Action::Nothing
                        }
                    },
                    NovelPreviewSelection::Chapters => {
                        let ch = self.buffer.chapter_previews.selected().unwrap().chapter_no;
                        let novel = self.buffer.novel.as_ref().unwrap();
                        Action::FetchChapter {
                            source: novel.source,
                            novel_url: novel.novel_url.clone(),
                            chapter_url: novel.get_chapter_url(ch).unwrap(),
                            chapter: ch,
                            in_library: false,
                        }
                    },
                    NovelPreviewSelection::Summary => Action::Nothing,
                }
            },
            _ => Action::Nothing,
        }
    }
}


impl AppState {
    /// In the reader: Up and Down scroll by a line; Right and Left ask for
    /// the next and the previous chapter of a book from a site.
    pub fn control_reader(&mut self, key: Key) -> (r: Action)
        requires
            AppState::control_reader_ok(*old(self), key),
        ensures
            AppState::control_reader_done(*old(self), *final(self), key, r),
    {
        match key {
            Key::Up => {
                let mut rd = self.reader_data.take().unwrap();
                rd.scroll_up(1);
                self.reader_data = Some(rd);
                Action::Nothing
            },
            Key::Down => {
                let mut rd = self.reader_data.take().unwrap();
                rd.scroll_down(1);
                self.reader_data = Some(rd);
                Action::Nothing
            },
            Key::Right | Key::Left => {
                let rd = self.reader_data.as_ref().unwrap();
                let book = &rd.book_info;
                let ch = if key == Key::Right {
                    book.get_source_data().get_next_chapter()
                } else {
                    book.get_source_data().get_prev_chapter()
                };
                match ch {
                    None => Action::Nothing,
                    Some(c) => {
                        let in_library = matches!(book, crate::state::book_info::BookInfo::Library(_));
                        let novel = book.get_novel().unwrap();
                        Action::FetchChapter {
                            source: book.get_source_id().unwrap(),
                            novel_url: novel.novel_url.clone(),
                            chapter_url: novel.get_chapter_url(c).unwrap(),
                            chapter: c,
                            in_library,
                        }
                    },
                }
            },
            _ => Action::Nothing,
        }
    }

    /// In the sources' main view: Up and Down move through the sources,
    /// Enter opens the selected one's options.
    pub fn control_sources_menu(&mut self, key: Key)
        ensures
            AppState::control_sources_menu_done(*old(self), *final(self), key),
    {
        match key {
            Key::Up => self.source_data.get_list_mut().previous(),
            Key::Down => self.source_data.get_list_mut().next(),
            Key::Enter => {
                if self.source_data.get_list().selected().is_some() {
                    self.update_screen(CurrentScreen::Sources(SourceOptions::SourceSelect));
                }
            },
            _ => {},
        }
    }

    /// In a source's options: Up and Down move through them; Enter on the
    /// first (search) opens the typing screen, on the second asks for the
    /// source's popular novels.
    pub fn control_source_select(&mut self, key: Key) -> (r: Action)
        requires
            AppState::control_source_select_ok(*old(self), key),
        ensures
            AppState::control_source_select_done(*old(self), *final(self), key, r),
    {
        match key {
            Key::Up => {
                self.menu_options.source_options.previous();
                Action::Nothing
            },
            Key::Down => {
                self.menu_options.source_options.next();
                Action::Nothing
            },
            Key::Enter => {
                let option = self.menu_options.source_options.state.selected().unwrap();
                if option == 0 {
                    self.update_screen(CurrentScreen::Typing);
                    Action::Nothing
                } else if option == 1 {
                    let source = self.source_data.get_list().selected().unwrap().1.get_id();
                    Action::Popular { source }
                } else {
                    Action::Nothing
                }
            },
            _ => Action::Nothing,
        }
    }

    /// In the category options: Up and Down move through them; Enter on
    /// "create" opens the typing screen, on "rename" or "delete" the list of
    /// categories ("re-order" does nothing).
    pub fn control_library_category_options(&mut self, key: Key)
        requires
            AppState::control_library_category_options_ok(*old(self), key),
        ensures
            AppState::control_library_category_options_done(*old(self), *final(self), key),
    {
        match key {
            Key::Up => self.menu_options.category_options.previous(),
            Key::Down => self.menu_options.category_options.next(),
            Key::Enter => {
                let choice = self.menu_options.category_options.state.selected().unwrap();
                if choice == 0 {
                    self.update_screen(CurrentScreen::Typing);
                } else if choice == 2 || choice == 3 {
                    self.update_screen(CurrentScreen::Library(LibraryOptions::CategorySelect));
                }
            },
            _ => {},
        }
    }
}

impl AppState {
    /// What `control_main_menu` needs of the app `o` for the key `key`.
    pub open spec fn control_main_menu_ok(o: AppState, key: Key) -> bool {
        &&& o.current_main_tab.tabs@.len() == 5
        &&& o.current_main_tab.index < 5
    }

    /// What `control_main_menu` makes of the app `o` (giving `f`) for the key `key`.
    pub open spec fn control_main_menu_done(o: AppState, f: AppState, key: Key) -> bool {
        &&& f.current_main_tab.tabs == o.current_main_tab.tabs
        &&& ({
            let i = o.current_main_tab.index;
            match key {
                Key::Char(']') | Key::Tab => {
                    &&& f.current_main_tab.index == (i + 1) % 5
                    &&& f.current_screen == main_screen((i + 1) % 5)
                },
                Key::Char('[') | Key::BackTab => {
                    let j = if i > 0 { i - 1 } else { 4 };
                    &&& f.current_main_tab.index == j
                    &&& f.current_screen == main_screen(j)
                },
                _ => f == o,
            }
        })
        &&& f == (AppState {
            current_main_tab: f.current_main_tab,
            current_screen: f.current_screen,
            ..o
        })
    }

    /// What `control_history_menu` needs of the app `o` for the key `key`.
    pub open spec fn control_history_menu_ok(o: AppState, key: Key) -> bool {
        &&& (key == Key::Enter ==> (o.history_data.selected.selected matches Some(i)
            ==> i < o.history_data.history@.len()))
        &&& (key == Key::Down ==> o.history_data.selected.selected != Some(usize::MAX))
    }

    /// What `control_history_menu` makes of the app `o` (giving `f`) for the key `key`.
    pub open spec fn control_history_menu_done(o: AppState, f: AppState, key: Key) -> bool {
        let h = o.history_data;
        let len = h.history@.len();
        if len == 0 {
            f == o
        } else {
            match key {
                Key::Up | Key::Down => f == (AppState {
                    history_data: crate::state::history::HistoryData {
                        selected: history_selection(h.selected, len, key),
                        ..h
                    },
                    ..o
                }),
                Key::Enter => match h.selected.selected {
                    None => f == o,
                    Some(i) => {
                        let to = if h.history@[i as int].book.source() is Local {
                            CurrentScreen::History(HistoryOptions::HistoryLocalBookOptions)
                        } else {
                            CurrentScreen::History(HistoryOptions::HistoryGlobalBookOptions)
                        };
                        &&& (f.current_screen, f.prev_screens@)
                            == screen_step(o.current_screen, o.prev_screens@, to)
                        &&& AppState::same_but_screens(o, f)
                    },
                },
                _ => f == o,
            }
        }
    }

    /// What `handle_commands` needs of the app `o` for the key `key`.
    pub open spec fn handle_commands_ok(o: AppState, key: Key) -> bool {
        (key == Key::Enter && lowercase(o.buffer.text@) == "update"@
            && o.current_screen == CurrentScreen::Library(LibraryOptions::Default)
            ==> o.library_data.wf() && o.library_data.category_selected())
    }

    /// What `handle_commands` makes of the app `o` (giving `f`) for the key `key`.
    pub open spec fn handle_commands_done(o: AppState, f: AppState, key: Key, r: (bool, Action)) -> bool {
        (match key {
            Key::Enter => {
                let cmd = command_of(o.buffer.text@, AppState::update_target(o));
                &&& f.buffer.text@ == Seq::<char>::empty()
                &&& !f.command_bar
                &&& AppState::ran(
                    AppState {
                        buffer: AppBuffer { text: f.buffer.text, ..o.buffer },
                        command_bar: false,
                        ..o
                    },
                    f,
                    cmd,
                    r,
                )
            },
            Key::Backspace => !r.0 && r.1 is Nothing
                && AppState::typed(o, f, AppState::backspaced(o.buffer.text@)),
            Key::Char(c) => !r.0 && r.1 is Nothing
                && AppState::typed(o, f, o.buffer.text@.push(c)),
            Key::Esc => !r.0 && r.1 is Nothing && f.buffer.text@ == Seq::<char>::empty()
                && f == (AppState {
                    buffer: AppBuffer { text: f.buffer.text, ..o.buffer },
                    command_bar: false,
                    ..o
                }),
            _ => !r.0 && r.1 is Nothing && f == o,
        })
    }

    /// What `control_library_menu` needs of the app `o` for the key `key`.
    pub open spec fn control_library_menu_ok(o: AppState, key: Key) -> bool {
        (key == Key::Up || key == Key::Down || key == Key::Enter ==> o.library_data.wf()
            && o.library_data.category_selected())
    }

    /// What `control_library_menu` makes of the app `o` (giving `f`) for the key `key`.
    pub open spec fn control_library_menu_done(o: AppState, f: AppState, key: Key) -> bool {
        let lib = o.library_data;
        let cats = lib.categories;
        match key {
            Key::Right | Key::Char('}') => if o.current_main_tab.index == 0 {
                f == (AppState {
                    library_data: LibraryData {
                        categories: StatefulList { state: after_next(cats.state, cats.items@.len()), ..cats },
                        ..lib
                    },
                    ..o
                })
            } else {
                f == o
            },
            Key::Left | Key::Char('{') => if o.current_main_tab.index == 0 {
                f == (AppState {
                    library_data: LibraryData {
                        categories: StatefulList { state: after_previous(cats.state, cats.items@.len()), ..cats },
                        ..lib
                    },
                    ..o
                })
            } else {
                f == o
            },
            Key::Up | Key::Down => {
                let n = lib.selected_name();
                let l = lib.lists()[n];
                let st = if key == Key::Up { after_previous(l.0, l.1.len()) } else { after_next(l.0, l.1.len()) };
                &&& AppState::with_library(o, f)
                &&& f.library_data.wf()
                &&& f.library_data.categories == cats
                &&& f.library_data.default_category_name == lib.default_category_name
                &&& f.library_data.lists() == lib.lists().insert(n, (st, l.1))
            },
            Key::Enter => match lib.selected_book() {
                None => f == o,
                Some(b) => {
                    let to = if b.source_data is Local {
                        CurrentScreen::Library(LibraryOptions::LocalBookSelect)
                    } else {
                        CurrentScreen::Library(LibraryOptions::GlobalBookSelect)
                    };
                    &&& (f.current_screen, f.prev_screens@) == screen_step(o.current_screen, o.prev_screens@, to)
                    &&& AppState::same_but_screens(o, f)
                },
            },
            Key::Char('c') => {
                let opts = o.menu_options.category_options;
                &&& (f.current_screen, f.prev_screens@) == screen_step(
                    o.current_screen,
                    o.prev_screens@,
                    CurrentScreen::Library(LibraryOptions::CategoryOptions),
                )
                &&& f == (AppState {
                    current_screen: f.current_screen,
                    prev_screens: f.prev_screens,
                    menu_options: MenuOptions {
                        category_options: StatefulList { state: opts.state.select_spec(Some(0)), ..opts },
                        ..o.menu_options
                    },
                    ..o
                })
            },
            _ => f == o,
        }
    }

    /// What `handle_typing` needs of the app `o` for the key `key`.
    pub open spec fn handle_typing_ok(o: AppState, key: Key) -> bool {
        &&& (key == Key::Esc ==> o.prev_screens@.len() > 0)
        &&& (key == Key::Enter ==> AppState::can_submit(o))
    }

    /// What `handle_typing` makes of the app `o` (giving `f`) for the key `key`.
    pub open spec fn handle_typing_done(o: AppState, f: AppState, key: Key, r: Action) -> bool {
        let text = o.buffer.text;
        match key {
            Key::Backspace => r is Nothing && AppState::typed(o, f, AppState::backspaced(text@)),
            Key::Char(c) => r is Nothing && AppState::typed(o, f, text@.push(c)),
            Key::Esc => {
                &&& r is Nothing
                &&& f.buffer.text@ == Seq::<char>::empty()
                &&& f.current_screen == o.prev_screens@.last()
                &&& f.prev_screens@ == o.prev_screens@.drop_last()
                &&& AppState::submitted(o, f)
                &&& f.library_data == o.library_data
                &&& f.menu_options == o.menu_options
            },
            Key::Enter => {
                &&& f.buffer.text@ == Seq::<char>::empty()
                &&& match o.prev_screens@.last() {
                    CurrentScreen::Library(LibraryOptions::LocalBookSelect)
                    | CurrentScreen::Library(LibraryOptions::GlobalBookSelect) => {
                        &&& r is Nothing
                        &&& LibraryData::book_renamed(o.library_data, f.library_data, o.library_data.selected_book()->0.id, text)
                        &&& f.current_screen == CurrentScreen::Library(LibraryOptions::Default)
                        &&& f.prev_screens@ == Seq::<CurrentScreen>::empty()
                        &&& f.menu_options == o.menu_options
                        &&& AppState::submitted(o, f)
                    },
                    CurrentScreen::Library(LibraryOptions::CategoryOptions) => {
                        &&& r is Nothing
                        &&& LibraryData::category_created(o.library_data, f.library_data, text)
                        &&& AppState::lists_categories(f)
                        &&& f.current_screen == CurrentScreen::Library(LibraryOptions::Default)
                        &&& f.prev_screens@ == Seq::<CurrentScreen>::empty()
                        &&& AppState::submitted(o, f)
                    },
                    CurrentScreen::Library(LibraryOptions::CategorySelect) => {
                        let m = o.menu_options.category_list;
                        &&& r is Nothing
                        &&& LibraryData::category_renamed(
                            o.library_data,
                            f.library_data,
                            m.items@[m.state.selected->0 as int],
                            text,
                        )
                        &&& AppState::lists_categories(f)
                        &&& f.current_screen == CurrentScreen::Library(LibraryOptions::CategoryOptions)
                        &&& f.prev_screens@ == seq![CurrentScreen::Library(LibraryOptions::Default)]
                        &&& AppState::submitted(o, f)
                    },
                    _ => {
                        let src = o.source_data.sources;
                        &&& r matches Action::Search { source, term }
                            && source == src.items@[src.state.selected->0 as int].1.id_spec() && term == text
                        &&& AppState::typed(o, f, Seq::<char>::empty())
                    },
                }
            },
            _ => r is Nothing && f == o,
        }
    }

    /// What `control_source_search_result` needs of the app `o` for the key `key`.
    pub open spec fn control_source_search_result_ok(o: AppState, key: Key) -> bool {
        (key == Key::Enter ==> {
            let p = o.buffer.novel_previews;
            let src = o.source_data.sources;
            &&& p.state.selected matches Some(i) && i < p.items@.len()
            &&& src.state.selected matches Some(j) && j < src.items@.len()
        })
    }

    /// What `control_source_search_result` makes of the app `o` (giving `f`) for the key `key`.
    pub open spec fn control_source_search_result_done(o: AppState, f: AppState, key: Key, r: Action) -> bool {
        let p = o.buffer.novel_previews;
        let src = o.source_data.sources;
        match key {
            Key::Up | Key::Down => {
                let st = if key == Key::Up { after_previous(p.state, p.items@.len()) } else { after_next(p.state, p.items@.len()) };
                &&& r is Nothing
                &&& f == (AppState {
                    buffer: AppBuffer { novel_previews: StatefulList { state: st, ..p }, ..o.buffer },
                    ..o
                })
            },
            Key::Enter => {
                &&& f == o
                &&& r matches Action::FetchNovel { source, novel_url, with_options }
                    && source == src.items@[src.state.selected->0 as int].1.id_spec()
                    && novel_url == p.items@[p.state.selected->0 as int].url && with_options
            },
            _ => r is Nothing && f == o,
        }
    }

    /// What `control_source_book_view` needs of the app `o` for the key `key`.
    pub open spec fn control_source_book_view_ok(o: AppState, key: Key) -> bool {
        &&& (key == Key::Down && o.buffer.novel_preview_selection == NovelPreviewSelection::Summary
            ==> o.buffer.novel_preview_scroll < usize::MAX)
        &&& (key == Key::Enter ==> AppState::can_open_from_view(o))
    }

    /// What `control_source_book_view` makes of the app `o` (giving `f`) for the key `key`.
    pub open spec fn control_source_book_view_done(o: AppState, f: AppState, key: Key, r: Action) -> bool {
        let b = o.buffer;
        let focus = b.novel_preview_selection;
        let opts = o.menu_options.source_book_options;
        let chs = b.chapter_previews;
        match key {
            Key::Char(']') | Key::Tab => r is Nothing && f == (AppState {
                buffer: AppBuffer { novel_preview_selection: focus_next(focus), ..b },
                ..o
            }),
            Key::Char('[') | Key::BackTab => r is Nothing && f == (AppState {
                buffer: AppBuffer { novel_preview_selection: focus_previous(focus), ..b },
                ..o
            }),
            Key::Up | Key::Down => r is Nothing && match focus {
                NovelPreviewSelection::Options => f == (AppState {
                    menu_options: MenuOptions {
                        source_book_options: StatefulList {
                            state: if key == Key::Up {
                                after_previous(opts.state, opts.items@.len())
                            } else {
                                after_next(opts.state, opts.items@.len())
                            },
                            ..opts
                        },
                        ..o.menu_options
                    },
                    ..o
                }),
                NovelPreviewSelection::Chapters => f == (AppState {
                    buffer: AppBuffer {
                        chapter_previews: StatefulList {
                            state: if key == Key::Up {
                                after_previous(chs.state, chs.items@.len())
                            } else {
                                after_next(chs.state, chs.items@.len())
                            },
                            ..chs
                        },
                        ..b
                    },
                    ..o
                }),
                NovelPreviewSelection::Summary => f == (AppState {
                    buffer: AppBuffer {
                        novel_preview_scroll: if key == Key::Up {
                            if b.novel_preview_scroll == 0 { 0 } else { (b.novel_preview_scroll - 1) as usize }
                        } else {
                            (b.novel_preview_scroll + 1) as usize
                        },
                        ..b
                    },
                    ..o
                }),
            },
            Key::Enter => match focus {
                NovelPreviewSelection::Options => {
                    let n = b.novel->0;
                    let src = o.source_data.sources;
                    if opts.state.selected == Some(0usize) {
                        &&& f == o
                        &&& r matches Action::FetchChapter { source, novel_url, chapter_url, chapter, in_library }
                            && source == src.items@[src.state.selected->0 as int].1.id_spec()
                            && novel_url == n.novel_url && Some(chapter_url@) == chapter_url_spec(n.chapters@, 1)
                            && chapter == 1 && !in_library
                    } else if opts.state.selected == Some(1usize) {
                        let d = o.library_data.default_category_name@;
                        &&& r is Nothing
                        &&& exists|book: LibBookInfo| #[trigger] LibBookInfo::from_novel(book, book.source_data->Global_0.novel, None)
                            && book.source_data->Global_0.novel.same(n)
                            && f.library_data.lists() == o.library_data.lists().insert(d, pushed(o.library_data.lists()[d], book))
                        &&& f.library_data.wf()
                        &&& f.library_data.categories == o.library_data.categories
                        &&& f.library_data.default_category_name == o.library_data.default_category_name
                        &&& f.current_screen == o.prev_screens@.last()
                        &&& f.prev_screens@ == o.prev_screens@.drop_last()
                        &&& f == (AppState {
                            library_data: f.library_data,
                            current_screen: f.current_screen,
                            prev_screens: f.prev_screens,
                            ..o
                        })
                    } else {
                        r is Nothing && f == o
                    }
                },
                NovelPreviewSelection::Chapters => {
                    let n = b.novel->0;
                    let ch = chs.items@[chs.state.selected->0 as int].chapter_no;
                    &&& f == o
                    &&& r matches Action::FetchChapter { source, novel_url, chapter_url, chapter, in_library }
                        && source == n.source && novel_url == n.novel_url
                        && Some(chapter_url@) == chapter_url_spec(n.chapters@, ch) && chapter == ch && !in_library
                },
                NovelPreviewSelection::Summary => r is Nothing && f == o,
            },
            _ => r is Nothing && f == o,
        }
    }

    /// What `control_reader` needs of the app `o` for the key `key`.
    pub open spec fn control_reader_ok(o: AppState, key: Key) -> bool {
        &&& (key == Key::Up || key == Key::Down || key == Key::Right || key == Key::Left
            ==> o.reader_data is Some)
        &&& (key == Key::Right ==> (o.reader_data matches Some(rd) && (rd.book_info.source() matches BookSource::Global(d)
            ==> d.current_chapter < usize::MAX && (d.current_chapter + 1 <= d.total_chapters
            ==> chapter_url_spec(d.novel.chapters@, (d.current_chapter + 1) as usize) is Some))))
        &&& (key == Key::Left ==> (o.reader_data matches Some(rd) && (rd.book_info.source() matches BookSource::Global(d)
            ==> (d.current_chapter > 1 ==> chapter_url_spec(d.novel.chapters@, (d.current_chapter - 1) as usize) is Some))))
    }

    /// What `control_reader` makes of the app `o` (giving `f`) for the key `key`.
    pub open spec fn control_reader_done(o: AppState, f: AppState, key: Key, r: Action) -> bool {
        match key {
            Key::Up | Key::Down => {
                let rd = o.reader_data->0;
                let nd = f.reader_data->0;
                &&& r is Nothing
                &&& f.reader_data is Some
                &&& nd.portion.display_next == (if key == Key::Up {
                    crate::reader::portion::NextDisplay::ScrollUp(1)
                } else {
                    crate::reader::portion::NextDisplay::ScrollDown(1)
                })
                &&& crate::reader::portion::BookPortion::same_but_next(rd.portion, nd.portion)
                &&& nd.book_info == rd.book_info
                &&& nd.global_chapter == rd.global_chapter
                &&& f == (AppState { reader_data: f.reader_data, ..o })
            },
            Key::Right | Key::Left => {
                let rd = o.reader_data->0;
                &&& f == o
                &&& match rd.book_info.source() {
                    BookSource::Local(_) => r is Nothing,
                    BookSource::Global(d) => {
                        let has = if key == Key::Right {
                            d.current_chapter + 1 <= d.total_chapters
                        } else {
                            d.current_chapter > 1
                        };
                        let c = if key == Key::Right { d.current_chapter + 1 } else { d.current_chapter - 1 };
                        if has {
                            r matches Action::FetchChapter { source, novel_url, chapter_url, chapter, in_library }
                                && source == d.novel.source && novel_url == d.novel.novel_url
                                && Some(chapter_url@) == chapter_url_spec(d.novel.chapters@, c as usize)
                                && chapter == c && in_library == (rd.book_info is Library)
                        } else {
                            r is Nothing
                        }
                    },
                }
            },
            _ => r is Nothing && f == o,
        }
    }

    /// What `control_sources_menu` makes of the app `o` (giving `f`) for the key `key`.
    pub open spec fn control_sources_menu_done(o: AppState, f: AppState, key: Key) -> bool {
        let l = o.source_data.sources;
        match key {
            Key::Up | Key::Down => f == (AppState {
                source_data: crate::state::source_data::SourceData { sources: moved(l, key == Key::Up), ..o.source_data },
                ..o
            }),
            Key::Enter => if l.state.selected matches Some(i) && i < l.items@.len() {
                &&& (f.current_screen, f.prev_screens@) == screen_step(
                    o.current_screen,
                    o.prev_screens@,
                    CurrentScreen::Sources(SourceOptions::SourceSelect),
                )
                &&& AppState::same_but_screens(o, f)
            } else {
                f == o
            },
            _ => f == o,
        }
    }

    /// What `control_source_select` needs of the app `o` for the key `key`.
    pub open spec fn control_source_select_ok(o: AppState, key: Key) -> bool {
        (key == Key::Enter ==> (o.menu_options.source_options.state.selected matches Some(k)
            && (k == 1 ==> (o.source_data.sources.state.selected matches Some(j)
            && j < o.source_data.sources.items@.len()))))
    }

    /// What `control_source_select` makes of the app `o` (giving `f`) for the key `key`.
    pub open spec fn control_source_select_done(o: AppState, f: AppState, key: Key, r: Action) -> bool {
        let opts = o.menu_options.source_options;
        match key {
            Key::Up | Key::Down => r is Nothing && f == (AppState {
                menu_options: MenuOptions { source_options: moved(opts, key == Key::Up), ..o.menu_options },
                ..o
            }),
            Key::Enter => if opts.state.selected == Some(0usize) {
                &&& r is Nothing
                &&& (f.current_screen, f.prev_screens@) == screen_step(o.current_screen, o.prev_screens@, CurrentScreen::Typing)
                &&& AppState::same_but_screens(o, f)
            } else if opts.state.selected == Some(1usize) {
                let src = o.source_data.sources;
                &&& f == o
                &&& r matches Action::Popular { source }
                    && source == src.items@[src.state.selected->0 as int].1.id_spec()
            } else {
                r is Nothing && f == o
            },
            _ => r is Nothing && f == o,
        }
    }

    /// What `control_library_category_options` needs of the app `o` for the key `key`.
    pub open spec fn control_library_category_options_ok(o: AppState, key: Key) -> bool {
        (key == Key::Enter ==> (o.menu_options.category_options.state.selected matches Some(k) && k < 4))
    }

    /// What `control_library_category_options` makes of the app `o` (giving `f`) for the key `key`.
    pub open spec fn control_library_category_options_done(o: AppState, f: AppState, key: Key) -> bool {
        let opts = o.menu_options.category_options;
        match key {
            Key::Up | Key::Down => f == (AppState {
                menu_options: MenuOptions { category_options: moved(opts, key == Key::Up), ..o.menu_options },
                ..o
            }),
            Key::Enter => {
                let k = opts.state.selected->0;
                if k == 1 {
                    f == o
                } else {
                    let to = if k == 0 {
                        CurrentScreen::Typing
                    } else {
                        CurrentScreen::Library(LibraryOptions::CategorySelect)
                    };
                    &&& (f.current_screen, f.prev_screens@) == screen_step(o.current_screen, o.prev_screens@, to)
                    &&& AppState::same_but_screens(o, f)
                }
            },
            _ => f == o,
        }
    }
}


impl AppState {
    /// The category selected in the category menu, when one is.
    pub open spec fn menu_category(o: AppState) -> String {
        let cl = o.menu_options.category_list;
        cl.items@[cl.state.selected->0 as int]
    }

    pub open spec fn menu_category_selected(o: AppState) -> bool {
        let cl = o.menu_options.category_list;
        cl.state.selected matches Some(i) && i < cl.items@.len()
    }

    /// What `control_library_category_select` needs of the app `o` for the key `key`.
    pub open spec fn control_library_category_select_ok(o: AppState, key: Key) -> bool {
        key == Key::Enter ==> {
            &&& o.prev_screens@.len() > 0
            &&& if o.prev_screens@.last() == CurrentScreen::Library(LibraryOptions::CategoryOptions) {
                let k = o.menu_options.category_options.state.selected;
                &&& k == Some(2usize) || k == Some(3usize)
                &&& k == Some(3usize) ==> {
                    let name = AppState::menu_category(o)@;
                    &&& AppState::menu_category_selected(o)
                    &&& o.library_data.wf()
                    &&& name != o.library_data.default_category_name@ && o.library_data.has(name)
                        ==> o.library_data.categories.state.selected is Some
                }
            } else {
                &&& o.library_data.wf()
                &&& o.library_data.category_selected()
                &&& o.library_data.selected_book() is Some
                &&& AppState::menu_category_selected(o)
                &&& o.library_data.selects_where_held(o.library_data.selected_book()->0.id)
            }
        }
    }

    /// What `control_library_category_select` makes of the app `o` (giving `f`) for the key `key`.
    pub open spec fn control_library_category_select_done(o: AppState, f: AppState, key: Key) -> bool {
        match key {
            Key::Up | Key::Down => f == (AppState {
                menu_options: MenuOptions {
                    category_list: moved(o.menu_options.category_list, key == Key::Up),
                    ..o.menu_options
                },
                ..o
            }),
            Key::Enter => if o.prev_screens@.last() == CurrentScreen::Library(LibraryOptions::CategoryOptions) {
                if o.menu_options.category_options.state.selected == Some(2usize) {
                    &&& (f.current_screen, f.prev_screens@) == screen_step(o.current_screen, o.prev_screens@, CurrentScreen::Typing)
                    &&& AppState::same_but_screens(o, f)
                } else {
                    &&& LibraryData::category_deleted(o.library_data, f.library_data, AppState::menu_category(o))
                    &&& AppState::lists_categories(f)
                    &&& f.current_screen == CurrentScreen::Library(LibraryOptions::CategoryOptions)
                    &&& f.prev_screens@ == seq![CurrentScreen::Library(LibraryOptions::Default)]
                    &&& f == (AppState {
                        library_data: f.library_data,
                        menu_options: MenuOptions { category_list: f.menu_options.category_list, ..o.menu_options },
                        current_screen: f.current_screen,
                        prev_screens: f.prev_screens,
                        ..o
                    })
                }
            } else {
                &&& LibraryData::book_moved(
                    o.library_data,
                    f.library_data,
                    o.library_data.selected_book()->0.id,
                    Some(AppState::menu_category(o)),
                )
                &&& f.current_screen == CurrentScreen::Library(LibraryOptions::Default)
                &&& f.prev_screens@ == Seq::<CurrentScreen>::empty()
                &&& f == (AppState {
                    library_data: f.library_data,
                    current_screen: f.current_screen,
                    prev_screens: f.prev_screens,
                    ..o
                })
            },
            _ => f == o,
        }
    }

    /// In the list of categories: Up and Down move through it; Enter, coming
    /// from the category options, renames (typing screen) or deletes the
    /// selected category, and otherwise moves the selected book to it.
    pub fn control_library_category_select(&mut self, key: Key)
        requires
            AppState::control_library_category_select_ok(*old(self), key),
        ensures
            AppState::control_library_category_select_done(*old(self), *final(self), key),
    {
        match key {
            Key::Up => self.menu_options.category_list.previous(),
            Key::Down => self.menu_options.category_list.next(),
            Key::Enter => {
                if self.get_last_screen() == CurrentScreen::Library(LibraryOptions::CategoryOptions) {
                    let opt = self.menu_options.category_options.state.selected().unwrap();
                    if opt == 2 {
                        self.update_screen(CurrentScreen::Typing);
                    } else {
                        let name = self.menu_options.category_list.selected().unwrap().clone();
                        self.library_data.delete_category(name);
                        self.menu_options.category_list.state.select(Some(0));
                        self.update_category_list();
                        self.to_lib_screen();
                        self.update_screen(CurrentScreen::Library(LibraryOptions::CategoryOptions));
                    }
                } else {
                    let id = self.library_data.get_category_list().selected().unwrap().id;
                    let category = self.menu_options.category_list.selected().unwrap().clone();
                    proof {
                        self.library_data.lemma_selected_held();
                    }
                    self.library_data.move_category(id, Some(category));
                    self.to_lib_screen();
                }
            },
            _ => {},
        }
    }

    /// The web book selected in the library, with its chapter `c` listed.
    pub open spec fn selected_lists_chapter(o: AppState, c: int) -> bool {
        o.library_data.selected_book() matches Some(b) && (b.source_data matches BookSource::Global(d)
            && chapter_url_spec(d.novel.chapters@, c as usize) is Some)
    }

    /// What `control_chapter_view` needs of the app `o` for the key `key`.
    pub open spec fn control_chapter_view_ok(o: AppState, key: Key) -> bool {
        let focus = o.buffer.novel_preview_selection;
        let chs = o.buffer.chapter_previews;
        &&& key == Key::Down && focus != NovelPreviewSelection::Chapters ==> o.buffer.novel_preview_scroll < usize::MAX
        &&& key == Key::Enter && focus == NovelPreviewSelection::Chapters ==> {
            &&& chs.state.selected matches Some(c) && c < usize::MAX
            &&& o.library_data.wf()
            &&& o.library_data.category_selected()
            &&& AppState::selected_lists_chapter(o, chs.state.selected->0 + 1)
        }
    }

    /// What `control_chapter_view` makes of the app `o` (giving `f`) for the key `key`.
    pub open spec fn control_chapter_view_done(o: AppState, f: AppState, key: Key, r: Action) -> bool {
        let b = o.buffer;
        let focus = b.novel_preview_selection;
        match key {
            Key::Up | Key::Down => r is Nothing && if focus == NovelPreviewSelection::Chapters {
                f == (AppState { buffer: AppBuffer { chapter_previews: moved(b.chapter_previews, key == Key::Up), ..b }, ..o })
            } else {
                f == (AppState {
                    buffer: AppBuffer {
                        novel_preview_scroll: if key == Key::Up {
                            if b.novel_preview_scroll == 0 { 0 } else { (b.novel_preview_scroll - 1) as usize }
                        } else {
                            (b.novel_preview_scroll + 1) as usize
                        },
                        ..b
                    },
                    ..o
                })
            },
            Key::Enter => if focus == NovelPreviewSelection::Chapters {
                let c = b.chapter_previews.state.selected->0 + 1;
                let d = o.library_data.selected_book()->0.source_data->Global_0;
                &&& f == o
                &&& r matches Action::FetchChapter { source, novel_url, chapter_url, chapter, in_library }
                    && source == d.novel.source && novel_url == d.novel.novel_url
                    && Some(chapter_url@) == chapter_url_spec(d.novel.chapters@, c as usize) && chapter == c && in_library
            } else {
                r is Nothing && f == o
            },
            Key::Char('[') | Key::BackTab | Key::Char(']') | Key::Tab => r is Nothing && f == (AppState {
                buffer: AppBuffer {
                    novel_preview_selection: if focus == NovelPreviewSelection::Summary {
                        NovelPreviewSelection::Chapters
                    } else {
                        NovelPreviewSelection::Summary
                    },
                    ..b
                },
                ..o
            }),
            _ => r is Nothing && f == o,
        }
    }

    /// In a library book's chapter list: Up and Down move through the
    /// chapters (scroll the summary), Enter reads the selected chapter, and
    /// the tab keys switch between the chapters and the summary.
    pub fn control_chapter_view(&mut self, key: Key) -> (r: Action)
        requires
            AppState::control_chapter_view_ok(*old(self), key),
        ensures
            AppState::control_chapter_view_done(*old(self), *final(self), key, r),
    {
        match key {
            Key::Up => {
                if self.buffer.novel_preview_selection == NovelPreviewSelection::Chapters {
                    self.buffer.chapter_previews.previous();
                } else if self.buffer.novel_preview_scroll != 0 {
                    self.buffer.novel_preview_scroll -= 1;
                }
                Action::Nothing
            },
            Key::Down => {
                if self.buffer.novel_preview_selection == NovelPreviewSelection::Chapters {
                    self.buffer.chapter_previews.next();
                } else {
                    self.buffer.novel_preview_scroll += 1;
                }
                Action::Nothing
            },
            Key::Enter => {
                if self.buffer.novel_preview_selection == NovelPreviewSelection::Chapters {
                    let chap = self.buffer.chapter_previews.state.selected().unwrap();
                    let book = self.library_data.get_category_list().selected().unwrap();
                    match &book.source_data {
                        BookSource::Global(d) => Action::FetchChapter {
                            source: d.novel.source,
                            novel_url: d.novel.novel_url.clone(),
                            chapter_url: d.novel.get_chapter_url(chap + 1).unwrap(),
                            chapter: chap + 1,
                            in_library: true,
                        },
                        BookSource::Local(_) => Action::Nothing,
                    }
                } else {
                    Action::Nothing
                }
            },
            Key::Char('[') | Key::BackTab | Key::Char(']') | Key::Tab => {
                if self.buffer.novel_preview_selection == NovelPreviewSelection::Summary {
                    self.buffer.novel_preview_selection = NovelPreviewSelection::Chapters;
                } else {
                    self.buffer.novel_preview_selection = NovelPreviewSelection::Summary;
                }
                Action::Nothing
            },
            _ => Action::Nothing,
        }
    }
}


/// Whether a web book at chapter `d.current_chapter` can be resumed: the
/// chapter to fetch (the next one, when `finished` and there is one) is
/// listed by the novel.
pub open spec fn can_resume(d: crate::state::book_info::GlobalBookData, finished: bool) -> bool {
    if finished {
        &&& d.current_chapter < usize::MAX
        &&& if d.current_chapter + 1 <= d.total_chapters {
            chapter_url_spec(d.novel.chapters@, (d.current_chapter + 1) as usize) is Some
        } else {
            chapter_url_spec(d.novel.chapters@, d.current_chapter) is Some
        }
    } else {
        chapter_url_spec(d.novel.chapters@, d.current_chapter) is Some
    }
}

/// Resuming a web book asks for its current chapter, or for the next one
/// when `finished` and there is one (reported under the current chapter's
/// number); `in_library` tells where the text goes.
pub open spec fn resumes(d: crate::state::book_info::GlobalBookData, finished: bool, in_library: bool, r: Action) -> bool {
    let ch = d.current_chapter;
    if finished && ch + 1 <= d.total_chapters {
        r matches Action::FetchChapter { source, novel_url, chapter_url, chapter, in_library: l }
            && source == d.novel.source && novel_url == d.novel.novel_url
            && Some(chapter_url@) == chapter_url_spec(d.novel.chapters@, (ch + 1) as usize) && chapter == ch && l
    } else {
        r matches Action::FetchChapter { source, novel_url, chapter_url, chapter, in_library: l }
            && source == d.novel.source && novel_url == d.novel.novel_url
            && Some(chapter_url@) == chapter_url_spec(d.novel.chapters@, ch) && chapter == ch && l == in_library
    }
}

/// Asks for `d`'s current chapter (or the next one, when `finished`).
fn resume(d: &crate::state::book_info::GlobalBookData, finished: bool, in_library: bool) -> (r: Action)
    requires
        can_resume(*d, finished),
    ensures
        resumes(*d, finished, in_library, r),
{
    let ch = d.current_chapter;
    if finished && ch + 1 <= d.total_chapters {
        return Action::FetchChapter {
            source: d.novel.source,
            novel_url: d.novel.novel_url.clone(),
            chapter_url: d.novel.get_chapter_url(ch + 1).unwrap(),
            chapter: ch,
            in_library: true,
        };
    }
    Action::FetchChapter {
        source: d.novel.source,
        novel_url: d.novel.novel_url.clone(),
        chapter_url: d.novel.get_chapter_url(ch).unwrap(),
        chapter: ch,
        in_library,
    }
}

impl AppState {
    /// `f` is `o` with the first option of `menu` selected (`menu` picks one
    /// of the app's option lists).
    pub open spec fn option_reset(o: AppState, f: AppState, menu: int) -> bool {
        let m = o.menu_options;
        f.menu_options == if menu == 0 {
            MenuOptions { local_options: StatefulList { state: m.local_options.state.select_spec(Some(0)), ..m.local_options }, ..m }
        } else {
            MenuOptions { global_options: StatefulList { state: m.global_options.state.select_spec(Some(0)), ..m.global_options }, ..m }
        }
    }

    /// What `control_library_global_book_select` needs of the app `o` for the key `key`.
    pub open spec fn control_library_global_book_select_ok(o: AppState, key: Key) -> bool {
        key == Key::Enter ==> {
            let k = o.menu_options.global_options.state.selected;
            let b = o.library_data.selected_book()->0;
            &&& k matches Some(k) && k < 6
            &&& o.library_data.wf()
            &&& o.library_data.category_selected()
            &&& o.library_data.selected_book() is Some
            &&& k == Some(0usize) ==> (b.source_data matches BookSource::Global(d)
                && can_resume(d, source_progress(b.source_data) is Finished))
            &&& k == Some(1usize) ==> b.source_data is Global
            &&& k == Some(4usize) ==> (b.source_data matches BookSource::Global(d)
                && chapter_url_spec(d.novel.chapters@, 1) is Some)
            &&& k == Some(5usize) ==> o.library_data.selects_where_held(b.id)
        }
    }

    /// What `control_library_global_book_select` makes of the app `o` (giving `f`) for the key `key`.
    pub open spec fn control_library_global_book_select_done(o: AppState, f: AppState, key: Key, r: Action) -> bool {
        let opts = o.menu_options.global_options;
        match key {
            Key::Up | Key::Down => r is Nothing && f == (AppState {
                menu_options: MenuOptions { global_options: moved(opts, key == Key::Up), ..o.menu_options },
                ..o
            }),
            Key::Enter => {
                let k = opts.state.selected->0;
                let b = o.library_data.selected_book()->0;
                let d = b.source_data->Global_0;
                let finished = source_progress(b.source_data) is Finished;
                if k == 0 {
                    &&& resumes(d, finished, true, r)
                    &&& if finished && d.current_chapter + 1 <= d.total_chapters {
                        f == o
                    } else {
                        AppState::option_reset(o, f, 1) && f == (AppState { menu_options: f.menu_options, ..o })
                    }
                } else if k == 1 {
                    &&& r is Nothing
                    &&& f.buffer.novel matches Some(n) && n.same(d.novel)
                    &&& f.buffer.chapter_previews@ == (if d.novel.chapters@.len() == 0 {
                        ListSelection::none()
                    } else {
                        ListSelection::none().select_spec(Some(0))
                    }, d.novel.chapters@)
                    &&& (f.current_screen, f.prev_screens@) == screen_step(
                        o.current_screen,
                        o.prev_screens@,
                        CurrentScreen::Misc(MiscOptions::ChapterView),
                    )
                    &&& AppState::option_reset(o, f, 1)
                    &&& f == (AppState {
                        buffer: AppBuffer { novel: f.buffer.novel, chapter_previews: f.buffer.chapter_previews, ..o.buffer },
                        current_screen: f.current_screen,
                        prev_screens: f.prev_screens,
                        menu_options: f.menu_options,
                        ..o
                    })
                } else if k == 2 || k == 3 {
                    let to = if k == 2 { CurrentScreen::Library(LibraryOptions::CategorySelect) } else { CurrentScreen::Typing };
                    &&& r is Nothing
                    &&& (f.current_screen, f.prev_screens@) == screen_step(o.current_screen, o.prev_screens@, to)
                    &&& AppState::option_reset(o, f, 1)
                    &&& f == (AppState {
                        current_screen: f.current_screen,
                        prev_screens: f.prev_screens,
                        menu_options: f.menu_options,
                        ..o
                    })
                } else if k == 4 {
                    &&& r matches Action::FetchChapter { source, novel_url, chapter_url, chapter, in_library }
                        && source == d.novel.source && novel_url == d.novel.novel_url
                        && Some(chapter_url@) == chapter_url_spec(d.novel.chapters@, 1) && chapter == 1 && in_library
                    &&& AppState::option_reset(o, f, 1)
                    &&& f == (AppState { menu_options: f.menu_options, ..o })
                } else {
                    &&& r is Nothing
                    &&& f.library_data.wf()
                    &&& f.library_data.categories == o.library_data.categories
                    &&& f.library_data.default_category_name == o.library_data.default_category_name
                    &&& f.library_data.lists() == o.library_data.lists().map_values(|l: ListView| without_book(l, b.id))
                    &&& f.current_screen == CurrentScreen::Library(LibraryOptions::Default)
                    &&& f.prev_screens@ == Seq::<CurrentScreen>::empty()
                    &&& AppState::option_reset(o, f, 1)
                    &&& f == (AppState {
                        library_data: f.library_data,
                        current_screen: f.current_screen,
                        prev_screens: f.prev_screens,
                        menu_options: f.menu_options,
                        ..o
                    })
                }
            },
            _ => r is Nothing && f == o,
        }
    }

    /// In a web book's options: Up and Down move through them; Enter
    /// resumes reading, opens the chapter list, moves the book to a
    /// category, renames it, reads it from the first chapter, or removes it
    /// from the library; the first option is then selected again.
    pub fn control_library_global_book_select(&mut self, key: Key) -> (r: Action)
        requires
            AppState::control_library_global_book_select_ok(*old(self), key),
        ensures
            AppState::control_library_global_book_select_done(*old(self), *final(self), key, r),
    {
        match key {
            Key::Up => {
                self.menu_options.global_options.previous();
                Action::Nothing
            },
            Key::Down => {
                self.menu_options.global_options.next();
                Action::Nothing
            },
            Key::Enter => {
                let option = self.menu_options.global_options.state.selected().unwrap();
                let r = if option == 0 {
                    let book = self.library_data.get_category_list().selected().unwrap();
                    let finished = matches!(book.get_progress(), BookProgress::Finished);
                    match &book.source_data {
                        BookSource::Global(d) => {
                            if finished && d.current_chapter + 1 <= d.total_chapters {
                                return resume(d, finished, true);
                            }
                            resume(d, finished, true)
                        },
                        BookSource::Local(_) => Action::Nothing,
                    }
                } else if option == 1 {
                    let book = self.library_data.get_category_list().selected().unwrap();
                    let novel = match &book.source_data {
                        BookSource::Global(d) => d.novel.clone(),
                        BookSource::Local(_) => {
                            proof {
                                assert(false);
                            }
                            return Action::Nothing;
                        },
                    };
                    let chapters = novel.chapters.clone();
                    proof {
                        assert(chapters@ =~= novel.chapters@);
                    }
                    self.buffer.chapter_previews = StatefulList::with_items(chapters);
                    self.buffer.novel = Some(novel);
                    self.update_screen(CurrentScreen::Misc(MiscOptions::ChapterView));
                    Action::Nothing
                } else if option == 2 {
                    self.update_screen(CurrentScreen::Library(LibraryOptions::CategorySelect));
                    Action::Nothing
                } else if option == 3 {
                    self.update_screen(CurrentScreen::Typing);
                    Action::Nothing
                } else if option == 4 {
                    let book = self.library_data.get_category_list().selected().unwrap();
                    match &book.source_data {
                        BookSource::Global(d) => Action::FetchChapter {
                            source: d.novel.source,
                            novel_url: d.novel.novel_url.clone(),
                            chapter_url: d.novel.get_chapter_url(1).unwrap(),
                            chapter: 1,
                            in_library: true,
                        },
                        BookSource::Local(_) => Action::Nothing,
                    }
                } else {
                    let id = self.library_data.get_category_list().selected().unwrap().id;
                    self.library_data.remove_book(id);
                    self.to_lib_screen();
                    Action::Nothing
                };
                self.menu_options.global_options.state.select(Some(0));
                r
            },
            _ => Action::Nothing,
        }
    }

    /// What `control_library_local_book_select` needs of the app `o` for the key `key`.
    pub open spec fn control_library_local_book_select_ok(o: AppState, key: Key) -> bool {
        key == Key::Enter ==> {
            let k = o.menu_options.local_options.state.selected;
            &&& k matches Some(k) && k < 5
            &&& o.library_data.wf()
            &&& o.library_data.category_selected()
            &&& o.library_data.selected_book() is Some
            &&& k == Some(4usize) ==> o.library_data.selects_where_held(o.library_data.selected_book()->0.id)
        }
    }

    /// What `control_library_local_book_select` makes of the app `o` (giving `f`) for the key `key`.
    pub open spec fn control_library_local_book_select_done(o: AppState, f: AppState, key: Key, r: Action) -> bool {
        let opts = o.menu_options.local_options;
        match key {
            Key::Up | Key::Down => r is Nothing && f == (AppState {
                menu_options: MenuOptions { local_options: moved(opts, key == Key::Up), ..o.menu_options },
                ..o
            }),
            Key::Enter => {
                let k = opts.state.selected->0;
                let b = o.library_data.selected_book()->0;
                &&& AppState::option_reset(o, f, 0)
                &&& if k == 0 || k == 3 {
                    &&& r matches Action::OpenBook { id, from_start } && id == b.id && from_start == (k == 3)
                    &&& f == (AppState { menu_options: f.menu_options, ..o })
                } else if k == 1 || k == 2 {
                    let to = if k == 1 { CurrentScreen::Library(LibraryOptions::CategorySelect) } else { CurrentScreen::Typing };
                    &&& r is Nothing
                    &&& (f.current_screen, f.prev_screens@) == screen_step(o.current_screen, o.prev_screens@, to)
                    &&& f == (AppState {
                        current_screen: f.current_screen,
                        prev_screens: f.prev_screens,
                        menu_options: f.menu_options,
                        ..o
                    })
                } else {
                    &&& r is Nothing
                    &&& f.library_data.wf()
                    &&& f.library_data.categories == o.library_data.categories
                    &&& f.library_data.default_category_name == o.library_data.default_category_name
                    &&& f.library_data.lists() == o.library_data.lists().map_values(|l: ListView| without_book(l, b.id))
                    &&& f.current_screen == CurrentScreen::Library(LibraryOptions::Default)
                    &&& f.prev_screens@ == Seq::<CurrentScreen>::empty()
                    &&& f == (AppState {
                        library_data: f.library_data,
                        current_screen: f.current_screen,
                        prev_screens: f.prev_screens,
                        menu_options: f.menu_options,
                        ..o
                    })
                }
            },
            _ => r is Nothing && f == o,
        }
    }

    /// In a local book's options: Up and Down move through them; Enter
    /// opens the book (where it was left, or from its start), moves it to a
    /// category, renames it, or removes it from the library; the first
    /// option is then selected again.
    pub fn control_library_local_book_select(&mut self, key: Key) -> (r: Action)
        requires
            AppState::control_library_local_book_select_ok(*old(self), key),
        ensures
            AppState::control_library_local_book_select_done(*old(self), *final(self), key, r),
    {
        match key {
            Key::Up => {
                self.menu_options.local_options.previous();
                Action::Nothing
            },
            Key::Down => {
                self.menu_options.local_options.next();
                Action::Nothing
            },
            Key::Enter => {
                let option = self.menu_options.local_options.state.selected().unwrap();
                let id = self.library_data.get_category_list().selected().unwrap().id;
                let r = if option == 0 || option == 3 {
                    Action::OpenBook { id, from_start: option == 3 }
                } else if option == 1 {
                    self.update_screen(CurrentScreen::Library(LibraryOptions::CategorySelect));
                    Action::Nothing
                } else if option == 2 {
                    self.update_screen(CurrentScreen::Typing);
                    Action::Nothing
                } else {
                    self.library_data.remove_book(id);
                    self.to_lib_screen();
                    Action::Nothing
                };
                self.menu_options.local_options.state.select(Some(0));
                r
            },
            _ => Action::Nothing,
        }
    }
}


impl AppState {
    /// What `control_history_global_book_select` needs of the app `o` for the key `key`.
    pub open spec fn control_history_global_book_select_ok(o: AppState, key: Key) -> bool {
        key == Key::Enter ==> {
            let k = o.menu_options.global_history_options.state.selected;
            let h = o.history_data;
            &&& k is Some
            &&& h.selected.selected matches Some(i) ==> {
                let book = h.history@[i as int].book;
                &&& i < h.history@.len()
                &&& k == Some(0usize) ==> (book.source() matches BookSource::Global(d)
                    && can_resume(d, source_progress(book.source()) is Finished))
                &&& k == Some(1usize) ==> book.source() is Global
                &&& k == Some(2usize) ==> i > 0 || h.history@.len() == 1
            }
        }
    }

    /// What `control_history_global_book_select` makes of the app `o` (giving `f`) for the key `key`.
    pub open spec fn control_history_global_book_select_done(o: AppState, f: AppState, key: Key, r: Action) -> bool {
        let opts = o.menu_options.global_history_options;
        let h = o.history_data;
        match key {
            Key::Up | Key::Down => r is Nothing && f == (AppState {
                menu_options: MenuOptions { global_history_options: moved(opts, key == Key::Up), ..o.menu_options },
                ..o
            }),
            Key::Enter => match h.selected.selected {
                None => r is Nothing && f == o,
                Some(i) => {
                    let k = opts.state.selected->0;
                    let book = h.history@[i as int].book;
                    let d = book.source()->Global_0;
                    if k == 0 {
                        f == o && resumes(d, source_progress(book.source()) is Finished, book is Library, r)
                    } else if k == 1 {
                        &&& f == o
                        &&& r matches Action::FetchNovel { source, novel_url, with_options }
                            && source == d.novel.source && novel_url == d.novel.novel_url && !with_options
                    } else if k == 2 {
                        let rest = h.history@.remove(i as int);
                        &&& r is Nothing
                        &&& f.history_data.history@ == rest
                        &&& f.history_data.selected == (if rest.len() > 0 {
                            h.selected.select_spec(Some((i - 1) as usize))
                        } else {
                            h.selected.select_spec(None)
                        })
                        &&& f.current_screen == CurrentScreen::History(HistoryOptions::Default)
                        &&& f.prev_screens@ == Seq::<CurrentScreen>::empty()
                        &&& f == (AppState {
                            history_data: f.history_data,
                            current_screen: f.current_screen,
                            prev_screens: f.prev_screens,
                            ..o
                        })
                    } else {
                        r is Nothing && f == o
                    }
                },
            },
            _ => r is Nothing && f == o,
        }
    }

    /// In a history entry's options for a web book: Up and Down move
    /// through them; Enter resumes reading, views the book, or removes the
    /// entry from the history.
    pub fn control_history_global_book_select(&mut self, key: Key) -> (r: Action)
        requires
            AppState::control_history_global_book_select_ok(*old(self), key),
        ensures
            AppState::control_history_global_book_select_done(*old(self), *final(self), key, r),
    {
        match key {
            Key::Up => {
                self.menu_options.global_history_options.previous();
                Action::Nothing
            },
            Key::Down => {
                self.menu_options.global_history_options.next();
                Action::Nothing
            },
            Key::Enter => {
                let option = self.menu_options.global_history_options.state.selected().unwrap();
                let idx = match self.history_data.selected.selected() {
                    None => return Action::Nothing,
                    Some(i) => i,
                };
                if option == 0 {
                    let book = &self.history_data.history[idx].book;
                    let in_library = matches!(book, crate::state::book_info::BookInfo::Library(_));
                    let finished = matches!(book.get_progress(), BookProgress::Finished);
                    match book.get_source_data() {
                        BookSource::Global(d) => resume(d, finished, in_library),
                        BookSource::Local(_) => Action::Nothing,
                    }
                } else if option == 1 {
                    let book = &self.history_data.history[idx].book;
                    match book.get_source_data() {
                        BookSource::Global(d) => Action::FetchNovel {
                            source: d.novel.source,
                            novel_url: d.novel.novel_url.clone(),
                            with_options: false,
                        },
                        BookSource::Local(_) => Action::Nothing,
                    }
                } else if option == 2 {
                    self.history_data.history.remove(idx);
                    if self.history_data.history.len() > 0 {
                        self.history_data.selected.select(Some(idx - 1));
                    } else {
                        self.history_data.selected.select(None);
                    }
                    self.to_history_screen();
                    Action::Nothing
                } else {
                    Action::Nothing
                }
            },
            _ => Action::Nothing,
        }
    }

    /// What `control_history_local_book_select` needs of the app `o` for the key `key`.
    pub open spec fn control_history_local_book_select_ok(o: AppState, key: Key) -> bool {
        key == Key::Enter ==> {
            let k = o.menu_options.local_history_options.state.selected;
            &&& k is Some
            &&& (k == Some(0usize) || k == Some(1usize)) ==> (o.history_data.selected.selected matches Some(i)
                ==> i < o.history_data.history@.len())
        }
    }

    /// What `control_history_local_book_select` makes of the app `o` (giving `f`) for the key `key`.
    pub open spec fn control_history_local_book_select_done(o: AppState, f: AppState, key: Key, r: Action) -> bool {
        let opts = o.menu_options.local_history_options;
        let h = o.history_data;
        match key {
            Key::Up | Key::Down => r is Nothing && f == (AppState {
                menu_options: MenuOptions { local_history_options: moved(opts, key == Key::Up), ..o.menu_options },
                ..o
            }),
            Key::Enter => match h.selected.selected {
                None => r is Nothing && f == o,
                Some(i) => {
                    let k = opts.state.selected->0;
                    if k == 0 {
                        &&& f == o
                        &&& r matches Action::OpenHistoryBook { index } && index == i
                    } else if k == 1 {
                        &&& r is Nothing
                        &&& f.history_data.history@ == h.history@.remove(i as int)
                        &&& f.history_data.selected == (if i != 0 {
                            h.selected.select_spec(Some((i - 1) as usize))
                        } else {
                            h.selected.select_spec(None)
                        })
                        &&& f.current_screen == CurrentScreen::History(HistoryOptions::Default)
                        &&& f.prev_screens@ == Seq::<CurrentScreen>::empty()
                        &&& f == (AppState {
                            history_data: f.history_data,
                            current_screen: f.current_screen,
                            prev_screens: f.prev_screens,
                            ..o
                        })
                    } else {
                        r is Nothing && f == o
                    }
                },
            },
            _ => r is Nothing && f == o,
        }
    }

    /// In a history entry's options for a local book: Up and Down move
    /// through them; Enter opens the book, or removes the entry from the history.
    pub fn control_history_local_book_select(&mut self, key: Key) -> (r: Action)
        requires
            AppState::control_history_local_book_select_ok(*old(self), key),
        ensures
            AppState::control_history_local_book_select_done(*old(self), *final(self), key, r),
    {
        match key {
            Key::Up => {
                self.menu_options.local_history_options.previous();
                Action::Nothing
            },
            Key::Down => {
                self.menu_options.local_history_options.next();
                Action::Nothing
            },
            Key::Enter => {
                let option = self.menu_options.local_history_options.state.selected().unwrap();
                let idx = match self.history_data.selected.selected() {
                    None => return Action::Nothing,
                    Some(i) => i,
                };
                if option == 0 {
                    Action::OpenHistoryBook { index: idx }
                } else if option == 1 {
                    self.history_data.history.remove(idx);
                    if idx != 0 {
                        self.history_data.selected.select(Some(idx - 1));
                    } else {
                        self.history_data.selected.select(None);
                    }
                    self.to_history_screen();
                    Action::Nothing
                } else {
                    Action::Nothing
                }
            },
            _ => Action::Nothing,
        }
    }
}


impl AppState {
    /// What the handler of the screen `o` shows needs for the key `key`.
    pub open spec fn screen_ok(o: AppState, key: Key) -> bool {
        match o.current_screen {
            CurrentScreen::Misc(_) => AppState::control_chapter_view_ok(o, key),
            CurrentScreen::Library(LibraryOptions::Default) => AppState::control_main_menu_ok(o, key)
                && AppState::control_library_menu_ok(o, key),
            CurrentScreen::Library(LibraryOptions::LocalBookSelect) => AppState::control_library_local_book_select_ok(o, key),
            CurrentScreen::Library(LibraryOptions::GlobalBookSelect) => AppState::control_library_global_book_select_ok(o, key),
            CurrentScreen::Library(LibraryOptions::CategorySelect) => AppState::control_library_category_select_ok(o, key),
            CurrentScreen::Library(LibraryOptions::CategoryOptions) => AppState::control_library_category_options_ok(o, key),
            CurrentScreen::Updates(_) => AppState::control_main_menu_ok(o, key),
            CurrentScreen::Sources(SourceOptions::Default) => AppState::control_main_menu_ok(o, key),
            CurrentScreen::Sources(SourceOptions::SourceSelect) => AppState::control_source_select_ok(o, key),
            CurrentScreen::Sources(SourceOptions::SearchResults) => AppState::control_source_search_result_ok(o, key),
            CurrentScreen::Sources(SourceOptions::BookView) => AppState::control_source_book_view_ok(o, key),
            CurrentScreen::History(HistoryOptions::Default) => AppState::control_main_menu_ok(o, key)
                && AppState::control_history_menu_ok(o, key),
            CurrentScreen::History(HistoryOptions::HistoryLocalBookOptions) => AppState::control_history_local_book_select_ok(o, key),
            CurrentScreen::History(HistoryOptions::HistoryGlobalBookOptions) => AppState::control_history_global_book_select_ok(o, key),
            CurrentScreen::Settings(_) => AppState::control_main_menu_ok(o, key),
            CurrentScreen::Reader => AppState::control_reader_ok(o, key),
            CurrentScreen::Typing => false,
        }
    }

    /// What the handler of the screen `o` shows makes of it (giving `f` and
    /// asking for `r`) for the key `key`. On the main menus the tabs are
    /// handled first, then the menu.
    pub open spec fn screen_done(o: AppState, f: AppState, key: Key, r: Action) -> bool {
        match o.current_screen {
            CurrentScreen::Misc(_) => AppState::control_chapter_view_done(o, f, key, r),
            CurrentScreen::Library(LibraryOptions::Default) => r is Nothing && exists|m: AppState|
                #[trigger] AppState::control_main_menu_done(o, m, key) && AppState::control_library_menu_done(m, f, key),
            CurrentScreen::Library(LibraryOptions::LocalBookSelect) => AppState::control_library_local_book_select_done(o, f, key, r),
            CurrentScreen::Library(LibraryOptions::GlobalBookSelect) => AppState::control_library_global_book_select_done(o, f, key, r),
            CurrentScreen::Library(LibraryOptions::CategorySelect) => r is Nothing && AppState::control_library_category_select_done(o, f, key),
            CurrentScreen::Library(LibraryOptions::CategoryOptions) => r is Nothing && AppState::control_library_category_options_done(o, f, key),
            CurrentScreen::Updates(_) => r is Nothing && AppState::control_main_menu_done(o, f, key),
            CurrentScreen::Sources(SourceOptions::Default) => r is Nothing && exists|m: AppState|
                #[trigger] AppState::control_main_menu_done(o, m, key) && AppState::control_sources_menu_done(m, f, key),
            CurrentScreen::Sources(SourceOptions::SourceSelect) => AppState::control_source_select_done(o, f, key, r),
            CurrentScreen::Sources(SourceOptions::SearchResults) => AppState::control_source_search_result_done(o, f, key, r),
            CurrentScreen::Sources(SourceOptions::BookView) => AppState::control_source_book_view_done(o, f, key, r),
            CurrentScreen::History(HistoryOptions::Default) => r is Nothing && exists|m: AppState|
                #[trigger] AppState::control_main_menu_done(o, m, key) && AppState::control_history_menu_done(m, f, key),
            CurrentScreen::History(HistoryOptions::HistoryLocalBookOptions) => AppState::control_history_local_book_select_done(o, f, key, r),
            CurrentScreen::History(HistoryOptions::HistoryGlobalBookOptions) => AppState::control_history_global_book_select_done(o, f, key, r),
            CurrentScreen::Settings(_) => r is Nothing && AppState::control_main_menu_done(o, f, key),
            CurrentScreen::Reader => AppState::control_reader_done(o, f, key, r),
            CurrentScreen::Typing => false,
        }
    }

    /// The app `o` once `:` opened the command bar, if the key is `:`.
    pub open spec fn after_colon(o: AppState, key: Key) -> AppState {
        if key == Key::Char(':') { AppState { command_bar: true, ..o } } else { o }
    }

    /// What a key needs of the app `o`.
    pub open spec fn can_handle_spec(o: AppState, key: Key) -> bool {
        if o.command_bar {
            AppState::handle_commands_ok(o, key)
        } else {
            let o1 = AppState::after_colon(o, key);
            let k = alias_spec(key);
            if o1.current_screen == CurrentScreen::Typing {
                AppState::handle_typing_ok(o1, key)
            } else if k == Key::Esc || k == Key::Char('q') {
                true
            } else {
                AppState::screen_ok(o1, k)
            }
        }
    }

    /// What a key makes of the app `o` (giving `f`): whether to quit, and the
    /// work asked for.
    pub open spec fn handled(o: AppState, f: AppState, key: Key, r: (bool, Action)) -> bool {
        if o.command_bar {
            AppState::handle_commands_done(o, f, key, r)
        } else {
            let o1 = AppState::after_colon(o, key);
            let k = alias_spec(key);
            if o1.current_screen == CurrentScreen::Typing {
                !r.0 && AppState::handle_typing_done(o1, f, key, r.1)
            } else if k == Key::Esc || k == Key::Char('q') {
                &&& AppState::went_back(o1, f, r.0)
                &&& if o1.current_screen == CurrentScreen::Reader { r.1 is SaveReading } else { r.1 is Nothing }
            } else {
                !r.0 && AppState::screen_done(o1, f, k, r.1)
            }
        }
    }

    /// Handles a key: in the command bar, the command line; `:` opens it; on
    /// the typing screen, the text typed; `h`, `j`, `k`, `l` stand for the
    /// arrows; Esc and `q` go back (recording the reading when leaving the
    /// reader) and quit when there is nowhere to go back to, and mean
    /// nothing else on any screen; any other key goes to the screen's handler.
    pub fn handle_controls(&mut self, key: Key) -> (r: (bool, Action))
        requires
            AppState::can_handle_spec(*old(self), key),
        ensures
            AppState::handled(*old(self), *final(self), key, r),
    {
        if self.command_bar {
            return self.handle_commands(key);
        }
        if key == Key::Char(':') {
            self.command_bar = true;
        }
        if self.current_screen == CurrentScreen::Typing {
            let a = self.handle_typing(key);
            return (false, a);
        }
        let key = alias(key);
        if key == Key::Esc || key == Key::Char('q') {
            let in_reader = self.current_screen.in_reader();
            let quit = self.go_back();
            let save = if in_reader { Action::SaveReading } else { Action::Nothing };
            return (quit, save);
        }
        let a = match self.current_screen {
            CurrentScreen::Misc(_) => self.control_chapter_view(key),
            CurrentScreen::Library(LibraryOptions::Default) => {
                self.control_main_menu(key);
                self.control_library_menu(key);
                Action::Nothing
            },
            CurrentScreen::Library(LibraryOptions::LocalBookSelect) => self.control_library_local_book_select(key),
            CurrentScreen::Library(LibraryOptions::GlobalBookSelect) => self.control_library_global_book_select(key),
            CurrentScreen::Library(LibraryOptions::CategorySelect) => {
                self.control_library_category_select(key);
                Action::Nothing
            },
            CurrentScreen::Library(LibraryOptions::CategoryOptions) => {
                self.control_library_category_options(key);
                Action::Nothing
            },
            CurrentScreen::Updates(_) => {
                self.control_main_menu(key);
                Action::Nothing
            },
            CurrentScreen::Sources(SourceOptions::Default) => {
                self.control_main_menu(key);
                self.control_sources_menu(key);
                Action::Nothing
            },
            CurrentScreen::Sources(SourceOptions::SourceSelect) => self.control_source_select(key),
            CurrentScreen::Sources(SourceOptions::SearchResults) => self.control_source_search_result(key),
            CurrentScreen::Sources(SourceOptions::BookView) => self.control_source_book_view(key),
            CurrentScreen::History(HistoryOptions::Default) => {
                self.control_main_menu(key);
                self.control_history_menu(key);
                Action::Nothing
            },
            CurrentScreen::History(HistoryOptions::HistoryLocalBookOptions) => self.control_history_local_book_select(key),
            CurrentScreen::History(HistoryOptions::HistoryGlobalBookOptions) => self.control_history_global_book_select(key),
            CurrentScreen::Settings(_) => {
                self.control_main_menu(key);
                Action::Nothing
            },
            CurrentScreen::Reader => self.control_reader(key),
            CurrentScreen::Typing => Action::Nothing,
        };
        (false, a)
    }
}


/// Whether `d` can be resumed (see `can_resume`).
fn can_resume_exec(d: &crate::state::book_info::GlobalBookData, finished: bool) -> (r: bool)
    ensures
        r == can_resume(*d, finished),
{
    if finished {
        if d.current_chapter == usize::MAX {
            return false;
        }
        if d.current_chapter + 1 <= d.total_chapters {
            d.novel.get_chapter_url(d.current_chapter + 1).is_some()
        } else {
            d.novel.get_chapter_url(d.current_chapter).is_some()
        }
    } else {
        d.novel.get_chapter_url(d.current_chapter).is_some()
    }
}

/// Whether a list's selection names one of its items.
fn selects_item<T>(l: &StatefulList<T>) -> (r: bool)
    ensures
        r == (l.state.selected matches Some(i) && i < l.items@.len()),
{
    match l.state.selected {
        Some(i) => i < l.items.len(),
        None => false,
    }
}

impl AppState {
    /// Whether the library is well formed with a category selected that it has.
    fn library_ready(&self) -> (r: bool)
        ensures
            r == (self.library_data.wf() && self.library_data.category_selected()),
    {
        self.library_data.is_wf() && self.library_data.is_category_selected()
    }

    /// Whether the library is ready (see `library_ready`) with a book selected.
    fn book_ready(&self) -> (r: bool)
        ensures
            r == (self.library_data.wf() && self.library_data.category_selected()
                && self.library_data.selected_book() is Some),
    {
        self.library_ready() && self.library_data.get_category_list().selected().is_some()
    }

    fn can_submit_exec(&self) -> (r: bool)
        ensures
            r == AppState::can_submit(*self),
    {
        if self.prev_screens.len() == 0 {
            return false;
        }
        match self.get_last_screen() {
            CurrentScreen::Library(LibraryOptions::LocalBookSelect)
            | CurrentScreen::Library(LibraryOptions::GlobalBookSelect) => self.book_ready(),
            CurrentScreen::Library(LibraryOptions::CategoryOptions) => self.library_data.is_wf(),
            CurrentScreen::Library(LibraryOptions::CategorySelect) => self.library_data.is_wf()
                && selects_item(&self.menu_options.category_list),
            CurrentScreen::Sources(SourceOptions::SourceSelect) => selects_item(&self.source_data.sources),
            _ => false,
        }
    }

    fn can_open_from_view_exec(&self) -> (r: bool)
        ensures
            r == AppState::can_open_from_view(*self),
    {
        match self.buffer.novel_preview_selection {
            NovelPreviewSelection::Options => match self.menu_options.source_book_options.state.selected {
                None => false,
                Some(k) => {
                    let first = k != 0 || match &self.buffer.novel {
                        Some(n) => n.get_chapter_url(1).is_some() && selects_item(&self.source_data.sources),
                        None => false,
                    };
                    let add = k != 1 || (self.buffer.novel.is_some() && self.library_data.is_wf()
                        && self.prev_screens.len() > 0);
                    first && add
                },
            },
            NovelPreviewSelection::Chapters => {
                if !selects_item(&self.buffer.chapter_previews) {
                    return false;
                }
                let i = self.buffer.chapter_previews.state.selected.unwrap();
                match &self.buffer.novel {
                    Some(n) => n.get_chapter_url(self.buffer.chapter_previews.items[i].chapter_no).is_some(),
                    None => false,
                }
            },
            NovelPreviewSelection::Summary => true,
        }
    }

    /// Whether the handler of the screen shown can take the key `key`.
    fn screen_ok_exec(&self, key: Key) -> (r: bool)
        ensures
            r == AppState::screen_ok(*self, key),
    {
        let main_ok = self.current_main_tab.tabs.len() == 5 && self.current_main_tab.index < 5;
        let enter = key == Key::Enter;
        match self.current_screen {
            CurrentScreen::Misc(_) => {
                let focus = self.buffer.novel_preview_selection;
                let down_ok = !(key == Key::Down && focus != NovelPreviewSelection::Chapters)
                    || self.buffer.novel_preview_scroll < usize::MAX;
                let enter_ok = if enter && focus == NovelPreviewSelection::Chapters {
                    match self.buffer.chapter_previews.state.selected {
                        Some(c) => c < usize::MAX && self.library_ready() && match self.library_data.get_category_list().selected() {
                            Some(b) => match &b.source_data {
                                BookSource::Global(d) => d.novel.get_chapter_url(c + 1).is_some(),
                                BookSource::Local(_) => false,
                            },
                            None => false,
                        },
                        None => false,
                    }
                } else {
                    true
                };
                down_ok && enter_ok
            },
            CurrentScreen::Library(LibraryOptions::Default) => main_ok && (!(key == Key::Up || key == Key::Down || enter)
                || self.library_ready()),
            CurrentScreen::Library(LibraryOptions::LocalBookSelect) => {
                if !enter {
                    return true;
                }
                match self.menu_options.local_options.state.selected {
                    Some(k) => k < 5 && self.book_ready() && (k != 4 || {
                        let id = self.library_data.get_category_list().selected().unwrap().id;
                        self.library_data.is_selected_where_held(id)
                    }),
                    None => false,
                }
            },
            CurrentScreen::Library(LibraryOptions::GlobalBookSelect) => {
                if !enter {
                    return true;
                }
                match self.menu_options.global_options.state.selected {
                    Some(k) => {
                        if !(k < 6 && self.book_ready()) {
                            return false;
                        }
                        let b = self.library_data.get_category_list().selected().unwrap();
                        let finished = matches!(b.get_progress(), BookProgress::Finished);
                        match &b.source_data {
                            BookSource::Global(d) => (k != 0 || can_resume_exec(d, finished))
                                && (k != 4 || d.novel.get_chapter_url(1).is_some())
                                && (k != 5 || self.library_data.is_selected_where_held(b.id)),
                            BookSource::Local(_) => k != 0 && k != 1 && k != 4
                                && (k != 5 || self.library_data.is_selected_where_held(b.id)),
                        }
                    },
                    None => false,
                }
            },
            CurrentScreen::Library(LibraryOptions::CategorySelect) => {
                if !enter {
                    return true;
                }
                if self.prev_screens.len() == 0 {
                    return false;
                }
                if self.get_last_screen() == CurrentScreen::Library(LibraryOptions::CategoryOptions) {
                    match self.menu_options.category_options.state.selected {
                        Some(k) => (k == 2 || k == 3) && (k != 3 || (selects_item(&self.menu_options.category_list)
                            && self.library_data.is_wf() && {
                            let i = self.menu_options.category_list.state.selected.unwrap();
                            let name = self.menu_options.category_list.items[i].as_str();
                            same_text(name, self.library_data.default_category_name.as_str())
                                || self.library_data.find_key(name).is_none()
                                || self.library_data.categories.state.selected.is_some()
                        })),
                        None => false,
                    }
                } else {
                    self.book_ready() && selects_item(&self.menu_options.category_list) && {
                        let id = self.library_data.get_category_list().selected().unwrap().id;
                        self.library_data.is_selected_where_held(id)
                    }
                }
            },
            CurrentScreen::Library(LibraryOptions::CategoryOptions) => !enter || match self.menu_options.category_options.state.selected {
                Some(k) => k < 4,
                None => false,
            },
            CurrentScreen::Updates(_) | CurrentScreen::Settings(_) | CurrentScreen::Sources(SourceOptions::Default) => main_ok,
            CurrentScreen::Sources(SourceOptions::SourceSelect) => !enter || match self.menu_options.source_options.state.selected {
                Some(k) => k != 1 || selects_item(&self.source_data.sources),
                None => false,
            },
            CurrentScreen::Sources(SourceOptions::SearchResults) => !enter
                || (selects_item(&self.buffer.novel_previews) && selects_item(&self.source_data.sources)),
            CurrentScreen::Sources(SourceOptions::BookView) => {
                let down_ok = !(key == Key::Down && self.buffer.novel_preview_selection == NovelPreviewSelection::Summary)
                    || self.buffer.novel_preview_scroll < usize::MAX;
                down_ok && (!enter || self.can_open_from_view_exec())
            },
            CurrentScreen::History(HistoryOptions::Default) => {
                let sel = self.history_data.selected.selected;
                main_ok && (!enter || match sel {
                    Some(i) => i < self.history_data.history.len(),
                    None => true,
                }) && (key != Key::Down || sel != Some(usize::MAX))
            },
            CurrentScreen::History(HistoryOptions::HistoryLocalBookOptions) => {
                if !enter {
                    return true;
                }
                match self.menu_options.local_history_options.state.selected {
                    Some(k) => (k != 0 && k != 1) || match self.history_data.selected.selected {
                        Some(i) => i < self.history_data.history.len(),
                        None => true,
                    },
                    None => false,
                }
            },
            CurrentScreen::History(HistoryOptions::HistoryGlobalBookOptions) => {
                if !enter {
                    return true;
                }
                match self.menu_options.global_history_options.state.selected {
                    Some(k) => match self.history_data.selected.selected {
                        None => true,
                        Some(i) => {
                            let len = self.history_data.history.len();
                            if i >= len {
                                return false;
                            }
                            let book = &self.history_data.history[i].book;
                            let finished = matches!(book.get_progress(), BookProgress::Finished);
                            let by_source = match book.get_source_data() {
                                BookSource::Global(d) => k != 0 || can_resume_exec(d, finished),
                                BookSource::Local(_) => k != 0 && k != 1,
                            };
                            by_source && (k != 2 || i > 0 || len == 1)
                        },
                    },
                    None => false,
                }
            },
            CurrentScreen::Reader => {
                if !(key == Key::Up || key == Key::Down || key == Key::Right || key == Key::Left) {
                    return true;
                }
                match &self.reader_data {
                    None => false,
                    Some(rd) => match rd.book_info.get_source_data() {
                        BookSource::Local(_) => true,
                        BookSource::Global(d) => {
                            if key == Key::Right {
                                d.current_chapter < usize::MAX && (!(d.current_chapter + 1 <= d.total_chapters)
                                    || d.novel.get_chapter_url(d.current_chapter + 1).is_some())
                            } else if key == Key::Left {
                                !(d.current_chapter > 1) || d.novel.get_chapter_url(d.current_chapter - 1).is_some()
                            } else {
                                true
                            }
                        },
                    },
                }
            },
            CurrentScreen::Typing => false,
        }
    }

    /// Whether the app can take the key `key`: what `handle_controls` needs.
    pub fn can_handle(&self, key: Key) -> (r: bool)
        ensures
            r == AppState::can_handle_spec(*self, key),
    {
        if self.command_bar {
            if key == Key::Enter && self.current_screen == CurrentScreen::Library(LibraryOptions::Default) {
                let lower = to_lowercase(self.buffer.text.as_str());
                if same_text(lower.as_str(), "update") {
                    return self.library_ready();
                }
            }
            return true;
        }
        if self.current_screen == CurrentScreen::Typing {
            return (key != Key::Esc || self.prev_screens.len() > 0) && (key != Key::Enter || self.can_submit_exec());
        }
        let k = alias(key);
        if k == Key::Esc || k == Key::Char('q') {
            return true;
        }
        self.screen_ok_exec(k)
    }
}

} // verus!
