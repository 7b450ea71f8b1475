//! The screens of the app.

use vstd::prelude::*;

verus! {

/// The screen the app shows.
#[derive(Clone, Copy, Debug, PartialEq, Eq, Structural)]
pub enum CurrentScreen {
    Misc(MiscOptions),
    Library(LibraryOptions),
    Updates(UpdateOptions),
    Sources(SourceOptions),
    History(HistoryOptions),
    Settings(SettingsOptions),
    Reader,
    Typing,
}

impl CurrentScreen {
    pub fn in_reader(&self) -> (r: bool)
        ensures
            r == (*self is Reader),
    {
        matches!(self, CurrentScreen::Reader)
    }

    /// The screen is one of the five main menus (the default view of the
    /// library, sources, updates, history or settings).
    pub open spec fn is_main_menu(self) -> bool {
        self == CurrentScreen::Library(LibraryOptions::Default)
            || self == CurrentScreen::Sources(SourceOptions::Default)
            || self == CurrentScreen::Updates(UpdateOptions::Default)
            || self == CurrentScreen::History(HistoryOptions::Default)
            || self == CurrentScreen::Settings(SettingsOptions::Default)
    }

    /// One of the five main menus is open.
    pub fn on_main_menu(&self) -> (r: bool)
        ensures
            r == self.is_main_menu(),
    {
        match self {
            CurrentScreen::Library(LibraryOptions::Default)
            | CurrentScreen::Sources(SourceOptions::Default)
            | CurrentScreen::Updates(UpdateOptions::Default)
            | CurrentScreen::History(HistoryOptions::Default)
            | CurrentScreen::Settings(SettingsOptions::Default) => true,
            _ => false,
        }
    }

    pub fn on_library_menu(&self) -> (r: bool)
        ensures
            r == (*self == CurrentScreen::Library(LibraryOptions::Default)),
    {
        matches!(self, CurrentScreen::Library(LibraryOptions::Default))
    }
}

#[derive(Clone, Copy, Debug, PartialEq, Eq, Structural)]
pub enum MiscOptions {
    ChapterView,
}

#[derive(Clone, Copy, Debug, PartialEq, Eq, Structural)]
pub enum LibraryOptions {
    Default,
    LocalBookSelect,
    GlobalBookSelect,
    CategorySelect,
    CategoryOptions,
}

#[derive(Clone, Copy, Debug, PartialEq, Eq, Structural)]
pub enum UpdateOptions {
    Default,
}

#[derive(Clone, Copy, Debug, PartialEq, Eq, Structural)]
pub enum SourceOptions {
    Default,
    SourceSelect,
    SearchResults,
    BookView,
}

#[derive(Clone, Copy, Debug, PartialEq, Eq, Structural)]
pub enum HistoryOptions {
    Default,
    HistoryLocalBookOptions,
    HistoryGlobalBookOptions,
}

#[derive(Clone, Copy, Debug, PartialEq, Eq, Structural)]
pub enum SettingsOptions {
    Default,
}

/// The library screens of the earlier menu layout.
#[derive(Clone, Copy, Debug, PartialEq, Eq, Structural)]
pub enum LibraryScreen {
    Default,
    BookSelect,
    CategorySelect,
    CategoryOptions,
}

/// The history screens of the earlier menu layout.
#[derive(Clone, Copy, Debug, PartialEq, Eq, Structural)]
pub enum HistoryScreen {
    Default,
    HistoryBookOptions,
}

/// Which part of a novel's preview has the focus, in the earlier menu layout.
#[derive(Clone, Copy, Debug, PartialEq, Eq, Structural)]
pub enum NovelPreviewSelection {
    Summary,
    Chapters,
    Options,
}

/// Which box of a source's book page has the focus.
#[derive(Clone, Copy, Debug, PartialEq, Eq, Structural)]
pub enum SourceBookBox {
    Options,
    Chapters,
}

/// The screen the app shows, in the earlier menu layout.
#[derive(Clone, Copy, Debug, PartialEq, Eq, Structural)]
pub enum Screen {
    Misc(MiscOptions),
    Library(LibraryScreen),
    Updates(UpdateOptions),
    Sources(SourceOptions),
    History(HistoryScreen),
    Settings(SettingsOptions),
    Reader,
    Typing,
}

impl Screen {
    pub fn in_reader(&self) -> (r: bool)
        ensures
            r == (*self is Reader),
    {
        matches!(self, Screen::Reader)
    }

    /// One of the five main menus is open.
    pub fn on_main_menu(&self) -> (r: bool)
        ensures
            r == (*self == Screen::Library(LibraryScreen::Default)
                || *self == Screen::Sources(SourceOptions::Default)
                || *self == Screen::Updates(UpdateOptions::Default)
                || *self == Screen::History(HistoryScreen::Default)
                || *self == Screen::Settings(SettingsOptions::Default)),
    {
        match self {
            Screen::Library(LibraryScreen::Default)
            | Screen::Sources(SourceOptions::Default)
            | Screen::Updates(UpdateOptions::Default)
            | Screen::History(HistoryScreen::Default)
            | Screen::Settings(SettingsOptions::Default) => true,
            _ => false,
        }
    }

    pub fn on_library_menu(&self) -> (r: bool)
        ensures
            r == (*self == Screen::Library(LibraryScreen::Default)),
    {
        matches!(self, Screen::Library(LibraryScreen::Default))
    }
}

} // verus!
