//! What the reader app keeps of a book while it shows it: where it comes
//! from, how far it was read, and which screen is open.

pub mod screen;
pub mod book_info;
pub mod local;
pub mod library;
pub mod tabs;
pub mod lists;
pub mod library_data;
pub mod history;
pub mod menu;
pub mod source_data;
pub mod app;
pub mod controls;
pub mod same;
pub mod commands;
