pub mod id;
pub mod book;
pub mod books_context;
pub mod library;
pub mod history;
pub mod updates;
pub mod context;
