//! A terminal novel reader's library: book records, the user's library and
//! history, source descriptions, page scraping rules and the line-wrapping
//! reader that lays a text out on a terminal.

pub mod text;
pub mod sources;
pub mod clock;
pub mod catalog;
pub mod seqs;
pub mod paths;
pub mod strs;
pub mod scrape;
pub mod state;
pub mod laws;
pub mod reader;
