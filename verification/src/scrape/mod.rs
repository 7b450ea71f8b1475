//! The rules by which pages of novel sites are read: which elements hold a
//! novel's name, link, details and chapters, and how their text is cleaned.

pub mod html;
pub mod query;
pub mod dates;
pub mod madara;
pub mod freewebnovel;
