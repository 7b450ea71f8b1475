pub mod chapter;
pub mod novel;
pub mod source;
