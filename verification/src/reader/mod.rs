pub mod local_buffer;
pub mod wrap;
pub mod portion;
pub mod book_text;
pub mod reader_data;
