//! Books read from files on the user's machine.

use vstd::prelude::*;

use crate::paths::{digest_str, file_extension, file_stem, path_extension, path_stem, sha256_hex};
use crate::reader::portion::{line_count, BookProgress, BookProgressData};
use crate::scrape::madara::same_text;
use vstd::string::StringSliceAdditionalSpecFns;

verus! {

/// The kind of a local file.
#[derive(Clone, Copy, Debug, PartialEq, Eq, Structural)]
pub enum BookType {
    Unknown,
    Txt,
}

/// The kind of file an extension names: only `txt` is known.
pub open spec fn book_type_of(ext: Option<Seq<char>>) -> BookType {
    match ext {
        Some(e) => if e == "txt"@ { BookType::Txt } else { BookType::Unknown },
        None => BookType::Unknown,
    }
}

/// A local book: its name (the file's stem), path, the digest of its path,
/// progress and kind.
#[derive(Debug)]
pub struct LocalBookData {
    pub name: String,
    pub path_to_book: String,
    pub hash: String,
    pub progress: BookProgressData,
    pub format: BookType,
}

impl Clone for LocalBookData {
    fn clone(&self) -> (r: Self)
        ensures
            r == *self,
    {
        LocalBookData {
            name: self.name.clone(),
            path_to_book: self.path_to_book.clone(),
            hash: self.hash.clone(),
            progress: self.progress,
            format: self.format,
        }
    }
}

/// The digest that identifies a local book: the SHA-256 of its path.
pub fn hash_file(file: &str) -> (r: String)
    ensures
        r@ == sha256_hex(file.spec_bytes()),
{
    digest_str(file)
}

impl LocalBookData {
    /// The data of the local book at path `file` whose contents are
    /// `contents`: at its start, with as many lines as the contents have.
    pub fn create(file: &str, contents: &str) -> (r: Self)
        requires
            path_stem(file@) is Some,
        ensures
            Some(r.name@) == path_stem(file@),
            r.path_to_book@ == file@,
            r.hash@ == sha256_hex(file.spec_bytes()),
            r.format == book_type_of(path_extension(file@)),
            r.progress.total_lines == line_count(contents@),
            r.progress.progress == BookProgress::Location((0, 0)),
    {
        let hash = hash_file(file);
        let name = match file_stem(file) {
            Some(n) => n,
            None => {
                proof {
                    assert(false);
                }
                String::new()
            },
        };
        let format = match file_extension(file) {
            Some(ext) => if same_text(ext.as_str(), "txt") {
                BookType::Txt
            } else {
                BookType::Unknown
            },
            None => BookType::Unknown,
        };
        let progress = BookProgressData::from_file(contents);
        Self { name, path_to_book: String::from_str(file), hash, format, progress }
    }

    /// `create`, or `None` when the path names no file.
    pub fn create_checked(file: &str, contents: &str) -> (r: Option<Self>)
        ensures
            r is Some <==> path_stem(file@) is Some,
            r matches Some(d) ==> Some(d.name@) == path_stem(file@) && d.path_to_book@ == file@
                && d.hash@ == sha256_hex(file.spec_bytes()) && d.format == book_type_of(path_extension(file@))
                && d.progress.total_lines == line_count(contents@)
                && d.progress.progress == BookProgress::Location((0, 0)),
    {
        match file_stem(file) {
            Some(_) => Some(Self::create(file, contents)),
            None => None,
        }
    }

    /// The line reached, counted from 1, and the number of lines.
    pub fn get_progress_lines(&self) -> (r: (usize, usize))
        requires
            self.progress.progress is Finished ==> self.progress.total_lines > 0,
            self.progress.progress matches BookProgress::Location((l, _)) ==> l < usize::MAX,
        ensures
            r.0 == self.progress.get_line_spec() + 1,
            r.1 == self.progress.total_lines,
    {
        (self.progress.get_line() + 1, self.progress.get_total_lines())
    }
}

} // verus!
