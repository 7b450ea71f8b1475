//! File paths and file digests.

use vstd::prelude::*;
use vstd::string::StringSliceAdditionalSpecFns;

verus! {

/// The file stem `std::path::Path::file_stem` finds in a path: the last
/// component without its extension, if the path has a file name.
pub uninterp spec fn path_stem(path: Seq<char>) -> Option<Seq<char>>;

/// The extension `std::path::Path::extension` finds in a path.
pub uninterp spec fn path_extension(path: Seq<char>) -> Option<Seq<char>>;

/// The SHA-256 digest of `bytes` as 64 lowercase hexadecimal digits.
pub uninterp spec fn sha256_hex(bytes: Seq<u8>) -> Seq<char>;

/// `Path::file_stem` of `path`, as a `String` (the path is valid Unicode, so
/// is its stem).
#[verifier::external_body]
pub(crate) fn file_stem(path: &str) -> (r: Option<String>)
    ensures
        match r {
            Some(s) => path_stem(path@) == Some(s@),
            None => path_stem(path@) is None,
        },
{
    std::path::Path::new(path).file_stem().map(|s| s.to_string_lossy().into_owned())
}

/// `Path::extension` of `path`, as a `String`.
#[verifier::external_body]
pub(crate) fn file_extension(path: &str) -> (r: Option<String>)
    ensures
        match r {
            Some(s) => path_extension(path@) == Some(s@),
            None => path_extension(path@) is None,
        },
{
    std::path::Path::new(path).extension().map(|s| s.to_string_lossy().into_owned())
}

/// `sha256::digest` of a byte vector: the SHA-256 digest in lowercase
/// hexadecimal, which is 64 characters long.
#[verifier::external_body]
pub(crate) fn digest_bytes(bytes: &Vec<u8>) -> (r: String)
    ensures
        r@ == sha256_hex(bytes@),
        r@.len() == 64,
{
    sha256::digest(bytes)
}

/// `sha256::digest` of a string: the digest of its UTF-8 bytes.
#[verifier::external_body]
pub(crate) fn digest_str(s: &str) -> (r: String)
    ensures
        r@ == sha256_hex(s.spec_bytes()),
        r@.len() == 64,
{
    sha256::digest(s)
}

} // verus!
