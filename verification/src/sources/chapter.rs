use vstd::prelude::*;

use super::source::SourceID;

verus! {

/// What a novel's chapter list says of one chapter.
#[derive(Debug, PartialEq, Eq)]
pub struct ChapterPreview {
    pub chapter_no: usize,
    pub release_date: String,
    pub name: String,
    pub url: String,
}

impl Clone for ChapterPreview {
    fn clone(&self) -> (r: Self)
        ensures
            r == *self,
    {
        ChapterPreview {
            chapter_no: self.chapter_no,
            release_date: self.release_date.clone(),
            name: self.name.clone(),
            url: self.url.clone(),
        }
    }
}

impl Default for ChapterPreview {
    /// Chapter 0, with empty texts.
    fn default() -> (r: Self)
        ensures
            r.chapter_no == 0,
            r.release_date@ == Seq::<char>::empty(),
            r.name@ == Seq::<char>::empty(),
            r.url@ == Seq::<char>::empty(),
    {
        ChapterPreview { chapter_no: 0, release_date: String::new(), name: String::new(), url: String::new() }
    }
}

impl ChapterPreview {
    /// The chapter's title.
    pub fn get_name(&self) -> (r: &str)
        ensures
            r@ == self.name@,
    {
        self.name.as_str()
    }

    /// The chapter's number, counted from 1.
    pub fn get_chapter_no(&self) -> (r: usize)
        ensures
            r == self.chapter_no,
    {
        self.chapter_no
    }
}

/// The text of one chapter as a source serves it.
#[derive(Debug, Clone, PartialEq, Eq)]
pub struct Chapter {
    pub source: SourceID,
    pub novel_url: String,
    pub chapter_url: String,
    pub chapter_name: String,
    pub chapter_contents: String,
}

impl Chapter {
    /// The chapter's title.
    pub fn get_name(&self) -> (r: &str)
        ensures
            r@ == self.chapter_name@,
    {
        self.chapter_name.as_str()
    }

    /// The chapter's text.
    pub fn get_contents(&self) -> (r: &str)
        ensures
            r@ == self.chapter_contents@,
    {
        self.chapter_contents.as_str()
    }
}

} // verus!
