use vstd::prelude::*;

use super::chapter::ChapterPreview;
use super::source::SourceID;

verus! {

/// Whether a novel is still being written.
#[derive(Debug, Clone, Copy, PartialEq, Eq, Structural)]
pub enum NovelStatus {
    Unknown,
    Ongoing,
    Completed,
}

/// The word a synopsis shows for a status.
pub open spec fn status_word(s: NovelStatus) -> Seq<char> {
    match s {
        NovelStatus::Ongoing => "Ongoing"@,
        NovelStatus::Completed => "Completed"@,
        NovelStatus::Unknown => "Unknown"@,
    }
}

fn status_str(s: NovelStatus) -> (r: &'static str)
    ensures
        r@ == status_word(s),
{
    match s {
        NovelStatus::Ongoing => "Ongoing",
        NovelStatus::Completed => "Completed",
        NovelStatus::Unknown => "Unknown",
    }
}

/// The synopsis text: author, status, genres, a blank line, then the summary.
pub open spec fn synopsis_spec(
    author: Seq<char>,
    status: NovelStatus,
    genres: Seq<char>,
    summary: Seq<char>,
) -> Seq<char> {
    "Author: "@ + author + "\nStatus: "@ + status_word(status) + "\nGenres: "@ + genres + "\n\n"@
        + summary
}

/// Builds the synopsis text of a novel.
pub fn build_synopsis(author: &str, status: NovelStatus, genres: &str, summary: &str) -> (r: String)
    ensures
        r@ == synopsis_spec(author@, status, genres@, summary@),
{
    let mut s = String::from_str("Author: ");
    s.append(author);
    s.append("\nStatus: ");
    s.append(status_str(status));
    s.append("\nGenres: ");
    s.append(genres);
    s.append("\n\n");
    s.append(summary);
    s
}

/// The URL of the first chapter in `chapters` with number `chapter`.
pub open spec fn chapter_url_spec(chapters: Seq<ChapterPreview>, chapter: usize) -> Option<Seq<char>>
    decreases chapters.len(),
{
    if chapters.len() == 0 {
        None
    } else if chapters[0].chapter_no == chapter {
        Some(chapters[0].url@)
    } else {
        chapter_url_spec(chapters.drop_first(), chapter)
    }
}

proof fn lemma_chapter_url_prefix(chapters: Seq<ChapterPreview>, chapter: usize, i: int)
    requires
        0 <= i <= chapters.len(),
        forall|j: int| 0 <= j < i ==> (#[trigger] chapters[j]).chapter_no != chapter,
    ensures
        chapter_url_spec(chapters, chapter) == chapter_url_spec(chapters.skip(i), chapter),
    decreases i,
{
    if i == 0 {
        assert(chapters.skip(0) =~= chapters);
    } else {
        assert(chapters[0].chapter_no != chapter);
        assert(chapters.drop_first().skip(i - 1) =~= chapters.skip(i));
        assert forall|j: int| 0 <= j < i - 1 implies (#[trigger] chapters.drop_first()[j]).chapter_no != chapter by {
            assert(chapters.drop_first()[j] == chapters[j + 1]);
        }
        lemma_chapter_url_prefix(chapters.drop_first(), chapter, i - 1);
    }
}

/// Looks up a chapter's URL by its number in a chapter list.
pub fn find_chapter_url(chapters: &Vec<ChapterPreview>, chapter: usize) -> (r: Option<String>)
    ensures
        match r {
            Some(u) => chapter_url_spec(chapters@, chapter) == Some(u@),
            None => chapter_url_spec(chapters@, chapter) is None,
        },
{
    let mut i: usize = 0;
    while i < chapters.len()
        invariant
            i <= chapters@.len(),
            forall|j: int| 0 <= j < i ==> (#[trigger] chapters@[j]).chapter_no != chapter,
        decreases chapters@.len() - i,
    {
        if chapters[i].chapter_no == chapter {
            proof {
                lemma_chapter_url_prefix(chapters@, chapter, i as int);
            }
            return Some(chapters[i].url.clone());
        }
        i = i + 1;
    }
    proof {
        lemma_chapter_url_prefix(chapters@, chapter, chapters@.len() as int);
    }
    None
}

/// A novel as a search or a popular list shows it.
#[derive(Debug, Clone, PartialEq, Eq)]
pub struct NovelPreview {
    pub source: SourceID,
    pub name: String,
    pub url: String,
}

impl Default for NovelPreview {
    /// Source 0, with an empty name and address.
    fn default() -> (r: Self)
        ensures
            r.source == SourceID(0),
            r.name@ == Seq::<char>::empty(),
            r.url@ == Seq::<char>::empty(),
    {
        NovelPreview { source: SourceID(0), name: String::new(), url: String::new() }
    }
}

impl NovelPreview {
    pub fn new(source: SourceID, name: String, url: String) -> (r: Self)
        ensures
            r.source == source,
            r.name == name,
            r.url == url,
    {
        Self { source, name, url }
    }

    pub fn get_name(&self) -> (r: &str)
        ensures
            r@ == self.name@,
    {
        self.name.as_str()
    }

    pub fn get_url(&self) -> (r: &str)
        ensures
            r@ == self.url@,
    {
        self.url.as_str()
    }
}

/// A novel with its details and its list of chapters.
#[derive(Debug, PartialEq, Eq)]
pub struct Novel {
    pub source: SourceID,
    pub source_name: String,
    pub full_url: String,
    pub novel_url: String,
    pub name: String,
    pub author: String,
    pub status: NovelStatus,
    pub genres: String,
    pub summary: String,
    pub chapters: Vec<ChapterPreview>,
    /// The name the user gave the novel, if any.
    pub alias: Option<String>,
}

impl Novel {
    /// Two novels hold the same values, field by field, the chapter lists by their contents.
    pub open spec fn same(self, other: Novel) -> bool {
        &&& self.source == other.source
        &&& self.source_name == other.source_name
        &&& self.full_url == other.full_url
        &&& self.novel_url == other.novel_url
        &&& self.name == other.name
        &&& self.author == other.author
        &&& self.status == other.status
        &&& self.genres == other.genres
        &&& self.summary == other.summary
        &&& self.chapters@ == other.chapters@
        &&& self.alias == other.alias
    }
}

impl Clone for Novel {
    fn clone(&self) -> (r: Self)
        ensures
            r.same(*self),
    {
        let r = Novel {
            source: self.source,
            source_name: self.source_name.clone(),
            full_url: self.full_url.clone(),
            novel_url: self.novel_url.clone(),
            name: self.name.clone(),
            author: self.author.clone(),
            status: self.status,
            genres: self.genres.clone(),
            summary: self.summary.clone(),
            chapters: self.chapters.clone(),
            alias: self.alias.clone(),
        };
        proof {
            assert forall|i: int| 0 <= i < r.chapters@.len() implies r.chapters@[i] == self.chapters@[i] by {
                assert(cloned(self.chapters@[i], r.chapters@[i]));
            }
            assert(r.chapters@ =~= self.chapters@);
        }
        r
    }
}

impl Default for NovelStatus {
    fn default() -> (r: Self)
        ensures
            r == NovelStatus::Unknown,
    {
        NovelStatus::Unknown
    }
}

impl Default for Novel {
    /// A novel with nothing known of it: source 0, empty texts, an unknown
    /// status, no chapters and no alias.
    fn default() -> (r: Self)
        ensures
            r.source == SourceID(0),
            r.source_name@ == Seq::<char>::empty(),
            r.full_url@ == Seq::<char>::empty(),
            r.novel_url@ == Seq::<char>::empty(),
            r.name@ == Seq::<char>::empty(),
            r.author@ == Seq::<char>::empty(),
            r.status == NovelStatus::Unknown,
            r.genres@ == Seq::<char>::empty(),
            r.summary@ == Seq::<char>::empty(),
            r.chapters@ == Seq::<ChapterPreview>::empty(),
            r.alias is None,
    {
        Novel {
            source: SourceID(0),
            source_name: String::new(),
            full_url: String::new(),
            novel_url: String::new(),
            name: String::new(),
            author: String::new(),
            status: NovelStatus::Unknown,
            genres: String::new(),
            summary: String::new(),
            chapters: Vec::new(),
            alias: None,
        }
    }
}

impl Novel {
    pub fn get_source(&self) -> (r: SourceID)
        ensures
            r == self.source,
    {
        self.source
    }

    pub fn get_name(&self) -> (r: &str)
        ensures
            r@ == self.name@,
    {
        self.name.as_str()
    }

    /// Author, status, genres and summary in one text.
    pub fn get_synopsis(&self) -> (r: String)
        ensures
            r@ == synopsis_spec(self.author@, self.status, self.genres@, self.summary@),
    {
        build_synopsis(self.author.as_str(), self.status, self.genres.as_str(), self.summary.as_str())
    }

    /// Author, status, genres and summary in one text (as `get_synopsis`).
    pub fn synopsis(&self) -> (r: String)
        ensures
            r@ == synopsis_spec(self.author@, self.status, self.genres@, self.summary@),
    {
        self.get_synopsis()
    }

    pub fn get_chapters(&self) -> (r: &Vec<ChapterPreview>)
        ensures
            r@ == self.chapters@,
    {
        &self.chapters
    }

    /// The number of chapters the novel lists.
    pub fn get_length(&self) -> (r: usize)
        ensures
            r == self.chapters@.len(),
    {
        self.chapters.len()
    }

    /// The URL of the chapter with the given number, if the novel lists it.
    pub fn get_chapter_url(&self, chapter: usize) -> (r: Option<String>)
        ensures
            match r {
                Some(u) => chapter_url_spec(self.chapters@, chapter) == Some(u@),
                None => chapter_url_spec(self.chapters@, chapter) is None,
            },
    {
        find_chapter_url(&self.chapters, chapter)
    }

    /// The novel's own part of its URL.
    pub fn get_url(&self) -> (r: &str)
        ensures
            r@ == self.novel_url@,
    {
        self.novel_url.as_str()
    }

    /// The novel's URL including the site.
    pub fn get_full_url(&self) -> (r: &str)
        ensures
            r@ == self.full_url@,
    {
        self.full_url.as_str()
    }

    /// Gives the novel the name the user chose.
    pub fn set_alias(&mut self, alias: String)
        ensures
            final(self).alias == Some(alias),
            final(self).source == old(self).source,
            final(self).name == old(self).name,
            final(self).novel_url == old(self).novel_url,
            final(self).full_url == old(self).full_url,
            final(self).chapters == old(self).chapters,
    {
        self.alias = Some(alias);
    }
}

} // verus!
