use vstd::prelude::*;

verus! {

/// The number by which a source is known.
#[derive(Debug, Clone, Copy, PartialEq, Eq, Structural, Hash)]
pub struct SourceID(pub usize);

impl SourceID {
    pub fn new(id: usize) -> (r: Self)
        ensures
            r.0 == id,
    {
        Self(id)
    }
}

impl From<usize> for SourceID {
    fn from(value: usize) -> (r: Self) {
        SourceID(value)
    }
}

impl vstd::std_specs::convert::FromSpecImpl<usize> for SourceID {
    open spec fn obeys_from_spec() -> bool {
        true
    }

    open spec fn from_spec(v: usize) -> SourceID {
        SourceID(v)
    }
}

/// The order in which a source lists its popular novels.
#[derive(Debug, Clone, Copy, PartialEq, Eq, Structural)]
pub enum SortOrder {
    Latest,
    Rating,
}

/// The path segments under which a Madara site serves its novel list, its
/// novels and its chapters.
#[derive(Debug, Clone, PartialEq, Eq)]
pub struct MadaraPaths {
    pub novels: String,
    pub novel: String,
    pub chapter: String,
}

impl MadaraPaths {
    pub fn new(novels: &str, novel: &str, chapter: &str) -> (r: Self)
        ensures
            r.novels@ == novels@,
            r.novel@ == novel@,
            r.chapter@ == chapter@,
    {
        Self {
            novels: String::from_str(novels),
            novel: String::from_str(novel),
            chapter: String::from_str(chapter),
        }
    }

    /// The paths a Madara site uses when it names none of its own: all three are `novel`.
    pub fn default() -> (r: Self)
        ensures
            r.novels@ == "novel"@,
            r.novel@ == "novel"@,
            r.chapter@ == "novel"@,
    {
        Self::new("novel", "novel", "novel")
    }
}

/// A site built on the Madara WordPress theme.
#[derive(Debug, Clone, PartialEq, Eq)]
pub struct MadaraScraper {
    pub source_id: SourceID,
    pub base_url: String,
    pub source_name: String,
    pub path: Option<MadaraPaths>,
    pub new_chap_endpoint: bool,
}

impl MadaraScraper {
    pub fn new(
        source_id: SourceID,
        base_url: String,
        source_name: String,
        path: Option<MadaraPaths>,
        new_chap_endpoint: bool,
    ) -> (r: Self)
        ensures
            r.source_id == source_id,
            r.base_url == base_url,
            r.source_name == source_name,
            r.path == path,
            r.new_chap_endpoint == new_chap_endpoint,
    {
        Self { source_id, base_url, source_name, path, new_chap_endpoint }
    }
}

/// The freewebnovel.com site.
#[derive(Debug, Clone, Copy, PartialEq, Eq, Structural)]
pub struct FreeWebNovelScraper {
    pub source_id: SourceID,
}

impl FreeWebNovelScraper {
    pub fn new(source_id: SourceID) -> (r: Self)
        ensures
            r.source_id == source_id,
    {
        Self { source_id }
    }
}

/// A site from which novels are read.
#[derive(Debug, Clone, PartialEq, Eq)]
pub enum Source {
    Madara(MadaraScraper),
    FreeWebNovel(FreeWebNovelScraper),
}

impl Source {
    pub open spec fn name_spec(self) -> Seq<char> {
        match self {
            Source::Madara(s) => s.source_name@,
            Source::FreeWebNovel(_) => "FreeWebNovel"@,
        }
    }

    pub open spec fn id_spec(self) -> SourceID {
        match self {
            Source::Madara(s) => s.source_id,
            Source::FreeWebNovel(s) => s.source_id,
        }
    }

    /// The source's display name.
    pub fn get_name(&self) -> (r: String)
        ensures
            r@ == self.name_spec(),
    {
        match self {
            Source::Madara(s) => s.source_name.clone(),
            Source::FreeWebNovel(_) => String::from_str("FreeWebNovel"),
        }
    }

    pub fn get_id(&self) -> (r: SourceID)
        ensures
            r == self.id_spec(),
    {
        match self {
            Source::Madara(s) => s.source_id,
            Source::FreeWebNovel(s) => s.source_id,
        }
    }
}

/// The sources the reader knows of.
#[derive(Debug, Clone)]
pub struct Sources {
    pub sources: Vec<Source>,
}

impl Sources {
    pub fn build() -> (r: Self)
        ensures
            shipped_sources(r.sources@),
    {
        Self { sources: get_sources() }
    }

    /// The first source with the given ID, if there is one.
    pub fn get_source_by_id(&self, id: SourceID) -> (r: Option<&Source>)
        ensures
            match r {
                Some(s) => exists|i: int|
                    0 <= i < self.sources@.len() && self.sources@[i] == *s
                        && s.id_spec() == id
                        && forall|j: int| 0 <= j < i ==> (#[trigger] self.sources@[j]).id_spec() != id,
                None => forall|j: int|
                    0 <= j < self.sources@.len() ==> (#[trigger] self.sources@[j]).id_spec() != id,
            },
    {
        let mut i: usize = 0;
        while i < self.sources.len()
            invariant
                i <= self.sources@.len(),
                forall|j: int| 0 <= j < i ==> (#[trigger] self.sources@[j]).id_spec() != id,
            decreases self.sources@.len() - i,
        {
            if self.sources[i].get_id() == id {
                return Some(&self.sources[i]);
            }
            i = i + 1;
        }
        None
    }

    /// Each source's ID and name, in order.
    pub fn get_source_info(&self) -> (r: Vec<(SourceID, String)>)
        ensures
            r@.len() == self.sources@.len(),
            forall|i: int|
                0 <= i < r@.len() ==> (#[trigger] r@[i]).0 == self.sources@[i].id_spec()
                    && r@[i].1@ == self.sources@[i].name_spec(),
    {
        let mut v: Vec<(SourceID, String)> = Vec::new();
        let mut i: usize = 0;
        while i < self.sources.len()
            invariant
                i <= self.sources@.len(),
                v@.len() == i,
                forall|k: int|
                    0 <= k < i ==> (#[trigger] v@[k]).0 == self.sources@[k].id_spec()
                        && v@[k].1@ == self.sources@[k].name_spec(),
            decreases self.sources@.len() - i,
        {
            let s = &self.sources[i];
            v.push((s.get_id(), s.get_name()));
            i = i + 1;
        }
        v
    }
}

/// A Madara source as `get_sources` lists it.
pub open spec fn madara_spec(
    id: usize,
    url: Seq<char>,
    name: Seq<char>,
    paths: Option<(Seq<char>, Seq<char>, Seq<char>)>,
    new_endpoint: bool,
) -> spec_fn(Source) -> bool {
    |s: Source|
        match s {
            Source::Madara(m) => m.source_id == SourceID(id) && m.base_url@ == url && m.source_name@
                == name && m.new_chap_endpoint == new_endpoint && match (m.path, paths) {
                (None, None) => true,
                (Some(p), Some(q)) => p.novels@ == q.0 && p.novel@ == q.1 && p.chapter@ == q.2,
                _ => false,
            },
            _ => false,
        }
}

/// The sources the reader ships with, in the order in which they are listed.
pub open spec fn shipped_sources(s: Seq<Source>) -> bool {
    &&& s.len() == 11
    &&& madara_spec(1, "https://boxnovel.com/"@, "BoxNovel"@, None, true)(s[0])
    &&& madara_spec(2, "https://zinnovel.com/"@, "ZinnNovel"@,
        Some(("manga"@, "manga"@, "manga"@)), true)(s[1])
    &&& madara_spec(3, "https://noveltranslate.com/"@, "NovelTranslate"@,
        Some(("all-novels"@, "novel"@, "novel"@)), true)(s[2])
    &&& madara_spec(4, "https://sleepytranslations.com/"@, "SleepyTranslations"@,
        Some(("series"@, "series"@, "series"@)), true)(s[3])
    &&& madara_spec(5, "https://freenovel.me/"@, "FreeNovelMe"@, None, false)(s[4])
    &&& madara_spec(6, "https://1stkissnovel.org/"@, "FirstKissNovel"@, None, true)(s[5])
    &&& madara_spec(7, "https://mostnovel.com/"@, "MostNovel"@,
        Some(("manga"@, "manga"@, "manga"@)), true)(s[6])
    &&& madara_spec(8, "https://www.novelmultiverse.com/"@, "NovelMultiverse"@, None, true)(s[7])
    &&& madara_spec(9, "https://wuxiaworld.site/"@, "WuxiaWorldSite"@, None, true)(s[8])
    &&& madara_spec(10, "https://novelr18.com/"@, "NovelR18"@,
        Some(("novel"@, "manga"@, "manga"@)), true)(s[9])
    &&& s[10] == Source::FreeWebNovel(FreeWebNovelScraper { source_id: SourceID(11) })
}

pub(crate) fn madara(
    id: usize,
    url: &str,
    name: &str,
    paths: Option<(&str, &str, &str)>,
    new_endpoint: bool,
) -> (r: Source)
    ensures
        madara_spec(
            id,
            url@,
            name@,
            match paths {
                None => None,
                Some(p) => Some((p.0@, p.1@, p.2@)),
            },
            new_endpoint,
        )(r),
{
    let path = match paths {
        None => None,
        Some(p) => Some(MadaraPaths::new(p.0, p.1, p.2)),
    };
    Source::Madara(
        MadaraScraper::new(
            SourceID::new(id),
            String::from_str(url),
            String::from_str(name),
            path,
            new_endpoint,
        ),
    )
}

/// The sources the reader ships with.
pub fn get_sources() -> (r: Vec<Source>)
    ensures
        shipped_sources(r@),
{
    let mut v: Vec<Source> = Vec::new();
    v.push(madara(1, "https://boxnovel.com/", "BoxNovel", None, true));
    v.push(madara(2, "https://zinnovel.com/", "ZinnNovel", Some(("manga", "manga", "manga")), true));
    v.push(
        madara(
            3,
            "https://noveltranslate.com/",
            "NovelTranslate",
            Some(("all-novels", "novel", "novel")),
            true,
        ),
    );
    v.push(
        madara(
            4,
            "https://sleepytranslations.com/",
            "SleepyTranslations",
            Some(("series", "series", "series")),
            true,
        ),
    );
    v.push(madara(5, "https://freenovel.me/", "FreeNovelMe", None, false));
    v.push(madara(6, "https://1stkissnovel.org/", "FirstKissNovel", None, true));
    v.push(madara(7, "https://mostnovel.com/", "MostNovel", Some(("manga", "manga", "manga")), true));
    v.push(madara(8, "https://www.novelmultiverse.com/", "NovelMultiverse", None, true));
    v.push(madara(9, "https://wuxiaworld.site/", "WuxiaWorldSite", None, true));
    v.push(madara(10, "https://novelr18.com/", "NovelR18", Some(("novel", "manga", "manga")), true));
    v.push(Source::FreeWebNovel(FreeWebNovelScraper::new(SourceID::new(11))));
    v
}

} // verus!
