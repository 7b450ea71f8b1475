//! The sources the app browses, and what it shows of them.

use vstd::prelude::*;

use crate::sources::chapter::ChapterPreview;
use crate::sources::novel::{Novel, NovelPreview};
use crate::sources::source::{madara, madara_spec, Source, SourceID};
use crate::state::lists::{ListSelection, StatefulList};
use crate::state::screen::SourceBookBox;

verus! {

/// The sources the app offers, the novels found, and the novel being viewed.
#[derive(Debug)]
pub struct SourceData {
    pub sources: StatefulList<(String, Source)>,
    pub novel_results: StatefulList<NovelPreview>,
    pub current_novel: Option<Novel>,
    pub current_novel_chaps: StatefulList<ChapterPreview>,
    pub current_book_ui_option: SourceBookBox,
}

/// The entry `e` names a Madara source with these settings, under its own name.
pub open spec fn offered(
    e: (String, Source),
    id: usize,
    url: Seq<char>,
    name: Seq<char>,
    paths: Option<(Seq<char>, Seq<char>, Seq<char>)>,
    new_endpoint: bool,
) -> bool {
    &&& e.0@ == name
    &&& madara_spec(id, url, name, paths, new_endpoint)(e.1)
}

impl SourceData {
    /// The three Madara sources the app browses, the first selected, with nothing found yet.
    pub fn build() -> (r: Self)
        ensures
            r.sources.items@.len() == 3,
            offered(r.sources.items@[0], 1, "https://boxnovel.com/"@, "BoxNovel"@, None, true),
            offered(r.sources.items@[1], 2, "https://zinnovel.com/"@, "ZinnNovel"@,
                Some(("manga"@, "manga"@, "manga"@)), false),
            offered(r.sources.items@[2], 3, "https://noveltranslate.com/"@, "NovelTranslate"@,
                Some(("all-novels"@, "novel"@, "novel"@)), false),
            r.sources.state == ListSelection::none().select_spec(Some(0)),
            r.novel_results@ == (ListSelection::none(), Seq::<NovelPreview>::empty()),
            r.current_novel is None,
            r.current_novel_chaps@ == (ListSelection::none(), Seq::<ChapterPreview>::empty()),
            r.current_book_ui_option == SourceBookBox::Options,
    {
        let box_novel = madara(1, "https://boxnovel.com/", "BoxNovel", None, true);
        let zinn_novel = madara(2, "https://zinnovel.com/", "ZinnNovel", Some(("manga", "manga", "manga")), false);
        let novel_translate = madara(
            3,
            "https://noveltranslate.com/",
            "NovelTranslate",
            Some(("all-novels", "novel", "novel")),
            false,
        );
        let mut v: Vec<(String, Source)> = Vec::new();
        v.push((String::from_str("BoxNovel"), box_novel));
        v.push((String::from_str("ZinnNovel"), zinn_novel));
        v.push((String::from_str("NovelTranslate"), novel_translate));
        let mut sources = StatefulList::with_items(v);
        sources.state.select(Some(0));
        Self {
            sources,
            novel_results: StatefulList::new(),
            current_novel: None,
            current_novel_chaps: StatefulList::new(),
            current_book_ui_option: SourceBookBox::Options,
        }
    }

    /// The first source offered with the ID `id`, if there is one.
    pub fn get_source_by_id(&self, id: SourceID) -> (r: Option<&Source>)
        ensures
            r matches Some(s) ==> exists|i: int| 0 <= i < self.sources.items@.len()
                && (#[trigger] self.sources.items@[i]).1 == *s && s.id_spec() == id
                && forall|j: int| 0 <= j < i ==> (#[trigger] self.sources.items@[j]).1.id_spec() != id,
            r is None ==> forall|i: int| 0 <= i < self.sources.items@.len()
                ==> (#[trigger] self.sources.items@[i]).1.id_spec() != id,
    {
        let mut i: usize = 0;
        while i < self.sources.items.len()
            invariant
                i <= self.sources.items@.len(),
                forall|j: int| 0 <= j < i ==> (#[trigger] self.sources.items@[j]).1.id_spec() != id,
            decreases self.sources.items@.len() - i,
        {
            if self.sources.items[i].1.get_id() == id {
                return Some(&self.sources.items[i].1);
            }
            i = i + 1;
        }
        None
    }

    pub fn get_list(&mut self) -> (r: &StatefulList<(String, Source)>)
        ensures
            *r == old(self).sources,
            *final(self) == *old(self),
    {
        &self.sources
    }

    /// A mutable borrow of the list of sources; nothing else of `self` changes.
    pub fn get_list_mut(&mut self) -> (r: &mut StatefulList<(String, Source)>)
        ensures
            *r == old(self).sources,
            *final(self) == (SourceData { sources: *final(r), ..*old(self) }),
    {
        &mut self.sources
    }

    /// The names of the sources, in order.
    pub fn get_source_names(&self) -> (r: Vec<String>)
        ensures
            r@.len() == self.sources.items@.len(),
            forall|i: int| 0 <= i < r@.len() ==> r@[i] == (#[trigger] self.sources.items@[i]).0,
    {
        let mut names: Vec<String> = Vec::new();
        let mut i: usize = 0;
        while i < self.sources.items.len()
            invariant
                i <= self.sources.items@.len(),
                names@.len() == i,
                forall|j: int| 0 <= j < i ==> names@[j] == (#[trigger] self.sources.items@[j]).0,
            decreases self.sources.items@.len() - i,
        {
            names.push(self.sources.items[i].0.clone());
            i = i + 1;
        }
        names
    }

    pub fn get_state(&self) -> (r: &ListSelection)
        ensures
            *r == self.sources.state,
    {
        &self.sources.state
    }

    /// A mutable borrow of the sources' selection; nothing else of `self` changes.
    pub fn get_state_mut(&mut self) -> (r: &mut ListSelection)
        ensures
            *r == old(self).sources.state,
            final(self).sources.items == old(self).sources.items,
            final(self).sources.state == *final(r),
            final(self).novel_results == old(self).novel_results,
            final(self).current_novel == old(self).current_novel,
            final(self).current_novel_chaps == old(self).current_novel_chaps,
            final(self).current_book_ui_option == old(self).current_book_ui_option,
    {
        &mut self.sources.state
    }
}

} // verus!
