//! The option lists of the app's menus.

use vstd::prelude::*;

use crate::state::lists::{ListSelection, StatefulList};

verus! {

/// The characters of each string.
pub open spec fn views(s: Seq<String>) -> Seq<Seq<char>> {
    s.map_values(|x: String| x@)
}

/// A list of `names`, the first selected.
pub open spec fn offers(l: StatefulList<String>, names: Seq<Seq<char>>) -> bool {
    &&& views(l.items@) == names
    &&& l.state == ListSelection::none().select_spec(Some(0))
}

/// The option lists of the app's menus.
#[derive(Debug)]
pub struct MenuOptions {
    pub local_options: StatefulList<String>,
    pub global_options: StatefulList<String>,
    pub local_history_options: StatefulList<String>,
    pub global_history_options: StatefulList<String>,
    pub category_list: StatefulList<String>,
    pub source_options: StatefulList<String>,
    pub source_book_options: StatefulList<String>,
    pub category_options: StatefulList<String>,
}

impl MenuOptions {
    /// The menus, with `categories` as the list of categories.
    pub fn new(categories: Vec<String>) -> (r: Self)
        ensures
            offers(r.local_options, seq![
                "Continue reading"@,
                "Move to category..."@,
                "Rename"@,
                "Start from beginning"@,
                "Remove book from library"@,
            ]),
            offers(r.global_options, seq![
                "Continue reading"@,
                "View chapter list"@,
                "Move to category..."@,
                "Rename"@,
                "Start from beginning"@,
                "Remove book from library"@,
            ]),
            offers(r.local_history_options, seq!["Continue reading"@, "Remove from history"@]),
            offers(r.global_history_options, seq![
                "Continue reading"@,
                "View book"@,
                "Remove from history"@,
            ]),
            r.category_list.items@ == categories@,
            r.category_list.state == (if categories@.len() == 0 {
                ListSelection::none()
            } else {
                ListSelection::none().select_spec(Some(0))
            }),
            offers(r.source_options, seq!["Search"@, "View popular"@]),
            offers(r.source_book_options, seq!["Start from beginning"@, "Add book to library"@]),
            offers(r.category_options, seq![
                "Create categories"@,
                "Re-order categories (Not yet implemented)"@,
                "Rename categories"@,
                "Delete categories"@,
            ]),
    {
        let local_options = StatefulList::with_items(vec![
            String::from_str("Continue reading"),
            String::from_str("Move to category..."),
            String::from_str("Rename"),
            String::from_str("Start from beginning"),
            String::from_str("Remove book from library"),
        ]);
        let global_options = StatefulList::with_items(vec![
            String::from_str("Continue reading"),
            String::from_str("View chapter list"),
            String::from_str("Move to category..."),
            String::from_str("Rename"),
            String::from_str("Start from beginning"),
            String::from_str("Remove book from library"),
        ]);
        let local_history_options = StatefulList::with_items(vec![
            String::from_str("Continue reading"),
            String::from_str("Remove from history"),
        ]);
        let global_history_options = StatefulList::with_items(vec![
            String::from_str("Continue reading"),
            String::from_str("View book"),
            String::from_str("Remove from history"),
        ]);
        let category_list = StatefulList::with_items(categories);
        let source_options = StatefulList::with_items(vec![
            String::from_str("Search"),
            String::from_str("View popular"),
        ]);
        let source_book_options = StatefulList::with_items(vec![
            String::from_str("Start from beginning"),
            String::from_str("Add book to library"),
        ]);
        let category_options = StatefulList::with_items(vec![
            String::from_str("Create categories"),
            String::from_str("Re-order categories (Not yet implemented)"),
            String::from_str("Rename categories"),
            String::from_str("Delete categories"),
        ]);
        let r = Self {
            local_options,
            global_options,
            local_history_options,
            global_history_options,
            category_list,
            source_options,
            source_book_options,
            category_options,
        };
        proof {
            assert(views(r.local_options.items@) =~= seq![
                "Continue reading"@,
                "Move to category..."@,
                "Rename"@,
                "Start from beginning"@,
                "Remove book from library"@,
            ]);
            assert(views(r.global_options.items@) =~= seq![
                "Continue reading"@,
                "View chapter list"@,
                "Move to category..."@,
                "Rename"@,
                "Start from beginning"@,
                "Remove book from library"@,
            ]);
            assert(views(r.local_history_options.items@) =~= seq!["Continue reading"@, "Remove from history"@]);
            assert(views(r.global_history_options.items@) =~= seq![
                "Continue reading"@,
                "View book"@,
                "Remove from history"@,
            ]);
            assert(views(r.source_options.items@) =~= seq!["Search"@, "View popular"@]);
            assert(views(r.source_book_options.items@) =~= seq!["Start from beginning"@, "Add book to library"@]);
            assert(views(r.category_options.items@) =~= seq![
                "Create categories"@,
                "Re-order categories (Not yet implemented)"@,
                "Rename categories"@,
                "Delete categories"@,
            ]);
        }
        r
    }
}

} // verus!
