//! Lists whose items can be selected one at a time.

use vstd::prelude::*;

verus! {

/// Which item of a list is selected, and the index of the first item shown.
#[derive(Clone, Copy, Debug, PartialEq, Eq, Structural)]
pub struct ListSelection {
    pub offset: usize,
    pub selected: Option<usize>,
}

impl Default for ListSelection {
    fn default() -> (r: Self)
        ensures
            r == ListSelection::none(),
    {
        ListSelection { offset: 0, selected: None }
    }
}

impl ListSelection {
    /// Nothing selected, shown from the first item.
    pub open spec fn none() -> ListSelection {
        ListSelection { offset: 0, selected: None }
    }

    /// The same, with `selected` as the selection.
    pub fn with_selected(self, selected: Option<usize>) -> (r: Self)
        ensures
            r == (ListSelection { selected, ..self }),
    {
        ListSelection { selected, ..self }
    }

    pub fn selected(&self) -> (r: Option<usize>)
        ensures
            r == self.selected,
    {
        self.selected
    }

    /// Selects `index`; selecting nothing also shows the list from its first item.
    pub fn select(&mut self, index: Option<usize>)
        ensures
            *final(self) == old(self).select_spec(index),
    {
        self.selected = index;
        if index.is_none() {
            self.offset = 0;
        }
    }

    pub open spec fn select_spec(self, index: Option<usize>) -> ListSelection {
        ListSelection { offset: if index is None { 0 } else { self.offset }, selected: index }
    }
}

/// A list of items and which of them is selected.
#[derive(Debug)]
pub struct StatefulList<T> {
    pub state: ListSelection,
    pub items: Vec<T>,
}

impl<T> View for StatefulList<T> {
    type V = (ListSelection, Seq<T>);

    open spec fn view(&self) -> (ListSelection, Seq<T>) {
        (self.state, self.items@)
    }
}

/// The selection after moving down one item in a list of `len` items, from
/// the last (or past it) back to the first.
pub open spec fn next_index(selected: Option<usize>, len: nat) -> int {
    match selected {
        Some(i) => if i >= len - 1 { 0 } else { i + 1 },
        None => 0,
    }
}

/// The selection after moving up one item in a list of `len` items, from
/// the first back to the last.
pub open spec fn previous_index(selected: Option<usize>, len: nat) -> int {
    match selected {
        Some(i) => if i == 0 { len - 1 } else { i - 1 },
        None => 0,
    }
}

/// The selection `st` of a list of `len` items after moving down one item.
pub open spec fn after_next(st: ListSelection, len: nat) -> ListSelection {
    if len == 0 {
        st
    } else {
        st.select_spec(Some(next_index(st.selected, len) as usize))
    }
}

/// The selection `st` of a list of `len` items after moving up one item.
pub open spec fn after_previous(st: ListSelection, len: nat) -> ListSelection {
    if len == 0 {
        st
    } else {
        st.select_spec(Some(previous_index(st.selected, len) as usize))
    }
}

impl<T> StatefulList<T> {
    /// An empty list with nothing selected.
    pub fn new() -> (r: StatefulList<T>)
        ensures
            r.items@ == Seq::<T>::empty(),
            r.state == ListSelection::none(),
    {
        Self { state: ListSelection::default(), items: Vec::new() }
    }

    /// A list of one item, selected.
    pub fn with_item(item: T) -> (r: StatefulList<T>)
        ensures
            r.items@ == seq![item],
            r.state == ListSelection::none().select_spec(Some(0)),
    {
        let mut items = Vec::new();
        items.push(item);
        Self { state: ListSelection::default().with_selected(Some(0)), items }
    }

    /// A list of `items`, the first selected if there is one.
    pub fn with_items(items: Vec<T>) -> (r: StatefulList<T>)
        ensures
            r.items@ == items@,
            r.state == (if items@.len() == 0 {
                ListSelection::none()
            } else {
                ListSelection::none().select_spec(Some(0))
            }),
    {
        if items.len() == 0 {
            Self { state: ListSelection::default(), items }
        } else {
            Self { state: ListSelection::default().with_selected(Some(0)), items }
        }
    }

    /// Adds `item` at the end and selects the first item, shown from the top.
    pub fn insert(&mut self, item: T)
        ensures
            final(self).items@ == old(self).items@.push(item),
            final(self).state == ListSelection::none().select_spec(Some(0)),
    {
        self.items.push(item);
        self.state = ListSelection::default().with_selected(Some(0));
    }

    /// Selects the next item, from the last back to the first; an empty list is left as it is.
    pub fn next(&mut self)
        ensures
            final(self).items == old(self).items,
            final(self).state == after_next(old(self).state, old(self).items@.len()),
    {
        if self.items.len() == 0 {
            return;
        }
        let i = match self.state.selected() {
            Some(i) => if i >= self.items.len() - 1 { 0 } else { i + 1 },
            None => 0,
        };
        self.state.select(Some(i));
    }

    /// Selects the previous item, from the first back to the last; an empty list is left as it is.
    pub fn previous(&mut self)
        ensures
            final(self).items == old(self).items,
            final(self).state == after_previous(old(self).state, old(self).items@.len()),
    {
        if self.items.len() == 0 {
            return;
        }
        let i = match self.state.selected() {
            Some(i) => if i == 0 { self.items.len() - 1 } else { i - 1 },
            None => 0,
        };
        self.state.select(Some(i));
    }

    /// Selects nothing.
    pub fn unselect(&mut self)
        ensures
            final(self).items == old(self).items,
            final(self).state == old(self).state.select_spec(None),
    {
        self.state.select(None);
    }

    /// Selects the first item.
    pub fn select_first(&mut self)
        ensures
            final(self).items == old(self).items,
            final(self).state == old(self).state.select_spec(Some(0)),
    {
        self.state.select(Some(0));
    }

    /// The index of the selected item, if any.
    pub fn selected_idx(&self) -> (r: Option<usize>)
        ensures
            r == self.state.selected,
    {
        self.state.selected()
    }

    /// The selected item, if one is selected and the list has it.
    pub fn selected(&self) -> (r: Option<&T>)
        ensures
            r == (match self.state.selected {
                Some(i) => if i < self.items@.len() { Some(&self.items@[i as int]) } else { None },
                None => None,
            }),
    {
        match self.state.selected() {
            Some(i) => if i < self.items.len() { Some(&self.items[i]) } else { None },
            None => None,
        }
    }
}

} // verus!
