//! The tabs of library categories.

use vstd::prelude::*;

verus! {

/// A row of tabs with one selected.
#[derive(Debug)]
pub struct CategoryTabs {
    pub tabs: Vec<String>,
    pub index: usize,
}

impl CategoryTabs {
    pub fn with_tabs(tabs: Vec<String>) -> (r: Self)
        ensures
            r.tabs == tabs,
            r.index == 0,
    {
        Self { tabs, index: 0 }
    }

    /// Selects the next tab, from the last back to the first.
    pub fn next(&mut self)
        requires
            old(self).tabs@.len() > 0,
            old(self).index < usize::MAX,
        ensures
            final(self).tabs == old(self).tabs,
            final(self).index == (old(self).index + 1) % (old(self).tabs@.len() as int),
    {
        self.index = (self.index + 1) % self.tabs.len();
    }

    /// Selects the previous tab, from the first back to the last.
    pub fn previous(&mut self)
        requires
            old(self).tabs@.len() > 0,
        ensures
            final(self).tabs == old(self).tabs,
            final(self).index == if old(self).index > 0 {
                old(self).index - 1
            } else {
                old(self).tabs@.len() - 1
            },
    {
        if self.index > 0 {
            self.index -= 1;
        } else {
            self.index = self.tabs.len() - 1;
        }
    }
}

} // verus!
