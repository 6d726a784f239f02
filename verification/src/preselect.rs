//! The row that a menu opens on.
use vstd::prelude::*;

use crate::select::FuzzyHistorySelect;

verus! {

/// Setting the row that a menu opens on.
///
/// The method stands in a trait of its own because the type has two functions of its name: this
/// one on a menu, and `Default::default`, which makes one.
pub trait Preselect: Sized {
    /// Sets a default for the menu
    fn default(&mut self, val: usize) -> &mut Self;
}

impl<T> Preselect for FuzzyHistorySelect<T> {
    fn default(&mut self, val: usize) -> (menu: &mut Self)
        ensures
            *menu == (FuzzyHistorySelect { default: Some(val), ..*old(self) }),
            *final(self) == *final(menu),
    {
        self.default = Some(val);
        self
    }
}

} // verus!
