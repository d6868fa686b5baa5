//! Settings the player keeps between runs.
use vstd::prelude::*;

verus! {

/// The colour theme of the window.
#[derive(Clone, Copy, Debug, PartialEq, Eq, Structural)]
pub enum AppTheme {
    Light,
    Dark,
    System,
}

/// The order in which lists are shown.
#[derive(Clone, Copy, Debug, PartialEq, Eq, Structural)]
pub enum SortOrder {
    Ascending,
    Descending,
}

/// What a list is sorted by.
#[derive(Clone, Copy, Debug, PartialEq, Eq, Structural)]
pub enum SortData {
    Time,
    String,
}

impl SortOrder {
    /// The order the sort header switches to when pressed.
    pub fn toggled(self) -> (r: SortOrder)
        ensures
            r != self,
            r == (match self {
                SortOrder::Ascending => SortOrder::Descending,
                SortOrder::Descending => SortOrder::Ascending,
            }),
    {
        match self {
            SortOrder::Ascending => SortOrder::Descending,
            SortOrder::Descending => SortOrder::Ascending,
        }
    }
}

} // verus!
