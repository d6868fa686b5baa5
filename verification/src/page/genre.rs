//! The genre library page.
use vstd::prelude::*;

verus! {

/// Where the genre page stands.
#[derive(Clone, Copy, Debug, PartialEq, Eq, Structural)]
pub enum GenrePageState {
    Loading,
    Search,
}

} // verus!
