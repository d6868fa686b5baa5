//! The track library page, in its paged form.
use vstd::prelude::*;
pub use crate::tracks::SearchResult;

verus! {

/// Where the paged track library stands; it waits until it is first shown.
#[derive(Clone, Copy, Debug, PartialEq, Eq, Structural)]
pub enum TrackPageState {
    Waiting,
    Loading,
    Loaded,
    Search,
}

} // verus!
