//! The album library page.
use vstd::prelude::*;

verus! {

/// A page that can be built as the album grid and drawn.
pub trait AlbumPageTrait {
    /// Build the album page.
    fn new_album_page();

    /// Draw the album page.
    fn view();
}

} // verus!
