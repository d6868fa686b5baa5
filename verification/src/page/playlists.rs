//! The playlist library page, in its paged form.
pub use crate::playlists::PlaylistTrack;
