//! The library pages of the player window.

pub mod albums;
pub mod genre;
pub mod playlists;
pub mod tracks;
