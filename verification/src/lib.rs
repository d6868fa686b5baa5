//! Playback queue logic of the Nova Music player: track queues with an
//! optional shuffled playback order, a two-queue playback manager, and the
//! small decision procedures used around them.

pub mod albums;
pub mod audio;
pub mod config;
pub mod novasink;
pub mod grid;
pub mod home;
pub mod metadata;
pub mod numtext;
pub mod perm;
pub mod random;
pub mod text;
pub mod track;
pub mod tracks;
pub mod queue;
pub mod session;
pub mod page;
pub mod playback;
pub mod playlists;
pub mod shuffle;
