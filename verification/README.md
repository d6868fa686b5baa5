# nova_music

The playback and library logic of the Nova Music player, verified with Verus.

- `src/queue.rs`: a track queue with a linear or shuffled playback order; the
  shuffle order is always a permutation with an inverse, and enabling shuffle
  keeps the current track first.
- `src/playback.rs`: the two-queue playback manager (up next, then the album
  or playlist context), with its navigation, looping and the played /
  upcoming index lists; `src/home.rs` numbers those lists for display.
- `src/session.rs`, `src/shuffle.rs`, `src/audio.rs`: the plain play queue of
  the player window and its loop button.
- `src/metadata.rs`, `src/numtext.rs`: reading a file's tags into what the
  track database records, and the album decisions taken while recording.
- `src/playlists.rs`, `src/albums.rs`, `src/tracks.rs`, `src/track.rs`,
  `src/grid.rs`: M3U playlists (reading, writing, renaming and changing the
  cover art), album track order, search result groups,
  track records, and the cover grid layout.
- `app/`: a command-line front end that does the file and database work
  (rusqlite, symphonia) around the library.

Laws about the library are public proof functions named `law_*`.
