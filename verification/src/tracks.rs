//! The track library page: its states, search results, and how search
//! results are grouped by what matched.
use vstd::prelude::*;
use crate::track::{same_tracks, AppTrack};

verus! {

/// Where the track library page stands.
#[derive(Clone, Copy, Debug, PartialEq, Eq, Structural)]
pub enum TrackPageState {
    Loading,
    Loaded,
    Search,
}

/// One search hit: the index of the track in the library list, and a score
/// saying what matched (0 to 2: the title, 3 to 5: the album, 6 to 8: the
/// artist).
#[derive(Clone, Copy, Debug, PartialEq, Eq, Structural)]
pub struct SearchResult {
    pub tracks_index: usize,
    pub score: u32,
}

/// The tracks of the hits whose score lies in `lo..=hi`, in hit order, when
/// that group is shown at all; hits naming no track are skipped.
pub open spec fn search_group(
    results: Seq<SearchResult>,
    tracks: Seq<AppTrack>,
    lo: u32,
    hi: u32,
    shown: bool,
) -> Seq<AppTrack>
    decreases results.len(),
{
    if results.len() == 0 {
        Seq::empty()
    } else {
        let rest = search_group(results.drop_last(), tracks, lo, hi, shown);
        let r = results.last();
        if shown && lo <= r.score <= hi && r.tracks_index < tracks.len() {
            rest.push(tracks[r.tracks_index as int])
        } else {
            rest
        }
    }
}

/// Splits search hits into the tracks found by title, by album and by
/// artist, for the groups that are switched on.
pub fn group_search_results(
    search_result: &Vec<SearchResult>,
    tracks: &Vec<AppTrack>,
    settings: (bool, bool, bool),
) -> (groups: (Vec<AppTrack>, Vec<AppTrack>, Vec<AppTrack>))
    ensures
        same_tracks(groups.0@, search_group(search_result@, tracks@, 0, 2, settings.0)),
        same_tracks(groups.1@, search_group(search_result@, tracks@, 3, 5, settings.1)),
        same_tracks(groups.2@, search_group(search_result@, tracks@, 6, 8, settings.2)),
{
    let mut title_vector: Vec<AppTrack> = Vec::new();
    let mut album_vector: Vec<AppTrack> = Vec::new();
    let mut artist_vector: Vec<AppTrack> = Vec::new();
    let mut i: usize = 0;
    while i < search_result.len()
        invariant
            i <= search_result@.len(),
            same_tracks(
                title_vector@,
                search_group(search_result@.take(i as int), tracks@, 0, 2, settings.0),
            ),
            same_tracks(
                album_vector@,
                search_group(search_result@.take(i as int), tracks@, 3, 5, settings.1),
            ),
            same_tracks(
                artist_vector@,
                search_group(search_result@.take(i as int), tracks@, 6, 8, settings.2),
            ),
        decreases search_result@.len() - i,
    {
        let each = search_result[i];
        proof {
            assert(search_result@.take(i + 1).drop_last() =~= search_result@.take(i as int));
        }
        if each.score <= 2 && settings.0 {
            if each.tracks_index < tracks.len() {
                title_vector.push(tracks[each.tracks_index].duplicate());
            }
        } else if 3 <= each.score && each.score <= 5 && settings.1 {
            if each.tracks_index < tracks.len() {
                album_vector.push(tracks[each.tracks_index].duplicate());
            }
        } else if 6 <= each.score && each.score <= 8 && settings.2 {
            if each.tracks_index < tracks.len() {
                artist_vector.push(tracks[each.tracks_index].duplicate());
            }
        }
        i += 1;
    }
    proof {
        assert(search_result@.take(i as int) =~= search_result@);
    }
    (title_vector, album_vector, artist_vector)
}


/// The list indices of the hits whose score lies in `lo..=hi`, in hit order,
/// skipping hits past the end of a list of `len` items.
pub open spec fn hit_indices(results: Seq<SearchResult>, len: nat, lo: u32, hi: u32) -> Seq<usize>
    decreases results.len(),
{
    if results.len() == 0 {
        Seq::empty()
    } else {
        let rest = hit_indices(results.drop_last(), len, lo, hi);
        let r = results.last();
        if lo <= r.score <= hi && r.tracks_index < len {
            rest.push(r.tracks_index)
        } else {
            rest
        }
    }
}

/// The indices of the items a page shows for search hits scored in
/// `lo..=hi` (the playlist page shows the title hits, `0..=2`).
pub fn hits_in_range(search_result: &Vec<SearchResult>, len: usize, lo: u32, hi: u32) -> (v: Vec<usize>)
    ensures
        v@ == hit_indices(search_result@, len as nat, lo, hi),
{
    let mut v: Vec<usize> = Vec::new();
    let mut i: usize = 0;
    while i < search_result.len()
        invariant
            i <= search_result@.len(),
            v@ == hit_indices(search_result@.take(i as int), len as nat, lo, hi),
        decreases search_result@.len() - i,
    {
        let each = search_result[i];
        proof {
            assert(search_result@.take(i + 1).drop_last() =~= search_result@.take(i as int));
        }
        if lo <= each.score && each.score <= hi && each.tracks_index < len {
            v.push(each.tracks_index);
        }
        i += 1;
    }
    proof {
        assert(search_result@.take(i as int) =~= search_result@);
    }
    v
}

} // verus!
