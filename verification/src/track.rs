//! Tracks as the queues hold them, and the slimmer record queued for playback.
use vstd::prelude::*;
use crate::text::push_str;

verus! {

/// Cover art of a track. Loaded art is held as the encoded image bytes; the
/// interface turns them into an image handle when it draws them.
#[derive(Clone, Debug, PartialEq, Eq)]
pub enum CoverArt {
    /// No cover art was found.
    Absent,
    SomeUnloaded,
    SomeLoaded(Vec<u8>),
}

/// All info associated with a track.
#[derive(Clone, Debug, PartialEq, Eq)]
pub struct AppTrack {
    pub id: u32,
    pub title: String,
    pub artist: String,
    pub album_title: String,
    pub path_buf: String,
    pub cover_art: CoverArt,
}

/// The minimum a queued track needs for playback.
#[derive(Clone, Debug, PartialEq, Eq)]
pub struct QueuedTrack {
    pub id: u32,
    pub title: String,
    pub path_buf: String,
}

/// The columns the track lookup reads for a queued track.
pub struct QueuedTrackRow {
    pub id: u32,
    pub title: String,
    pub path: String,
}

/// The columns the track lookup reads for a full track, with the cover art
/// found in the file (if any).
pub struct AppTrackRow {
    pub id: u32,
    pub title: String,
    pub artist: String,
    pub album_title: Option<String>,
    pub path: String,
    pub cover: Option<Vec<u8>>,
}

/// The message a failed lookup is reported with: `Failed:` followed by the
/// lookup's own error text.
pub open spec fn failed_message(err: Seq<char>) -> Seq<char> {
    "Failed:"@ + err
}

/// Element-wise agreement of two track lists.
pub open spec fn same_tracks(a: Seq<AppTrack>, b: Seq<AppTrack>) -> bool {
    &&& a.len() == b.len()
    &&& forall|i: int| 0 <= i < a.len() ==> (#[trigger] a[i]).same_as(&b[i])
}

impl CoverArt {
    /// Two cover arts agree: same variant, and the same bytes when loaded.
    pub open spec fn same_as(&self, other: &CoverArt) -> bool {
        match (self, other) {
            (CoverArt::Absent, CoverArt::Absent) => true,
            (CoverArt::SomeUnloaded, CoverArt::SomeUnloaded) => true,
            (CoverArt::SomeLoaded(a), CoverArt::SomeLoaded(b)) => a@ == b@,
            _ => false,
        }
    }

    /// A copy of this cover art.
    pub fn duplicate(&self) -> (res: CoverArt)
        ensures
            res.same_as(self),
    {
        match self {
            CoverArt::Absent => CoverArt::Absent,
            CoverArt::SomeUnloaded => CoverArt::SomeUnloaded,
            CoverArt::SomeLoaded(bytes) => {
                let copy = bytes.clone();
                assert(copy@ =~= bytes@);
                CoverArt::SomeLoaded(copy)
            },
        }
    }
}

impl AppTrack {
    /// Two tracks carry the same information.
    pub open spec fn same_as(&self, other: &AppTrack) -> bool {
        &&& self.id == other.id
        &&& self.title == other.title
        &&& self.artist == other.artist
        &&& self.album_title == other.album_title
        &&& self.path_buf == other.path_buf
        &&& self.cover_art.same_as(&other.cover_art)
    }

    /// A copy of this track.
    pub fn duplicate(&self) -> (res: AppTrack)
        ensures
            res.same_as(self),
    {
        AppTrack {
            id: self.id,
            title: self.title.clone(),
            artist: self.artist.clone(),
            album_title: self.album_title.clone(),
            path_buf: self.path_buf.clone(),
            cover_art: self.cover_art.duplicate(),
        }
    }

    /// Looks up track `id` with `query_row` and builds the full track from the
    /// row found, or reports the lookup's failure.
    pub fn get_by_id<F: FnOnce(u32) -> Result<AppTrackRow, String>>(id: u32, query_row: F) -> (res:
        Result<AppTrack, String>)
        requires
            call_requires(query_row, (id,)),
        ensures
            exists|found: Result<AppTrackRow, String>|
                {
                    &&& call_ensures(query_row, (id,), found)
                    &&& match found {
                        Ok(row) => res matches Ok(t) && t.id == row.id && t.title == row.title
                            && t.artist == row.artist && t.path_buf == row.path && t.album_title@
                            == (match row.album_title {
                            Some(a) => a@,
                            None => Seq::<char>::empty(),
                        }) && t.cover_art == (match row.cover {
                            Some(bytes) => CoverArt::SomeLoaded(bytes),
                            None => CoverArt::Absent,
                        }),
                        Err(e) => res matches Err(msg) && msg@ == failed_message(e@),
                    }
                },
    {
        let found = query_row(id);
        match found {
            Ok(row) => {
                let album_title = match row.album_title {
                    Some(a) => a,
                    None => String::new(),
                };
                let cover_art = match row.cover {
                    Some(bytes) => CoverArt::SomeLoaded(bytes),
                    None => CoverArt::Absent,
                };
                Ok(
                    AppTrack {
                        id: row.id,
                        title: row.title,
                        artist: row.artist,
                        album_title,
                        path_buf: row.path,
                        cover_art,
                    },
                )
            },
            Err(e) => Err(failure(&e)),
        }
    }

    /// The queued record of this track: its id, title and path.
    pub fn to_queued_track(&self) -> (res: QueuedTrack)
        ensures
            res.id == self.id,
            res.title == self.title,
            res.path_buf == self.path_buf,
    {
        QueuedTrack { id: self.id, title: self.title.clone(), path_buf: self.path_buf.clone() }
    }
}

/// The failure message for a lookup error.
fn failure(err: &String) -> (msg: String)
    ensures
        msg@ == failed_message(err@),
{
    let mut msg = "Failed:".to_owned();
    push_str(&mut msg, err.as_str());
    msg
}

impl QueuedTrack {
    /// Looks up track `id` with `query_row` and builds the queued record from
    /// the row found, or reports the lookup's failure.
    pub fn get_by_id<F: FnOnce(u32) -> Result<QueuedTrackRow, String>>(id: u32, query_row: F) -> (res:
        Result<QueuedTrack, String>)
        requires
            call_requires(query_row, (id,)),
        ensures
            exists|found: Result<QueuedTrackRow, String>|
                {
                    &&& call_ensures(query_row, (id,), found)
                    &&& match found {
                        Ok(row) => res == Ok::<QueuedTrack, String>(
                            QueuedTrack { id: row.id, title: row.title, path_buf: row.path },
                        ),
                        Err(e) => res matches Err(msg) && msg@ == failed_message(e@),
                    }
                },
    {
        let found = query_row(id);
        match found {
            Ok(row) => Ok(QueuedTrack { id: row.id, title: row.title, path_buf: row.path }),
            Err(e) => Err(failure(&e)),
        }
    }
}

} // verus!
