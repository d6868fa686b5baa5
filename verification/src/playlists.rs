//! Playlists stored as M3U text: reading the tracks a playlist lists, and
//! writing a new playlist for a list of tracks.
use vstd::prelude::*;
use crate::metadata::opt_text;
use crate::text::push_str;
use crate::track::AppTrack;

verus! {

/// A track listed in a playlist: the title given for it and its file path.
#[derive(Clone, Debug)]
pub struct PlaylistTrack {
    pub title: String,
    pub path: String,
}

/// `needle` occurs in `hay` starting at `i`.
pub open spec fn occurs_at(hay: Seq<char>, needle: Seq<char>, i: int) -> bool {
    &&& 0 <= i
    &&& i + needle.len() <= hay.len()
    &&& hay.subrange(i, i + needle.len()) == needle
}

/// `needle` occurs somewhere in `hay`.
pub open spec fn contains_text(hay: Seq<char>, needle: Seq<char>) -> bool {
    exists|i: int| occurs_at(hay, needle, i)
}

/// The first occurrence of `needle` in `hay` starts at `k`.
pub open spec fn is_first_occurrence(hay: Seq<char>, needle: Seq<char>, k: int) -> bool {
    &&& occurs_at(hay, needle, k)
    &&& forall|j: int| 0 <= j < k ==> !occurs_at(hay, needle, j)
}

/// Finds the first occurrence of `needle` in `hay`, as a character index.
pub fn find_text(hay: &str, needle: &str) -> (r: Option<usize>)
    ensures
        match r {
            Some(k) => is_first_occurrence(hay@, needle@, k as int),
            None => !contains_text(hay@, needle@),
        },
{
    let n: usize = hay.unicode_len();
    let m: usize = needle.unicode_len();
    if m > n {
        proof {
            assert forall|i: int| !occurs_at(hay@, needle@, i) by {}
        }
        return None;
    }
    let mut i: usize = 0;
    while i <= n - m
        invariant
            n == hay@.len(),
            m == needle@.len(),
            m <= n,
            i <= n - m + 1,
            forall|j: int| 0 <= j < i ==> !occurs_at(hay@, needle@, j),
        decreases n - m + 1 - i,
    {
        let mut t: usize = 0;
        while t < m && hay.get_char(i + t) == needle.get_char(t)
            invariant
                n == hay@.len(),
                m == needle@.len(),
                i + m <= n,
                t <= m,
                forall|u: int| 0 <= u < t ==> hay@[i + u] == needle@[u],
            decreases m - t,
        {
            t += 1;
        }
        if t == m {
            proof {
                assert(hay@.subrange(i as int, i + m) =~= needle@);
            }
            return Some(i);
        }
        proof {
            assert(hay@.subrange(i as int, i + m)[t as int] != needle@[t as int]);
            assert(!occurs_at(hay@, needle@, i as int));
        }
        i += 1;
    }
    proof {
        assert forall|j: int| !occurs_at(hay@, needle@, j) by {
            if 0 <= j < i {
            }
        }
    }
    None
}

/// Reading state: whether the text was recognised as M3U, the title of the
/// track whose path comes next, and the tracks read so far.
pub struct M3uState {
    pub is_m3u: bool,
    pub title: Option<Seq<char>>,
    pub tracks: Seq<(Seq<char>, Seq<char>)>,
}

/// The state before any line was read.
pub open spec fn m3u_start() -> M3uState {
    M3uState { is_m3u: false, title: None, tracks: Seq::empty() }
}

/// Reads line `index`: before the text is known to be M3U, only a first
/// line holding `#EXTM3U` counts (it marks the text as M3U); after that an
/// `#EXTINF:` line gives the next track's title (what follows its first
/// " -"), and the line after a title is that track's path. An `#EXTINF:`
/// line without " - " cannot be read (`None`).
pub open spec fn m3u_step(st: M3uState, index: int, line: Seq<char>) -> Option<M3uState> {
    if !st.is_m3u && !(contains_text(line, "#EXTM3U"@) && index == 0) {
        Some(st)
    } else if contains_text(line, "#EXTINF:"@) {
        if contains_text(line, " - "@) {
            let k = choose|k: int| is_first_occurrence(line, " - "@, k);
            Some(M3uState { is_m3u: true, title: Some(line.skip(k + 2)), ..st })
        } else {
            None
        }
    } else if st.title is Some {
        Some(
            M3uState {
                is_m3u: true,
                title: None,
                tracks: st.tracks.push((st.title.unwrap(), line)),
            },
        )
    } else {
        Some(M3uState { is_m3u: true, ..st })
    }
}

/// The state after reading all of `lines` in order, or `None` when some line
/// cannot be read.
pub open spec fn m3u_run(lines: Seq<Seq<char>>) -> Option<M3uState>
    decreases lines.len(),
{
    if lines.len() == 0 {
        Some(m3u_start())
    } else {
        match m3u_run(lines.drop_last()) {
            Some(st) => m3u_step(st, lines.len() - 1, lines.last()),
            None => None,
        }
    }
}

/// The text of each line.
pub open spec fn line_texts(lines: Seq<String>) -> Seq<Seq<char>> {
    lines.map_values(|l: String| l@)
}

/// The title and path of each playlist track.
pub open spec fn track_texts(tracks: Seq<PlaylistTrack>) -> Seq<(Seq<char>, Seq<char>)> {
    tracks.map_values(|t: PlaylistTrack| (t.title@, t.path@))
}

/// Reads the tracks of a playlist from its lines. Text that does not start
/// with `#EXTM3U` lists no tracks. Reading fails at the first `#EXTINF:`
/// line without " - ", and the error is that line's index.
pub fn parse_m3u(lines: &Vec<String>) -> (r: Result<Vec<PlaylistTrack>, usize>)
    ensures
        match r {
            Ok(tracks) => m3u_run(line_texts(lines@)) matches Some(st) && track_texts(tracks@)
                == st.tracks,
            Err(i) => {
                &&& i < lines@.len()
                &&& m3u_run(line_texts(lines@).take(i as int)) matches Some(st) && m3u_step(
                    st,
                    i as int,
                    lines@[i as int]@,
                ) is None
            },
        },
{
    let ghost view = line_texts(lines@);
    let mut is_m3u = false;
    let mut track_title: Option<String> = None;
    let mut tracks: Vec<PlaylistTrack> = Vec::new();
    proof {
        assert(view.take(0) =~= Seq::<Seq<char>>::empty());
        assert(track_texts(tracks@) =~= Seq::<(Seq<char>, Seq<char>)>::empty());
    }
    let mut index: usize = 0;
    while index < lines.len()
        invariant
            index <= lines@.len(),
            view == line_texts(lines@),
            m3u_run(view.take(index as int)) == Some(
                M3uState {
                    is_m3u: is_m3u,
                    title: opt_text(track_title),
                    tracks: track_texts(tracks@),
                },
            ),
        decreases lines@.len() - index,
    {
        let line: &str = lines[index].as_str();
        let ghost before = M3uState {
            is_m3u: is_m3u,
            title: opt_text(track_title),
            tracks: track_texts(tracks@),
        };
        proof {
            assert(view.take(index + 1).drop_last() =~= view.take(index as int));
            assert(view.take(index + 1).last() == line@);
        }
        let mut skip = false;
        if !is_m3u {
            if find_text(line, "#EXTM3U").is_some() && index == 0 {
                is_m3u = true;
            } else {
                skip = true;
            }
        }
        if !skip {
            if find_text(line, "#EXTINF:").is_some() {
                match find_text(line, " - ") {
                    Some(k) => {
                        proof {
                            reveal_strlit(" - ");
                        }
                        let len: usize = line.unicode_len();
                        let title = line.substring_char(k + 2, len).to_owned();
                        proof {
                            let c = choose|j: int| is_first_occurrence(line@, " - "@, j);
                            assert(is_first_occurrence(line@, " - "@, c));
                            if c < k {
                                assert(!occurs_at(line@, " - "@, c));
                            } else if k < c {
                                assert(!occurs_at(line@, " - "@, k as int));
                            }
                            assert(line@.subrange(k + 2, len as int) =~= line@.skip(k + 2));
                        }
                        track_title = Some(title);
                    },
                    None => {
                        return Err(index);
                    },
                }
            } else {
                match track_title.take() {
                    Some(title) => {
                        tracks.push(PlaylistTrack { title, path: line.to_owned() });
                        proof {
                            assert(track_texts(tracks@) =~= before.tracks.push(
                                (before.title.unwrap(), line@),
                            ));
                        }
                    },
                    None => {},
                }
            }
        }
        index += 1;
    }
    proof {
        assert(view.take(index as int) =~= view);
    }
    Ok(tracks)
}

/// The three header lines of a new playlist: the M3U marker, its name and
/// its cover art path.
pub open spec fn header_lines(name: Seq<char>, cover: Seq<char>) -> Seq<Seq<char>> {
    seq!["#EXTM3U "@, "#PLAYLIST:"@ + name, "#EXTALBUMARTURL:"@ + cover]
}

/// The line that introduces a track: its artist and title.
pub open spec fn extinf_line(t: AppTrack) -> Seq<char> {
    "#EXTINF:0,"@ + t.artist@ + " - "@ + t.title@
}

/// The lines of a new playlist: the header, then for each track its
/// introducing line and its path.
pub open spec fn playlist_lines_spec(name: Seq<char>, cover: Seq<char>, tracks: Seq<AppTrack>) -> Seq<
    Seq<char>,
>
    decreases tracks.len(),
{
    if tracks.len() == 0 {
        header_lines(name, cover)
    } else {
        playlist_lines_spec(name, cover, tracks.drop_last()) + seq![
            extinf_line(tracks.last()),
            tracks.last().path_buf@,
        ]
    }
}

/// `a` followed by `b`, as a new string.
fn joined(a: &str, b: &str) -> (s: String)
    ensures
        s@ == a@ + b@,
{
    let mut s = a.to_owned();
    push_str(&mut s, b);
    s
}

/// The lines of a new playlist named `name` with cover art at `cover`,
/// listing `tracks`; the file holds each line followed by a line break.
pub fn playlist_lines(name: &str, cover: &str, tracks: &Vec<AppTrack>) -> (lines: Vec<String>)
    ensures
        line_texts(lines@) == playlist_lines_spec(name@, cover@, tracks@),
{
    let mut lines: Vec<String> = Vec::new();
    lines.push("#EXTM3U ".to_owned());
    lines.push(joined("#PLAYLIST:", name));
    lines.push(joined("#EXTALBUMARTURL:", cover));
    proof {
        assert(line_texts(lines@) =~= header_lines(name@, cover@));
        assert(tracks@.take(0) =~= Seq::<AppTrack>::empty());
    }
    let mut i: usize = 0;
    while i < tracks.len()
        invariant
            i <= tracks@.len(),
            line_texts(lines@) == playlist_lines_spec(name@, cover@, tracks@.take(i as int)),
        decreases tracks@.len() - i,
    {
        let t = &tracks[i];
        let mut intro = joined("#EXTINF:0,", t.artist.as_str());
        push_str(&mut intro, " - ");
        push_str(&mut intro, t.title.as_str());
        let ghost before = lines@;
        lines.push(intro);
        lines.push(t.path_buf.clone());
        proof {
            assert(tracks@.take(i + 1).drop_last() =~= tracks@.take(i as int));
            assert(line_texts(lines@) =~= line_texts(before) + seq![
                extinf_line(tracks@[i as int]),
                tracks@[i as int].path_buf@,
            ]);
        }
        i += 1;
    }
    proof {
        assert(tracks@.take(i as int) =~= tracks@);
    }
    lines
}


/// The header of a new playlist marks the text as M3U and lists no track,
/// when its name and cover lines hold no `#EXTINF:`.
proof fn lemma_header_reads(name: Seq<char>, cover: Seq<char>)
    requires
        !contains_text("#PLAYLIST:"@ + name, "#EXTINF:"@),
        !contains_text("#EXTALBUMARTURL:"@ + cover, "#EXTINF:"@),
    ensures
        m3u_run(header_lines(name, cover)) == Some(
            M3uState { is_m3u: true, title: None, tracks: Seq::empty() },
        ),
{
    reveal_strlit("#EXTM3U ");
    reveal_strlit("#EXTM3U");
    reveal_strlit("#EXTINF:");
    let h = header_lines(name, cover);
    let first = "#EXTM3U "@;
    assert(occurs_at(first, "#EXTM3U"@, 0)) by {
        assert(first.subrange(0, 7) =~= "#EXTM3U"@);
    }
    assert(!contains_text(first, "#EXTINF:"@)) by {
        assert forall|i: int| !occurs_at(first, "#EXTINF:"@, i) by {
            if occurs_at(first, "#EXTINF:"@, i) {
                assert(i == 0);
                assert(first.subrange(0, 8)[4] != "#EXTINF:"@[4]);
            }
        }
    }
    let s1 = seq![first];
    let s2 = s1.push(h[1]);
    let st = M3uState { is_m3u: true, title: None, tracks: Seq::<(Seq<char>, Seq<char>)>::empty() };
    assert(s1.drop_last() =~= Seq::<Seq<char>>::empty());
    assert(contains_text(first, "#EXTM3U"@));
    assert(m3u_start().tracks =~= st.tracks);
    assert(m3u_step(m3u_start(), 0, first) == Some(st));
    assert(m3u_run(s1.drop_last()) == Some(m3u_start()));
    assert(m3u_run(s1) == Some(st));
    assert(s2.drop_last() =~= s1);
    assert(m3u_run(s2) == Some(st));
    assert(h.drop_last() =~= s2);
}

/// The two lines written for a track read as that track, with the title
/// after the " -" that follows the artist, when the artist does not already
/// hold the first " - " of the line.
proof fn lemma_track_lines_read(st: M3uState, index: int, t: AppTrack)
    requires
        st.is_m3u,
        st.title is None,
        !contains_text(t.artist@ + " -"@, " - "@),
        !contains_text(t.path_buf@, "#EXTINF:"@),
    ensures
        m3u_step(st, index, extinf_line(t)) == Some(
            M3uState { title: Some(" "@ + t.title@), ..st },
        ),
        m3u_step(m3u_step(st, index, extinf_line(t)).unwrap(), index + 1, t.path_buf@) == Some(
            M3uState { tracks: st.tracks.push((" "@ + t.title@, t.path_buf@)), ..st },
        ),
{
    reveal_strlit("#EXTINF:0,");
    reveal_strlit("#EXTINF:");
    reveal_strlit(" - ");
    reveal_strlit(" ");
    reveal_strlit(" -");
    let e = extinf_line(t);
    let a = t.artist@;
    let k: int = 10 + a.len() as int;
    assert(e.len() == 13 + a.len() + t.title@.len());
    assert(occurs_at(e, "#EXTINF:"@, 0)) by {
        assert(e.subrange(0, 8) =~= "#EXTINF:"@);
    }
    assert(occurs_at(e, " - "@, k)) by {
        assert(e.subrange(k, k + 3) =~= " - "@);
    }
    let head = a + " -"@;
    assert forall|j: int| 0 <= j < k implies !occurs_at(e, " - "@, j) by {
        if occurs_at(e, " - "@, j) {
            assert(e.subrange(j, j + 3)[0] == ' ');
            assert(e[j] == ' ');
            if j < 10 {
                assert("#EXTINF:0,"@[j] != ' ');
            } else {
                assert(head.subrange(j - 10, j - 7) =~= e.subrange(j, j + 3));
                assert(occurs_at(head, " - "@, j - 10));
            }
        }
    }
    assert(is_first_occurrence(e, " - "@, k));
    let c = choose|j: int| is_first_occurrence(e, " - "@, j);
    assert(c == k) by {
        if c < k {
            assert(!occurs_at(e, " - "@, c));
        } else if k < c {
            assert(!occurs_at(e, " - "@, k));
        }
    }
    assert(e.skip(k + 2) =~= " "@ + t.title@);
}

/// A playlist written for `tracks` reads back as those tracks: each with its
/// path, and with the title that follows the " -" after the artist (so with
/// a leading space). This holds when no artist followed by " -" holds " - "
/// (which would split the line earlier) and no name, cover or path line
/// holds `#EXTINF:`.
pub proof fn law_written_playlist_reads_back(name: Seq<char>, cover: Seq<char>, tracks: Seq<AppTrack>)
    requires
        !contains_text("#PLAYLIST:"@ + name, "#EXTINF:"@),
        !contains_text("#EXTALBUMARTURL:"@ + cover, "#EXTINF:"@),
        forall|i: int|
            0 <= i < tracks.len() ==> !contains_text((#[trigger] tracks[i]).artist@ + " -"@, " - "@)
                && !contains_text(tracks[i].path_buf@, "#EXTINF:"@),
    ensures
        m3u_run(playlist_lines_spec(name, cover, tracks)) == Some(
            M3uState {
                is_m3u: true,
                title: None,
                tracks: Seq::new(
                    tracks.len(),
                    |i: int| (" "@ + tracks[i].title@, tracks[i].path_buf@),
                ),
            },
        ),
    decreases tracks.len(),
{
    if tracks.len() == 0 {
        lemma_header_reads(name, cover);
        assert(Seq::new(0, |i: int| (" "@ + tracks[i].title@, tracks[i].path_buf@)) =~= Seq::<
            (Seq<char>, Seq<char>),
        >::empty());
    } else {
        let rest = tracks.drop_last();
        let t = tracks.last();
        assert forall|i: int|
            0 <= i < rest.len() implies !contains_text((#[trigger] rest[i]).artist@ + " -"@, " - "@)
            && !contains_text(rest[i].path_buf@, "#EXTINF:"@) by {
            assert(rest[i] == tracks[i]);
        }
        law_written_playlist_reads_back(name, cover, rest);
        let before = playlist_lines_spec(name, cover, rest);
        let lines = playlist_lines_spec(name, cover, tracks);
        let st = M3uState {
            is_m3u: true,
            title: None,
            tracks: Seq::new(rest.len(), |i: int| (" "@ + rest[i].title@, rest[i].path_buf@)),
        };
        assert(lines.drop_last().drop_last() =~= before);
        assert(lines.drop_last().last() == extinf_line(t));
        assert(lines.last() == t.path_buf@);
        lemma_track_lines_read(st, before.len() as int, t);
        assert(m3u_run(lines.drop_last()) == m3u_step(st, before.len() as int, extinf_line(t)));
        assert(st.tracks.push((" "@ + t.title@, t.path_buf@)) =~= Seq::new(
            tracks.len(),
            |i: int| (" "@ + tracks[i].title@, tracks[i].path_buf@),
        ));
    }
}


/// Rewriting state: the lines kept so far, the new cover path not yet
/// written, and whether the cover and name lines still have to be added at
/// the end.
pub struct EditState {
    pub out: Seq<Seq<char>>,
    pub cover: Option<Seq<char>>,
    pub append_cover: bool,
    pub append_name: bool,
}

/// Rewrites one line of a playlist being renamed: a `#PLAYLIST:` line
/// becomes the new name line; an `#EXTALBUMARTURL:` line becomes the new
/// cover line, or (when the new cover was already written, or there is none)
/// is dropped. A line holding `blank` is dropped. The cover line is still to
/// be added at the end only while the last line read held no cover and a
/// new cover waits; the name line only while no name line was seen.
pub open spec fn edit_step(st: EditState, line: Seq<char>, name: Seq<char>) -> EditState {
    let is_name = contains_text(line, "#PLAYLIST:"@);
    let named = if is_name {
        "#PLAYLIST:"@ + name
    } else {
        line
    };
    let is_cover = contains_text(line, "#EXTALBUMARTURL:"@);
    let new_line = if is_cover {
        match st.cover {
            Some(c) => "#EXTALBUMARTURL:"@ + c,
            None => "blank"@,
        }
    } else {
        named
    };
    EditState {
        out: if contains_text(new_line, "blank"@) {
            st.out
        } else {
            st.out.push(new_line)
        },
        cover: if is_cover {
            None
        } else {
            st.cover
        },
        append_cover: !is_cover && st.cover is Some,
        append_name: st.append_name && !is_name,
    }
}

/// The state after rewriting all of `lines` in order.
pub open spec fn edit_run(lines: Seq<Seq<char>>, name: Seq<char>, cover: Option<Seq<char>>) -> EditState
    decreases lines.len(),
{
    if lines.len() == 0 {
        EditState { out: Seq::empty(), cover, append_cover: true, append_name: true }
    } else {
        edit_step(edit_run(lines.drop_last(), name, cover), lines.last(), name)
    }
}

/// The lines of a renamed playlist: the rewritten lines, then the cover line
/// and the name line when they are still to be added.
pub open spec fn edited_lines(lines: Seq<Seq<char>>, name: Seq<char>, cover: Option<Seq<char>>) -> Seq<
    Seq<char>,
> {
    let st = edit_run(lines, name, cover);
    st.out + (if st.append_cover {
        seq!["#EXTALBUMARTURL:"@ + st.cover.unwrap()]
    } else {
        Seq::empty()
    }) + (if st.append_name {
        seq!["#PLAYLIST:"@ + name]
    } else {
        Seq::empty()
    })
}

/// The text of an optional string slice.
pub open spec fn opt_str(s: Option<&str>) -> Option<Seq<char>> {
    match s {
        Some(t) => Some(t@),
        None => None,
    }
}

/// Renames a playlist and sets its cover art, line by line (see
/// `edit_step`); the file holds each resulting line followed by a line
/// break. An empty playlist needs a cover to write.
pub fn edit_playlist_lines(lines: &Vec<String>, name: &str, cover: Option<&str>) -> (out: Vec<String>)
    requires
        lines@.len() > 0 || cover is Some,
    ensures
        line_texts(out@) == edited_lines(line_texts(lines@), name@, opt_str(cover)),
{
    let ghost view = line_texts(lines@);
    let mut out: Vec<String> = Vec::new();
    let mut pending: Option<String> = match cover {
        Some(c) => Some(c.to_owned()),
        None => None,
    };
    let mut append_cover = true;
    let mut append_name = true;
    proof {
        assert(view.take(0) =~= Seq::<Seq<char>>::empty());
        assert(line_texts(out@) =~= Seq::<Seq<char>>::empty());
    }
    let mut i: usize = 0;
    while i < lines.len()
        invariant
            i <= lines@.len(),
            view == line_texts(lines@),
            edit_run(view.take(i as int), name@, opt_str(cover)) == (EditState {
                out: line_texts(out@),
                cover: opt_text(pending),
                append_cover,
                append_name,
            }),
            i > 0 && append_cover ==> pending is Some,
            i == 0 ==> append_cover && opt_text(pending) == opt_str(cover),
        decreases lines@.len() - i,
    {
        let entry: &str = lines[i].as_str();
        let ghost before = out@;
        proof {
            assert(view.take(i + 1).drop_last() =~= view.take(i as int));
            assert(view.take(i + 1).last() == entry@);
        }
        let is_name = find_text(entry, "#PLAYLIST:").is_some();
        let mut new_line: String = if is_name {
            append_name = false;
            joined("#PLAYLIST:", name)
        } else {
            entry.to_owned()
        };
        if find_text(entry, "#EXTALBUMARTURL:").is_some() {
            append_cover = false;
            new_line = match pending.take() {
                Some(path) => joined("#EXTALBUMARTURL:", path.as_str()),
                None => "blank".to_owned(),
            };
        } else {
            append_cover = pending.is_some();
        }
        if find_text(new_line.as_str(), "blank").is_none() {
            out.push(new_line);
            proof {
                assert(line_texts(out@) =~= line_texts(before).push(out@.last()@));
            }
        }
        i += 1;
    }
    proof {
        assert(view.take(i as int) =~= view);
    }
    let ghost kept = out@;
    if append_cover {
        let path = match pending.take() {
            Some(p) => p,
            None => String::new(),
        };
        out.push(joined("#EXTALBUMARTURL:", path.as_str()));
    }
    let ghost with_cover = out@;
    if append_name {
        out.push(joined("#PLAYLIST:", name));
    }
    proof {
        let st = edit_run(view, name@, opt_str(cover));
        let tail_cover: Seq<Seq<char>> = if st.append_cover {
            seq!["#EXTALBUMARTURL:"@ + st.cover.unwrap()]
        } else {
            Seq::empty()
        };
        let tail_name: Seq<Seq<char>> = if st.append_name {
            seq!["#PLAYLIST:"@ + name@]
        } else {
            Seq::empty()
        };
        assert(line_texts(with_cover) =~= line_texts(kept) + tail_cover);
        assert(line_texts(out@) =~= line_texts(kept) + tail_cover + tail_name);
    }
    out
}


/// No line of `s` holds `t`.
pub open spec fn no_line_holds(s: Seq<Seq<char>>, t: Seq<char>) -> bool {
    forall|j: int| 0 <= j < s.len() ==> !contains_text(#[trigger] s[j], t)
}

/// `line` is a line of `s`, and every other line of `s` is free of `t`.
pub open spec fn only_line_holding(s: Seq<Seq<char>>, t: Seq<char>, line: Seq<char>) -> bool {
    exists|i: int|
        0 <= i < s.len() && s[i] == line && forall|j: int|
            0 <= j < s.len() && j != i ==> !contains_text(#[trigger] s[j], t)
}

/// While a new cover is being written, the rewritten lines hold no cover
/// line until the first cover line of the playlist takes the new cover;
/// from then on the new cover line is the only cover line.
proof fn lemma_edit_run_cover(lines: Seq<Seq<char>>, name: Seq<char>, cover: Seq<char>)
    requires
        !contains_text("#EXTALBUMARTURL:"@ + cover, "blank"@),
        !contains_text("#PLAYLIST:"@ + name, "#EXTALBUMARTURL:"@),
    ensures
        ({
            let st = edit_run(lines, name, Some(cover));
            ||| st.cover == Some(cover) && st.append_cover && no_line_holds(st.out, "#EXTALBUMARTURL:"@)
            ||| st.cover is None && !st.append_cover && only_line_holding(
                st.out,
                "#EXTALBUMARTURL:"@,
                "#EXTALBUMARTURL:"@ + cover,
            )
        }),
    decreases lines.len(),
{
    let m = "#EXTALBUMARTURL:"@;
    let l = m + cover;
    if lines.len() > 0 {
        lemma_edit_run_cover(lines.drop_last(), name, cover);
        let st = edit_run(lines.drop_last(), name, Some(cover));
        let x = lines.last();
        let st2 = edit_step(st, x, name);
        assert(st2 == edit_run(lines, name, Some(cover)));
        if contains_text(x, m) {
            if st.cover is Some {
                assert(st2.out == st.out.push(l));
                assert(0 <= st.out.len() < st2.out.len() && st2.out[st.out.len() as int] == l);
                assert forall|j: int|
                    0 <= j < st2.out.len() && j != st.out.len() implies !contains_text(
                    #[trigger] st2.out[j],
                    m,
                ) by {
                    assert(st2.out[j] == st.out[j]);
                }
            } else {
                assert(contains_text("blank"@, "blank"@)) by {
                    assert("blank"@.subrange(0, "blank"@.len() as int) =~= "blank"@);
                    assert(occurs_at("blank"@, "blank"@, 0));
                }
                assert(st2.out == st.out);
            }
        } else {
            let named = if contains_text(x, "#PLAYLIST:"@) {
                "#PLAYLIST:"@ + name
            } else {
                x
            };
            assert(!contains_text(named, m));
            if st.cover is Some {
                assert forall|j: int| 0 <= j < st2.out.len() implies !contains_text(
                    #[trigger] st2.out[j],
                    m,
                ) by {
                    if j < st.out.len() {
                        assert(st2.out[j] == st.out[j]);
                    }
                }
            } else {
                let i = choose|i: int|
                    0 <= i < st.out.len() && st.out[i] == l && forall|j: int|
                        0 <= j < st.out.len() && j != i ==> !contains_text(#[trigger] st.out[j], m);
                assert(st2.out[i] == l);
                assert forall|j: int| 0 <= j < st2.out.len() && j != i implies !contains_text(
                    #[trigger] st2.out[j],
                    m,
                ) by {
                    if j < st.out.len() {
                        assert(st2.out[j] == st.out[j]);
                    }
                }
            }
        }
    }
}

/// When a new cover is given, the edited playlist holds exactly one cover
/// line, the one naming the new cover, whether or not the playlist had a
/// cover line or a name line before. (A line holding `blank` is dropped, so
/// the cover line must not hold it; and the name line must not look like a
/// cover line.)
pub proof fn law_edit_sets_cover(lines: Seq<Seq<char>>, name: Seq<char>, cover: Seq<char>)
    requires
        !contains_text("#EXTALBUMARTURL:"@ + cover, "blank"@),
        !contains_text("#PLAYLIST:"@ + name, "#EXTALBUMARTURL:"@),
    ensures
        only_line_holding(
            edited_lines(lines, name, Some(cover)),
            "#EXTALBUMARTURL:"@,
            "#EXTALBUMARTURL:"@ + cover,
        ),
{
    let m = "#EXTALBUMARTURL:"@;
    let l = m + cover;
    let nl = "#PLAYLIST:"@ + name;
    lemma_edit_run_cover(lines, name, cover);
    let st = edit_run(lines, name, Some(cover));
    let e = edited_lines(lines, name, Some(cover));
    let tail_name: Seq<Seq<char>> = if st.append_name {
        seq![nl]
    } else {
        Seq::empty()
    };
    if st.cover is Some {
        assert(e == st.out + seq![l] + tail_name);
        assert(e[st.out.len() as int] == l);
        assert forall|j: int| 0 <= j < e.len() && j != st.out.len() implies !contains_text(
            #[trigger] e[j],
            m,
        ) by {
            if j < st.out.len() {
                assert(e[j] == st.out[j]);
            } else {
                assert(e[j] == nl);
            }
        }
    } else {
        assert(e == st.out + Seq::<Seq<char>>::empty() + tail_name);
        let i = choose|i: int|
            0 <= i < st.out.len() && st.out[i] == l && forall|j: int|
                0 <= j < st.out.len() && j != i ==> !contains_text(#[trigger] st.out[j], m);
        assert(e[i] == l);
        assert forall|j: int| 0 <= j < e.len() && j != i implies !contains_text(#[trigger] e[j], m) by {
            if j < st.out.len() {
                assert(e[j] == st.out[j]);
            } else {
                assert(e[j] == nl);
            }
        }
    }
}


/// Once a name line was read, the rewritten lines hold the new name line.
proof fn lemma_edit_run_name(lines: Seq<Seq<char>>, name: Seq<char>, cover: Option<Seq<char>>)
    requires
        !contains_text("#PLAYLIST:"@ + name, "blank"@),
        forall|i: int|
            0 <= i < lines.len() ==> !(contains_text(#[trigger] lines[i], "#PLAYLIST:"@) && contains_text(
                lines[i],
                "#EXTALBUMARTURL:"@,
            )),
    ensures
        !edit_run(lines, name, cover).append_name ==> edit_run(lines, name, cover).out.contains(
            "#PLAYLIST:"@ + name,
        ),
    decreases lines.len(),
{
    if lines.len() > 0 {
        let rest = lines.drop_last();
        assert forall|i: int|
            0 <= i < rest.len() implies !(contains_text(#[trigger] rest[i], "#PLAYLIST:"@) && contains_text(
            rest[i],
            "#EXTALBUMARTURL:"@,
        )) by {
            assert(rest[i] == lines[i]);
        }
        lemma_edit_run_name(rest, name, cover);
        let st = edit_run(rest, name, cover);
        let x = lines.last();
        let st2 = edit_step(st, x, name);
        assert(st2 == edit_run(lines, name, cover));
        assert(x == lines[lines.len() - 1]);
        if contains_text(x, "#PLAYLIST:"@) {
            assert(!contains_text(x, "#EXTALBUMARTURL:"@));
            assert(st2.out == st.out.push("#PLAYLIST:"@ + name));
            assert(st2.out[st.out.len() as int] == "#PLAYLIST:"@ + name);
        } else if !st2.append_name {
            let k = choose|k: int| 0 <= k < st.out.len() && st.out[k] == "#PLAYLIST:"@ + name;
            assert(st2.out[k] == st.out[k]);
        }
    }
}

/// The edited playlist always holds the line with the new name, whether the
/// playlist had a name line before or not. (A line holding `blank` is
/// dropped, so the name line must not hold it; and no line of the playlist
/// may be both a name line and a cover line, as the cover line would win.)
pub proof fn law_edit_sets_name(lines: Seq<Seq<char>>, name: Seq<char>, cover: Option<Seq<char>>)
    requires
        !contains_text("#PLAYLIST:"@ + name, "blank"@),
        forall|i: int|
            0 <= i < lines.len() ==> !(contains_text(#[trigger] lines[i], "#PLAYLIST:"@) && contains_text(
                lines[i],
                "#EXTALBUMARTURL:"@,
            )),
    ensures
        edited_lines(lines, name, cover).contains("#PLAYLIST:"@ + name),
{
    lemma_edit_run_name(lines, name, cover);
    let st = edit_run(lines, name, cover);
    let e = edited_lines(lines, name, cover);
    let tail_cover: Seq<Seq<char>> = if st.append_cover {
        seq!["#EXTALBUMARTURL:"@ + st.cover.unwrap()]
    } else {
        Seq::empty()
    };
    if st.append_name {
        assert(e == st.out + tail_cover + seq!["#PLAYLIST:"@ + name]);
        assert(e[e.len() - 1] == "#PLAYLIST:"@ + name);
    } else {
        assert(e == st.out + tail_cover + Seq::<Seq<char>>::empty());
        let k = choose|k: int| 0 <= k < st.out.len() && st.out[k] == "#PLAYLIST:"@ + name;
        assert(e[k] == st.out[k]);
    }
}

/// Without a cover, the rewritten lines hold no cover line.
proof fn lemma_edit_run_no_cover(lines: Seq<Seq<char>>, name: Seq<char>)
    requires
        !contains_text("#PLAYLIST:"@ + name, "#EXTALBUMARTURL:"@),
    ensures
        edit_run(lines, name, None).cover is None,
        no_line_holds(edit_run(lines, name, None).out, "#EXTALBUMARTURL:"@),
        lines.len() > 0 ==> !edit_run(lines, name, None).append_cover,
    decreases lines.len(),
{
    let m = "#EXTALBUMARTURL:"@;
    if lines.len() > 0 {
        lemma_edit_run_no_cover(lines.drop_last(), name);
        let st = edit_run(lines.drop_last(), name, None);
        let x = lines.last();
        let st2 = edit_step(st, x, name);
        assert(st2 == edit_run(lines, name, None));
        if contains_text(x, m) {
            assert(contains_text("blank"@, "blank"@)) by {
                assert("blank"@.subrange(0, "blank"@.len() as int) =~= "blank"@);
                assert(occurs_at("blank"@, "blank"@, 0));
            }
            assert(st2.out == st.out);
        } else {
            assert forall|j: int| 0 <= j < st2.out.len() implies !contains_text(#[trigger] st2.out[j], m) by {
                if j < st.out.len() {
                    assert(st2.out[j] == st.out[j]);
                }
            }
        }
    }
}

/// Editing a playlist without a cover clears its cover art: no line of the
/// edited playlist is a cover line (the name line must not look like one).
pub proof fn law_edit_without_cover_clears_it(lines: Seq<Seq<char>>, name: Seq<char>)
    requires
        lines.len() > 0,
        !contains_text("#PLAYLIST:"@ + name, "#EXTALBUMARTURL:"@),
    ensures
        no_line_holds(edited_lines(lines, name, None), "#EXTALBUMARTURL:"@),
{
    lemma_edit_run_no_cover(lines, name);
    let st = edit_run(lines, name, None);
    let e = edited_lines(lines, name, None);
    let tail_name: Seq<Seq<char>> = if st.append_name {
        seq!["#PLAYLIST:"@ + name]
    } else {
        Seq::empty()
    };
    assert(e == st.out + Seq::<Seq<char>>::empty() + tail_name);
    assert forall|j: int| 0 <= j < e.len() implies !contains_text(#[trigger] e[j], "#EXTALBUMARTURL:"@) by {
        if j < st.out.len() {
            assert(e[j] == st.out[j]);
        } else {
            assert(e[j] == "#PLAYLIST:"@ + name);
        }
    }
}


/// A plain playlist line: neither a name line nor a cover line, and not
/// holding `blank` (such lines are dropped). The tracks of a playlist are
/// listed on plain lines.
pub open spec fn is_plain_line(l: Seq<char>) -> bool {
    &&& !contains_text(l, "#PLAYLIST:"@)
    &&& !contains_text(l, "#EXTALBUMARTURL:"@)
    &&& !contains_text(l, "blank"@)
}

/// A text holds what it starts with.
proof fn lemma_starts_with(a: Seq<char>, b: Seq<char>)
    ensures
        contains_text(a + b, a),
{
    assert((a + b).subrange(0, a.len() as int) =~= a);
    assert(occurs_at(a + b, a, 0));
}

/// The plain lines of an empty or one-line sequence.
proof fn lemma_filter_small(x: Seq<char>)
    ensures
        Seq::<Seq<char>>::empty().filter(|l: Seq<char>| is_plain_line(l)) == Seq::<Seq<char>>::empty(),
        !is_plain_line(x) ==> seq![x].filter(|l: Seq<char>| is_plain_line(l)) == Seq::<Seq<char>>::empty(),
{
    let pred = |l: Seq<char>| is_plain_line(l);
    Seq::<Seq<char>>::empty().lemma_filter_len(pred);
    Seq::<Seq<char>>::empty().lemma_filter_push(x, pred);
    assert(Seq::<Seq<char>>::empty().push(x) =~= seq![x]);
}

/// Rewriting keeps the plain lines read so far, in order.
proof fn lemma_edit_run_plain(lines: Seq<Seq<char>>, name: Seq<char>, cover: Option<Seq<char>>)
    ensures
        edit_run(lines, name, cover).out.filter(|l: Seq<char>| is_plain_line(l)) == lines.filter(
            |l: Seq<char>| is_plain_line(l),
        ),
    decreases lines.len(),
{
    let pred = |l: Seq<char>| is_plain_line(l);
    if lines.len() == 0 {
        lemma_filter_small(seq![]);
    } else {
        let rest = lines.drop_last();
        let x = lines.last();
        lemma_edit_run_plain(rest, name, cover);
        let st = edit_run(rest, name, cover);
        let st2 = edit_step(st, x, name);
        assert(st2 == edit_run(lines, name, cover));
        assert(lines =~= rest.push(x));
        rest.lemma_filter_push(x, pred);
        lemma_starts_with("#PLAYLIST:"@, name);
        lemma_starts_with("#EXTALBUMARTURL:"@, st.cover.unwrap());
        assert(contains_text("blank"@, "blank"@)) by {
            assert("blank"@.subrange(0, "blank"@.len() as int) =~= "blank"@);
            assert(occurs_at("blank"@, "blank"@, 0));
        }
        if st2.out.len() != st.out.len() {
            assert(st2.out == st.out.push(st2.out.last()));
            st.out.lemma_filter_push(st2.out.last(), pred);
        }
    }
}

/// Editing a playlist keeps its plain lines (the tracks it lists) exactly
/// and in order: only name lines, cover lines and lines holding `blank`
/// change.
pub proof fn law_edit_keeps_plain_lines(lines: Seq<Seq<char>>, name: Seq<char>, cover: Option<Seq<char>>)
    ensures
        edited_lines(lines, name, cover).filter(|l: Seq<char>| is_plain_line(l)) == lines.filter(
            |l: Seq<char>| is_plain_line(l),
        ),
{
    let pred = |l: Seq<char>| is_plain_line(l);
    lemma_edit_run_plain(lines, name, cover);
    let st = edit_run(lines, name, cover);
    let cl = "#EXTALBUMARTURL:"@ + st.cover.unwrap();
    let nl = "#PLAYLIST:"@ + name;
    lemma_starts_with("#PLAYLIST:"@, name);
    lemma_starts_with("#EXTALBUMARTURL:"@, st.cover.unwrap());
    lemma_filter_small(cl);
    lemma_filter_small(nl);
    let tail_cover: Seq<Seq<char>> = if st.append_cover {
        seq![cl]
    } else {
        Seq::empty()
    };
    let tail_name: Seq<Seq<char>> = if st.append_name {
        seq![nl]
    } else {
        Seq::empty()
    };
    assert(edited_lines(lines, name, cover) == st.out + tail_cover + tail_name);
    Seq::filter_distributes_over_add(st.out, tail_cover, pred);
    Seq::filter_distributes_over_add(st.out + tail_cover, tail_name, pred);
    assert(tail_cover.filter(pred) =~= Seq::<Seq<char>>::empty());
    assert(tail_name.filter(pred) =~= Seq::<Seq<char>>::empty());
    assert(st.out.filter(pred) + Seq::<Seq<char>>::empty() =~= st.out.filter(pred));
}

} // verus!
