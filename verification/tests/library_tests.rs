use nova_music::albums::{sort_by_track_number, AlbumTrack};
use nova_music::audio::{loop_state_toggled, LoopState as AudioLoop};
use nova_music::config::SortOrder;
use nova_music::grid::grid_layout;
use nova_music::novasink::NovaSink;
use nova_music::playlists::{edit_playlist_lines, find_text, parse_m3u, playlist_lines};
use nova_music::shuffle::shuffle_queue;
use nova_music::track::{AppTrack, AppTrackRow, CoverArt, QueuedTrack, QueuedTrackRow};
use nova_music::tracks::{group_search_results, hits_in_range, SearchResult};

fn track(id: u32) -> AppTrack {
    AppTrack {
        id,
        title: format!("t{id}"),
        artist: format!("artist{id}"),
        album_title: "album".to_string(),
        path_buf: format!("/tmp/{id}.mp3"),
        cover_art: CoverArt::Absent,
    }
}

fn lines(text: &str) -> Vec<String> {
    text.lines().map(|l| l.to_string()).collect()
}

#[test]
fn shuffle_queue_puts_current_first() {
    let mut queue: Vec<AppTrack> = (1..=6).map(track).collect();
    let mut pos = 3;
    shuffle_queue(&mut queue, &mut pos);
    assert_eq!(pos, 0);
    assert_eq!(queue[0].id, 4);
    let mut ids: Vec<u32> = queue.iter().map(|t| t.id).collect();
    ids.sort();
    assert_eq!(ids, vec![1, 2, 3, 4, 5, 6]);

    let mut single = vec![track(9)];
    let mut pos = 7;
    shuffle_queue(&mut single, &mut pos);
    assert_eq!(pos, 7);
    assert_eq!(single[0].id, 9);
}

#[test]
fn find_text_gives_first_occurrence() {
    assert_eq!(find_text("a - b - c", " - "), Some(1));
    assert_eq!(find_text("abc", "d"), None);
    assert_eq!(find_text("abc", ""), Some(0));
    assert_eq!(find_text("ab", "abc"), None);
    assert_eq!(find_text("ééx", "x"), Some(2));
}

#[test]
fn m3u_lines_are_read() {
    let text = "#EXTM3U\n#PLAYLIST:Mix\n#EXTINF:0,Band - Song\n/music/song.mp3\n#EXTINF:12,X - Y - Z\n/music/z.mp3\n";
    let tracks = parse_m3u(&lines(text)).ok().expect("readable");
    assert_eq!(tracks.len(), 2);
    assert_eq!(tracks[0].title, " Song");
    assert_eq!(tracks[0].path, "/music/song.mp3");
    assert_eq!(tracks[1].title, " Y - Z");
    assert_eq!(tracks[1].path, "/music/z.mp3");
}

#[test]
fn text_without_m3u_marker_lists_nothing() {
    let text = "#PLAYLIST:Mix\n#EXTM3U\n#EXTINF:0,Band - Song\n/music/song.mp3\n";
    assert_eq!(parse_m3u(&lines(text)).ok().map(|t| t.len()), Some(0));
}

#[test]
fn extinf_without_separator_is_an_error() {
    let text = "#EXTM3U\n#EXTINF:0,NoSeparator\n/music/a.mp3\n";
    assert_eq!(parse_m3u(&lines(text)).err(), Some(1));
}

#[test]
fn written_playlist_reads_back() {
    let tracks = vec![track(1), track(2)];
    let written = playlist_lines("Mix", "/covers/mix.png", &tracks);
    assert_eq!(written[0], "#EXTM3U ");
    assert_eq!(written[1], "#PLAYLIST:Mix");
    assert_eq!(written[2], "#EXTALBUMARTURL:/covers/mix.png");
    assert_eq!(written[3], "#EXTINF:0,artist1 - t1");
    assert_eq!(written[4], "/tmp/1.mp3");
    let read = parse_m3u(&written).ok().expect("readable");
    assert_eq!(read.len(), 2);
    assert_eq!(read[1].title, " t2");
    assert_eq!(read[1].path, "/tmp/2.mp3");
}

#[test]
fn search_results_group_by_score() {
    let tracks: Vec<AppTrack> = (0..4).map(track).collect();
    let results = vec![
        SearchResult { tracks_index: 2, score: 1 },
        SearchResult { tracks_index: 0, score: 4 },
        SearchResult { tracks_index: 3, score: 7 },
        SearchResult { tracks_index: 9, score: 0 },
        SearchResult { tracks_index: 1, score: 9 },
        SearchResult { tracks_index: 1, score: 2 },
    ];
    let (t, a, r) = group_search_results(&results, &tracks, (true, true, true));
    assert_eq!(t.iter().map(|x| x.id).collect::<Vec<_>>(), vec![2, 1]);
    assert_eq!(a.iter().map(|x| x.id).collect::<Vec<_>>(), vec![0]);
    assert_eq!(r.iter().map(|x| x.id).collect::<Vec<_>>(), vec![3]);
    let (t, a, r) = group_search_results(&results, &tracks, (false, true, false));
    assert!(t.is_empty() && r.is_empty());
    assert_eq!(a.len(), 1);
}

#[test]
fn album_tracks_sort_stably_by_number() {
    let mk = |name: &str, n: u32| AlbumTrack {
        name: name.to_string(),
        file_path: format!("/a/{name}"),
        track_number: n,
        disc_number: 1,
    };
    let tracks = vec![mk("c", 3), mk("a1", 1), mk("b", 2), mk("a2", 1), mk("z", 0)];
    let sorted = sort_by_track_number(&tracks);
    let names: Vec<&str> = sorted.iter().map(|t| t.name.as_str()).collect();
    assert_eq!(names, vec!["z", "a1", "a2", "b", "c"]);
}

#[test]
fn get_by_id_builds_tracks_or_reports_failure() {
    let found = QueuedTrack::get_by_id(4, |id| {
        Ok(QueuedTrackRow { id, title: "Song".to_string(), path: "/m/s.mp3".to_string() })
    });
    assert_eq!(
        found,
        Ok(QueuedTrack { id: 4, title: "Song".to_string(), path_buf: "/m/s.mp3".to_string() })
    );
    let missing = QueuedTrack::get_by_id(5, |_| Err("Query returned no rows".to_string()));
    assert_eq!(missing, Err("Failed:Query returned no rows".to_string()));

    let full = AppTrack::get_by_id(6, |id| {
        Ok(AppTrackRow {
            id,
            title: "T".to_string(),
            artist: "Ar".to_string(),
            album_title: None,
            path: "/m/t.flac".to_string(),
            cover: Some(vec![1, 2, 3]),
        })
    })
    .ok()
    .expect("found");
    assert_eq!(full.id, 6);
    assert_eq!(full.album_title, "");
    assert_eq!(full.cover_art, CoverArt::SomeLoaded(vec![1, 2, 3]));
    let queued = full.to_queued_track();
    assert_eq!(queued.path_buf, "/m/t.flac");
    assert_eq!(AppTrack::get_by_id(1, |_| Err("x".to_string())).err(), Some("Failed:x".to_string()));
}

#[test]
fn small_state_cycles() {
    assert_eq!(SortOrder::Ascending.toggled(), SortOrder::Descending);
    assert_eq!(SortOrder::Descending.toggled(), SortOrder::Ascending);
    let mut ls = AudioLoop::NotLooping;
    for expected in [AudioLoop::LoopingQueue, AudioLoop::LoopingTrack, AudioLoop::RandomShuffle, AudioLoop::NotLooping] {
        ls = loop_state_toggled(ls);
        assert_eq!(ls, expected);
    }
    let _sink = NovaSink::new();
}

#[test]
fn shuffle_queue_reorders_the_rest() {
    let mut changed = false;
    for _ in 0..5 {
        let mut queue: Vec<AppTrack> = (1..=12).map(track).collect();
        let mut pos = 0;
        shuffle_queue(&mut queue, &mut pos);
        let ids: Vec<u32> = queue.iter().map(|t| t.id).collect();
        assert_eq!(ids[0], 1);
        if ids != (1..=12).collect::<Vec<u32>>() {
            changed = true;
        }
    }
    assert!(changed);
}

#[test]
fn grid_layout_counts_items_and_spacing() {
    assert_eq!(grid_layout(1000, 3), (10, 4));
    assert_eq!(grid_layout(100, 3), (1, 4));
    assert_eq!(grid_layout(96, 3), (0, 96));
    assert_eq!(grid_layout(400, 4), (3, 8));
}

#[test]
fn hits_in_range_keeps_scores_in_range() {
    let results = vec![
        SearchResult { tracks_index: 2, score: 1 },
        SearchResult { tracks_index: 0, score: 4 },
        SearchResult { tracks_index: 7, score: 0 },
        SearchResult { tracks_index: 1, score: 2 },
    ];
    assert_eq!(hits_in_range(&results, 3, 0, 2), vec![2, 1]);
    assert_eq!(hits_in_range(&results, 3, 3, 5), vec![0]);
}

fn owned(v: &[&str]) -> Vec<String> {
    v.iter().map(|l| l.to_string()).collect()
}

#[test]
fn edited_playlist_replaces_name_and_cover() {
    let old = lines("#EXTM3U\n#PLAYLIST:Old\n#EXTALBUMARTURL:/old.png\n#EXTINF:1,a - b\n/music/b.mp3\n");
    let out = edit_playlist_lines(&old, "New", Some("/new.png"));
    assert_eq!(
        out,
        owned(&["#EXTM3U", "#PLAYLIST:New", "#EXTALBUMARTURL:/new.png", "#EXTINF:1,a - b", "/music/b.mp3"])
    );
}

#[test]
fn edited_playlist_without_cover_drops_cover_line() {
    let old = lines("#EXTM3U\n#PLAYLIST:Old\n#EXTALBUMARTURL:/old.png\n/music/b.mp3\n");
    let out = edit_playlist_lines(&old, "New", None);
    assert_eq!(out, owned(&["#EXTM3U", "#PLAYLIST:New", "/music/b.mp3"]));
}

#[test]
fn edited_playlist_appends_missing_cover_and_name() {
    let old = lines("#EXTM3U\n/music/a.mp3\n");
    let out = edit_playlist_lines(&old, "Mix", Some("/c.png"));
    assert_eq!(out, owned(&["#EXTM3U", "/music/a.mp3", "#EXTALBUMARTURL:/c.png", "#PLAYLIST:Mix"]));
}

#[test]
fn edited_empty_playlist_gets_cover_and_name() {
    let out = edit_playlist_lines(&Vec::new(), "X", Some("/c.png"));
    assert_eq!(out, owned(&["#EXTALBUMARTURL:/c.png", "#PLAYLIST:X"]));
}

#[test]
fn edited_playlist_drops_lines_holding_blank() {
    let old = lines("#EXTM3U\n/music/blank.mp3\n#PLAYLIST:A\n");
    let out = edit_playlist_lines(&old, "B", None);
    assert_eq!(out, owned(&["#EXTM3U", "#PLAYLIST:B"]));
}
