use nova_music::queue::{keep_first, OrderIter, ShuffleState, TrackQueue};
use nova_music::track::{AppTrack, CoverArt};
use std::collections::HashSet;

/// Create a lightweight test track.
fn track(id: u32) -> AppTrack {
    AppTrack {
        id,
        title: format!("t{id}"),
        artist: "artist".to_string(),
        album_title: "album".to_string(),
        path_buf: format!("/tmp/{id}.mp3"),
        cover_art: CoverArt::Absent,
    }
}

/// Collect the indices a playback-order cursor gives out.
fn collect(mut it: OrderIter<'_>) -> Vec<usize> {
    let mut out = Vec::new();
    while let Some(i) = it.next() {
        out.push(i);
    }
    out
}

/// Assert that `order` is a permutation of 0..len.
fn assert_is_permutation(order: &[usize], len: usize) {
    assert_eq!(order.len(), len);
    let mut set = HashSet::new();
    for &i in order {
        assert!(i < len);
        set.insert(i);
    }
    assert_eq!(set.len(), len);
}

/// Linear navigation supports forward/back and wrapping.
#[test]
fn linear_next_prev_and_wrap() {
    let mut q = TrackQueue::new_linear();
    q.set_tracks(vec![track(1), track(2), track(3)]);

    assert_eq!(q.current_track_index(), Some(0));
    assert_eq!(q.next(false), Some(1));
    assert_eq!(q.current_track_index(), Some(1));
    assert_eq!(q.prev(false), Some(0));
    assert_eq!(q.current_track_index(), Some(0));
    assert_eq!(q.prev(false), None);

    q.set_current_track_index(2);
    assert_eq!(q.next(false), None);
    assert_eq!(q.next(true), Some(0));
    assert_eq!(q.current_track_index(), Some(0));
}

/// Enabling shuffle keeps current track at the front of playback order.
#[test]
fn shuffle_keeps_current_front() {
    let mut q = TrackQueue::new_shufflable();
    q.set_tracks(vec![track(1), track(2), track(3), track(4)]);
    q.set_current_track_index(2);

    q.enable_shuffle();
    assert_eq!(q.shuffle_state(), ShuffleState::Enabled);

    let order: Vec<usize> = collect(q.playback_order_indices());
    assert_eq!(order.first().copied(), Some(2));
    assert_is_permutation(&order, 4);

    q.disable_shuffle();
    let linear: Vec<usize> = collect(q.playback_order_indices());
    assert_eq!(linear, vec![0, 1, 2, 3]);
}

/// Removing and inserting in shuffle keeps valid order indices.
#[test]
fn shuffle_remove_and_insert_keeps_consistent_order() {
    let mut q = TrackQueue::new_shufflable();
    q.set_tracks(vec![track(1), track(2), track(3), track(4)]);
    q.enable_shuffle();

    let _ = q.remove_at(1);
    let order: Vec<usize> = collect(q.playback_order_indices());
    assert_is_permutation(&order, 3);
    assert!(q.current_track_index().unwrap_or(0) < q.len());

    q.insert_one_at(1, track(5));
    let order_after: Vec<usize> = collect(q.playback_order_indices());
    assert_is_permutation(&order_after, 4);
}

/// Stepping forward then back returns to the same track.
#[test]
fn next_then_prev_returns_to_same_track() {
    let mut q = TrackQueue::new_shufflable();
    q.set_tracks(vec![track(1), track(2), track(3), track(4), track(5)]);
    q.set_current_track_index(1);
    q.enable_shuffle();
    let start = q.current_track_index();
    assert!(q.next(false).is_some());
    assert_eq!(q.prev(false), start);
    assert_eq!(q.current_track_index(), start);
    assert_eq!(q.current_playback_index(), Some(0));
}

/// Inserting one track and removing it again restores the queue.
#[test]
fn insert_then_remove_restores_queue() {
    let mut q = TrackQueue::new_shufflable();
    q.set_tracks(vec![track(1), track(2), track(3), track(4)]);
    q.set_current_track_index(2);
    q.enable_shuffle();
    let order_before = collect(q.playback_order_indices());
    let cursor_before = q.current_playback_index();
    q.insert_one_at(1, track(9));
    assert_eq!(q.len(), 5);
    assert_eq!(q.track_at(1).map(|t| t.id), Some(9));
    assert_eq!(q.current_track_index(), Some(3));
    let removed = q.remove_at(1);
    assert_eq!(removed.map(|t| t.id), Some(9));
    assert_eq!(collect(q.playback_order_indices()), order_before);
    assert_eq!(q.current_playback_index(), cursor_before);
    assert_eq!(q.current_track_index(), Some(2));
    let ids: Vec<u32> = q.tracks().iter().map(|t| t.id).collect();
    assert_eq!(ids, vec![1, 2, 3, 4]);
}

/// Shuffle is unavailable for empty or linear queues.
#[test]
fn shuffle_availability_follows_contents() {
    let mut q = TrackQueue::new_shufflable();
    assert_eq!(q.shuffle_state(), ShuffleState::Unavailable);
    q.enable_shuffle();
    assert_eq!(q.shuffle_state(), ShuffleState::Unavailable);
    q.push_back(track(1));
    assert_eq!(q.shuffle_state(), ShuffleState::Disabled);
    q.clear();
    assert_eq!(q.shuffle_state(), ShuffleState::Unavailable);
    assert!(q.is_empty());

    let mut lin = TrackQueue::new_linear();
    lin.set_tracks(vec![track(1), track(2)]);
    lin.enable_shuffle();
    assert_eq!(lin.shuffle_state(), ShuffleState::Unavailable);
    assert!(!lin.is_shuffle_enabled());
}

/// New tracks in a shuffled queue play after the existing shuffle order.
#[test]
fn shuffled_insert_keeps_existing_order() {
    let mut q = TrackQueue::new_shufflable();
    q.set_tracks(vec![track(1), track(2), track(3)]);
    q.enable_shuffle();
    let before = collect(q.playback_order_indices());
    q.extend_back(vec![track(4), track(5)]);
    let after = collect(q.playback_order_indices());
    assert_eq!(&after[..3], &before[..]);
    assert_eq!(&after[3..], &[3, 4]);
}

/// Inserting after the current track and at an index past the end.
#[test]
fn insert_after_current_and_past_end() {
    let mut q = TrackQueue::new_linear();
    q.set_tracks(vec![track(1), track(2), track(3)]);
    q.set_current_track_index(1);
    q.insert_one_after_current(track(7));
    let ids: Vec<u32> = q.tracks().iter().map(|t| t.id).collect();
    assert_eq!(ids, vec![1, 2, 7, 3]);
    assert_eq!(q.current_track_index(), Some(1));
    q.insert_many_at(99, vec![track(8), track(9)]);
    let ids: Vec<u32> = q.tracks().iter().map(|t| t.id).collect();
    assert_eq!(ids, vec![1, 2, 7, 3, 8, 9]);
    q.insert_many_after_current(vec![track(5), track(6)]);
    let ids: Vec<u32> = q.tracks().iter().map(|t| t.id).collect();
    assert_eq!(ids, vec![1, 2, 5, 6, 7, 3, 8, 9]);
}

/// Removing the current last track selects the new last track.
#[test]
fn remove_current_last_selects_new_last() {
    let mut q = TrackQueue::new_linear();
    q.set_tracks(vec![track(1), track(2), track(3)]);
    q.set_current_track_index(2);
    assert_eq!(q.remove_at(2).map(|t| t.id), Some(3));
    assert_eq!(q.current_track_index(), Some(1));
    assert!(q.remove_at(5).is_none());
    assert_eq!(q.len(), 2);
    assert_eq!(q.current_track().map(|t| t.id), Some(2));
}

/// Selecting by playback index follows the shuffle order.
#[test]
fn playback_index_follows_shuffle_order() {
    let mut q = TrackQueue::new_shufflable();
    q.set_tracks(vec![track(1), track(2), track(3), track(4)]);
    q.enable_shuffle();
    let order = collect(q.playback_order_indices());
    q.set_current_playback_index(2);
    assert_eq!(q.current_track_index(), Some(order[2]));
    assert_eq!(q.current_playback_index(), Some(2));
    assert_eq!(q.prev(true), Some(order[1]));
    q.set_current_playback_index(3);
    assert_eq!(q.next(true), Some(order[0]));
}

/// Enabling shuffle on many tracks reorders them, keeping the current first.
#[test]
fn shuffle_reorders_tracks() {
    let mut changed = false;
    for _ in 0..5 {
        let mut q = TrackQueue::new_shufflable();
        q.set_tracks((0..12).map(track).collect());
        q.enable_shuffle();
        let order = collect(q.playback_order_indices());
        assert_is_permutation(&order, 12);
        assert_eq!(order[0], 0);
        if order != (0..12).collect::<Vec<usize>>() {
            changed = true;
        }
    }
    assert!(changed);
}

#[test]
fn keep_first_swaps_current_to_front() {
    assert_eq!(keep_first(vec![3, 1, 2, 0], 2), vec![2, 1, 3, 0]);
    assert_eq!(keep_first(vec![1, 2, 2], 2), vec![2, 1, 2]);
    assert_eq!(keep_first(vec![4, 5], 4), vec![4, 5]);
}

#[test]
fn keep_first_leaves_order_without_current() {
    assert_eq!(keep_first(vec![3, 1], 5), vec![3, 1]);
    assert_eq!(keep_first(Vec::new(), 0), Vec::<usize>::new());
}
