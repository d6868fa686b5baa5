use nova_music::home::list_entries;
use nova_music::playback::{AdvanceOutcome, AdvanceReason, LoopState, PlaybackManager};
use nova_music::queue::ShuffleState;
use nova_music::track::{AppTrack, CoverArt};

/// Create a lightweight test track.
fn track(id: u32) -> AppTrack {
    AppTrack {
        id,
        title: format!("t{id}"),
        artist: "artist".to_string(),
        album_title: "album".to_string(),
        path_buf: format!("/tmp/{id}.mp3"),
        cover_art: CoverArt::Absent,
    }
}

/// Extract track ids for assertion convenience.
fn ids(tracks: &[AppTrack]) -> Vec<u32> {
    tracks.iter().map(|t| t.id).collect()
}

/// Play-next items are consumed before resuming context.
#[test]
fn play_next_inserts_before_context_resume() {
    let mut pm = PlaybackManager::new();
    pm.set_context_tracks(vec![track(1), track(2), track(3)]);
    pm.queue_next_many(vec![track(10), track(11)]);

    assert_eq!(pm.current_track().map(|t| t.id), Some(1));
    assert_eq!(ids(&pm.tracks_from_current()), vec![1, 10, 11, 2, 3]);

    assert!(pm.advance_next(false));
    assert_eq!(pm.current_track().map(|t| t.id), Some(10));
    assert!(pm.advance_next(false));
    assert_eq!(pm.current_track().map(|t| t.id), Some(11));
    assert!(pm.advance_next(false));
    assert_eq!(pm.current_track().map(|t| t.id), Some(2));
}

/// Upcoming lists exclude the current track and reflect queue priorities.
#[test]
fn upcoming_lists_exclude_current_and_prioritize_up_next() {
    let mut pm = PlaybackManager::new();
    pm.set_context_tracks(vec![track(1), track(2), track(3)]);
    pm.queue_last_many(vec![track(10), track(11)]);

    let up_next = pm.upcoming_up_next_global_indices();
    let context = pm.upcoming_context_global_indices();

    assert_eq!(up_next, vec![0, 1]);
    assert_eq!(context, vec![3, 4]);
}

/// Selecting a history item resumes playback from that position.
#[test]
fn history_jump_resumes_from_selected_track() {
    let mut pm = PlaybackManager::new();
    pm.set_context_tracks(vec![track(1), track(2), track(3)]);

    assert!(pm.advance_next(false));
    assert_eq!(pm.current_track().map(|t| t.id), Some(2));

    let played = pm.played_global_indices();
    assert_eq!(played, vec![0]);

    pm.set_current_global_index(0);
    assert_eq!(pm.current_track().map(|t| t.id), Some(1));
    assert_eq!(ids(&pm.tracks_from_current()), vec![1, 2, 3]);
}

/// Up-next plays before context on advance.
#[test]
fn up_next_plays_before_context_wraps_back() {
    let mut pm = PlaybackManager::new();
    pm.set_context_tracks(vec![track(1), track(2)]);
    pm.queue_next(track(10));

    assert_eq!(pm.current_track().map(|t| t.id), Some(1));
    assert!(pm.advance_next(false));
    assert_eq!(pm.current_track().map(|t| t.id), Some(10));
    assert!(pm.advance_next(false));
    assert_eq!(pm.current_track().map(|t| t.id), Some(2));
}

/// LoopingTrack restarts the current track on natural end.
#[test]
fn looping_track_restarts_on_natural_end() {
    let mut pm = PlaybackManager::new();
    pm.loop_state = LoopState::LoopingTrack;
    pm.set_context_tracks(vec![track(1), track(2)]);

    let outcome = pm.advance(AdvanceReason::Natural);
    assert_eq!(outcome, AdvanceOutcome::RestartCurrent);
    assert_eq!(pm.current_track().map(|t| t.id), Some(1));
}

/// Skip does not wrap when not looping the queue.
#[test]
fn skip_does_not_wrap_without_loop_queue() {
    let mut pm = PlaybackManager::new();
    pm.loop_state = LoopState::NotLooping;
    pm.set_context_tracks(vec![track(1)]);

    let outcome = pm.advance(AdvanceReason::Skip);
    assert_eq!(outcome, AdvanceOutcome::NoChange);
    assert_eq!(pm.current_track().map(|t| t.id), Some(1));
}

/// Natural end in NotLooping resets to start and pauses.
#[test]
fn natural_end_resets_to_start_when_not_looping() {
    let mut pm = PlaybackManager::new();
    pm.loop_state = LoopState::NotLooping;
    pm.set_context_tracks(vec![track(1), track(2)]);
    assert!(pm.advance_next(false));
    assert_eq!(pm.current_track().map(|t| t.id), Some(2));

    let outcome = pm.advance(AdvanceReason::Natural);
    assert_eq!(outcome, AdvanceOutcome::Ended);
    assert_eq!(pm.current_track().map(|t| t.id), Some(1));
}

/// LoopingQueue wraps context but does not wrap up-next.
#[test]
fn looping_queue_wraps_context_only() {
    let mut pm = PlaybackManager::new();
    pm.loop_state = LoopState::LoopingQueue;
    pm.set_context_tracks(vec![track(1), track(2)]);
    pm.queue_next(track(10));

    assert!(pm.advance_next(false));
    assert_eq!(pm.current_track().map(|t| t.id), Some(10));
    assert!(pm.advance_next(false));
    assert_eq!(pm.current_track().map(|t| t.id), Some(2));

    let outcome = pm.advance(AdvanceReason::Natural);
    assert_eq!(outcome, AdvanceOutcome::Moved);
    assert_eq!(pm.current_track().map(|t| t.id), Some(1));
}

/// Loop state is unavailable when empty and becomes toggleable once tracks exist.
#[test]
fn loop_state_unavailable_until_tracks_exist() {
    let mut pm = PlaybackManager::new();
    assert_eq!(pm.loop_state(), LoopState::Unavailable);
    assert_eq!(pm.toggle_loop_state(), LoopState::Unavailable);

    pm.queue_next(track(1));
    assert_eq!(pm.loop_state(), LoopState::NotLooping);
    assert_eq!(pm.toggle_loop_state(), LoopState::LoopingTrack);
}

/// Three toggles of an available loop state come back to it.
#[test]
fn loop_toggle_cycles_through_three_states() {
    let mut pm = PlaybackManager::new();
    pm.set_context_tracks(vec![track(1)]);
    assert_eq!(pm.toggle_loop_state(), LoopState::LoopingTrack);
    assert_eq!(pm.toggle_loop_state(), LoopState::LoopingQueue);
    assert_eq!(pm.toggle_loop_state(), LoopState::NotLooping);
    pm.clear_all();
    assert_eq!(pm.loop_state(), LoopState::Unavailable);
}

/// Jumping to a global index makes it current, in both queues.
#[test]
fn jump_to_global_index_selects_it() {
    let mut pm = PlaybackManager::new();
    pm.set_context_tracks(vec![track(1), track(2), track(3)]);
    pm.queue_last_many(vec![track(10), track(11)]);
    assert_eq!(pm.total_len(), 5);
    pm.set_current_global_index(1);
    assert_eq!(pm.current_global_index(), Some(1));
    assert_eq!(pm.current_track().map(|t| t.id), Some(11));
    pm.set_current_global_index(4);
    assert_eq!(pm.current_global_index(), Some(4));
    assert_eq!(pm.current_track().map(|t| t.id), Some(3));
    assert_eq!(pm.track_by_global_index(2).map(|t| t.id), Some(1));
    assert!(pm.track_by_global_index(5).is_none());
    pm.set_current_global_index(9);
    assert_eq!(pm.current_global_index(), Some(4));
}

/// Played, current and upcoming indices cover every index exactly once.
#[test]
fn played_current_upcoming_partition_indices() {
    let mut pm = PlaybackManager::new();
    pm.set_context_tracks(vec![track(1), track(2), track(3), track(4)]);
    pm.queue_next_many(vec![track(10), track(11)]);
    assert!(pm.advance_next(false));
    assert!(pm.advance_next(false));
    assert_eq!(pm.current_track().map(|t| t.id), Some(11));
    let current = pm.current_global_index().unwrap();
    let mut all = pm.played_global_indices();
    all.push(current);
    all.extend(pm.upcoming_global_indices());
    all.sort();
    assert_eq!(all, vec![0, 1, 2, 3, 4, 5]);
    assert_eq!(pm.played_up_next_global_indices(), vec![0]);
    assert_eq!(pm.played_context_global_indices(), vec![2]);
    assert_eq!(pm.upcoming_context_global_indices(), vec![3, 4, 5]);
    assert_eq!(pm.upcoming_up_next_global_indices(), Vec::<usize>::new());
}

/// A track queued to play next is what plays next, from up-next too.
#[test]
fn queued_next_plays_next() {
    let mut pm = PlaybackManager::new();
    pm.set_context_tracks(vec![track(1), track(2)]);
    pm.queue_last(track(10));
    assert!(pm.advance_next(false));
    assert_eq!(pm.current_track().map(|t| t.id), Some(10));
    pm.queue_next(track(20));
    assert!(pm.advance_next(false));
    assert_eq!(pm.current_track().map(|t| t.id), Some(20));
}

/// A track queued with "play next" plays before up-next tracks still waiting.
#[test]
fn queue_next_goes_before_waiting_up_next() {
    let mut pm = PlaybackManager::new();
    pm.set_context_tracks(vec![track(1), track(2)]);
    pm.queue_last(track(10));
    pm.queue_next(track(20));
    assert_eq!(pm.up_next_len(), 2);
    assert!(pm.advance_next(false));
    assert_eq!(pm.current_track().map(|t| t.id), Some(20));
    assert!(pm.advance_next(false));
    assert_eq!(pm.current_track().map(|t| t.id), Some(10));
    assert!(pm.advance_next(false));
    assert_eq!(pm.current_track().map(|t| t.id), Some(2));
}

/// A second "play next" becomes the next track overall.
#[test]
fn second_play_next_becomes_next() {
    let mut pm = PlaybackManager::new();
    pm.set_context_tracks(vec![track(1), track(2), track(3)]);
    pm.queue_next(track(10));
    pm.queue_next(track(11));
    assert_eq!(pm.current_track().map(|t| t.id), Some(1));
    assert_eq!(pm.up_next_len(), 2);
    assert_eq!(ids(&pm.tracks_from_current()), vec![1, 11, 10, 2, 3]);
}

/// A skip that cannot move changes nothing.
#[test]
fn failed_skip_changes_nothing() {
    let mut pm = PlaybackManager::new();
    pm.loop_state = LoopState::NotLooping;
    pm.set_context_tracks(vec![track(1)]);
    assert_eq!(pm.advance(AdvanceReason::Skip), AdvanceOutcome::NoChange);
    assert_eq!(pm.current_track().map(|t| t.id), Some(1));
    assert_eq!(ids(&pm.tracks_from_current()), vec![1]);
    assert!(pm.played_global_indices().is_empty());
    assert!(!pm.advance_next(false));
    assert_eq!(pm.current_global_index(), Some(0));
}

/// After the context played through into up-next, clearing up-next makes the
/// last context track current again.
#[test]
fn clearing_up_next_after_context_end() {
    let mut pm = PlaybackManager::new();
    pm.set_context_tracks(vec![track(1), track(2)]);
    assert!(pm.advance_next(false));
    pm.queue_last(track(10));
    assert!(pm.advance_next(false));
    assert_eq!(pm.current_track().map(|t| t.id), Some(10));
    pm.clear_up_next();
    assert_eq!(pm.current_track().map(|t| t.id), Some(2));
    assert_eq!(ids(&pm.tracks_from_current()), vec![2]);
    assert_eq!(pm.played_global_indices(), vec![0]);
}

/// Removing tracks by global index from both queues.
#[test]
fn remove_by_global_index_from_both_queues() {
    let mut pm = PlaybackManager::new();
    pm.set_context_tracks(vec![track(1), track(2), track(3)]);
    pm.queue_last_many(vec![track(10), track(11)]);
    pm.remove_by_global_index(0);
    assert_eq!(pm.up_next_len(), 1);
    assert_eq!(pm.track_by_global_index(0).map(|t| t.id), Some(11));
    pm.remove_by_global_index(2);
    assert_eq!(pm.context_len(), 2);
    assert_eq!(ids(&pm.context_tracks_from_current()), vec![1, 3]);
    pm.remove_by_global_index(7);
    assert_eq!(pm.total_len(), 3);
    pm.clear_up_next();
    assert_eq!(pm.up_next_len(), 0);
    assert_eq!(pm.loop_state(), LoopState::NotLooping);
}

/// Up-next tracks from the current one, and the context once it is empty.
#[test]
fn up_next_tracks_from_current_and_empty_context() {
    let mut pm = PlaybackManager::new();
    pm.queue_last_many(vec![track(10), track(11), track(12)]);
    assert_eq!(pm.current_track().map(|t| t.id), Some(10));
    assert_eq!(ids(&pm.up_next_tracks_from_current()), vec![10, 11, 12]);
    assert!(pm.advance_next(false));
    assert_eq!(ids(&pm.up_next_tracks_from_current()), vec![11, 12]);
    assert_eq!(ids(&pm.tracks_from_current()), vec![11, 12]);
    assert!(pm.context_tracks_from_current().is_empty());
    assert!(!pm.is_empty());
}

/// Previous steps back through the context and wraps when looping the queue.
#[test]
fn previous_steps_back_and_wraps_when_looping() {
    let mut pm = PlaybackManager::new();
    pm.set_context_tracks(vec![track(1), track(2), track(3)]);
    assert_eq!(pm.advance(AdvanceReason::Previous), AdvanceOutcome::NoChange);
    pm.loop_state = LoopState::LoopingQueue;
    assert_eq!(pm.advance(AdvanceReason::Previous), AdvanceOutcome::Moved);
    assert_eq!(pm.current_track().map(|t| t.id), Some(3));
    assert_eq!(pm.advance(AdvanceReason::Skip), AdvanceOutcome::Moved);
    assert_eq!(pm.current_track().map(|t| t.id), Some(1));
}

/// Shuffling the context keeps the current track first.
#[test]
fn toggle_shuffle_keeps_current_first() {
    let mut pm = PlaybackManager::new();
    assert_eq!(pm.shuffle_state(), ShuffleState::Unavailable);
    pm.toggle_shuffle();
    assert_eq!(pm.shuffle_state(), ShuffleState::Unavailable);
    pm.set_context_tracks(vec![track(1), track(2), track(3), track(4)]);
    assert!(pm.advance_next(false));
    pm.toggle_shuffle();
    assert!(pm.is_shuffle_enabled());
    assert_eq!(pm.current_track().map(|t| t.id), Some(2));
    assert_eq!(pm.current_global_index(), Some(0));
    let from_current = ids(&pm.context_tracks_from_current());
    assert_eq!(from_current.len(), 4);
    assert_eq!(from_current[0], 2);
    pm.toggle_shuffle();
    assert_eq!(pm.shuffle_state(), ShuffleState::Disabled);
    assert_eq!(ids(&pm.context_tracks_from_current()), vec![2, 3, 4]);
}

/// Home page rows are numbered in list order; missing tracks are counted.
#[test]
fn home_rows_are_numbered() {
    let mut pm = PlaybackManager::new();
    pm.set_context_tracks(vec![track(1), track(2), track(3)]);
    pm.queue_last(track(10));
    let entries = list_entries(&pm, &vec![1, 9, 3, 0]);
    let labels: Vec<&str> = entries.iter().map(|e| e.label.as_str()).collect();
    assert_eq!(labels, vec!["1. t1", "3. t3", "4. t10"]);
    let indices: Vec<usize> = entries.iter().map(|e| e.global_index).collect();
    assert_eq!(indices, vec![1, 3, 0]);
    let upcoming = list_entries(&pm, &pm.upcoming_context_global_indices());
    assert_eq!(upcoming.iter().map(|e| e.label.as_str()).collect::<Vec<_>>(), vec!["1. t2", "2. t3"]);
}

/// Skipping plays the tracks from the current one on, in order, then stops.
#[test]
fn skips_follow_tracks_from_current() {
    let mut pm = PlaybackManager::new();
    pm.loop_state = LoopState::NotLooping;
    pm.set_context_tracks(vec![track(1), track(2), track(3)]);
    pm.queue_next(track(10));
    pm.queue_last(track(11));
    let listed = ids(&pm.tracks_from_current());
    assert_eq!(listed, vec![1, 10, 11, 2, 3]);
    for id in &listed[1..] {
        assert_eq!(pm.advance(AdvanceReason::Skip), AdvanceOutcome::Moved);
        assert_eq!(pm.current_track().map(|t| t.id), Some(*id));
    }
    assert_eq!(pm.advance(AdvanceReason::Skip), AdvanceOutcome::NoChange);
    assert_eq!(pm.current_track().map(|t| t.id), Some(3));
}
