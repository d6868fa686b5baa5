use nova_music::session::{change_active_in_queue, clear_queue, next_loop_state, queue_update, LoopState, QueueUpdateReason, SinkAction};

#[test]
fn skip_wraps_to_first_song() {
    let r = queue_update(3, 1, false, LoopState::NotLooping, QueueUpdateReason::Skipped);
    assert_eq!(r.queue_pos, 2);
    assert!(r.clear);
    assert_eq!(r.actions, vec![SinkAction::Clear, SinkAction::Play]);
    let r = queue_update(3, 2, false, LoopState::NotLooping, QueueUpdateReason::Skipped);
    assert_eq!(r.queue_pos, 0);
}

#[test]
fn previous_wraps_to_last_song() {
    let r = queue_update(3, 0, false, LoopState::NotLooping, QueueUpdateReason::Previous);
    assert_eq!(r.queue_pos, 2);
    let r = queue_update(3, 2, true, LoopState::NotLooping, QueueUpdateReason::Previous);
    assert_eq!(r.queue_pos, 1);
    assert!(r.clear);
}

#[test]
fn previous_undoes_skip_for_every_position() {
    for pos in 0..4 {
        let skipped = queue_update(4, pos, false, LoopState::NotLooping, QueueUpdateReason::Skipped);
        let back = queue_update(4, skipped.queue_pos, false, LoopState::NotLooping, QueueUpdateReason::Previous);
        assert_eq!(back.queue_pos, pos);
    }
}

#[test]
fn empty_queue_resets() {
    let r = queue_update(0, 5, true, LoopState::LoopingQueue, QueueUpdateReason::Skipped);
    assert_eq!(r.queue_pos, 0);
    assert!(r.clear);
    assert_eq!(r.actions, vec![SinkAction::ResetProgress, SinkAction::Clear]);
}

#[test]
fn finished_song_follows_loop_state() {
    let cleared = queue_update(3, 1, true, LoopState::NotLooping, QueueUpdateReason::Finished);
    assert_eq!((cleared.queue_pos, cleared.clear), (1, false));
    assert_eq!(cleared.actions, vec![SinkAction::Load(1)]);

    let track = queue_update(3, 1, false, LoopState::LoopingTrack, QueueUpdateReason::Finished);
    assert_eq!(track.actions, vec![SinkAction::Load(1)]);

    let queue = queue_update(3, 2, false, LoopState::LoopingQueue, QueueUpdateReason::Finished);
    assert_eq!(queue.queue_pos, 0);
    assert_eq!(queue.actions, vec![SinkAction::Play, SinkAction::Load(0)]);

    let end = queue_update(3, 2, false, LoopState::NotLooping, QueueUpdateReason::Finished);
    assert_eq!(end.queue_pos, 0);
    assert_eq!(end.actions, vec![SinkAction::Pause, SinkAction::Load(0)]);

    let mid = queue_update(3, 0, false, LoopState::NotLooping, QueueUpdateReason::Finished);
    assert_eq!(mid.queue_pos, 1);
    assert_eq!(mid.actions, vec![SinkAction::Load(1)]);
}

#[test]
fn removing_songs_adjusts_position() {
    let before = queue_update(4, 2, false, LoopState::NotLooping, QueueUpdateReason::Removed(0));
    assert_eq!(before.queue_pos, 1);
    assert_eq!(before.actions, vec![SinkAction::Remove(0)]);

    let last = queue_update(4, 3, false, LoopState::LoopingQueue, QueueUpdateReason::Removed(3));
    assert_eq!(last.queue_pos, 0);
    assert!(last.clear);
    assert_eq!(last.actions, vec![SinkAction::Remove(3), SinkAction::Clear, SinkAction::Play]);

    let last_stop = queue_update(4, 3, false, LoopState::NotLooping, QueueUpdateReason::Removed(3));
    assert_eq!(last_stop.actions, vec![SinkAction::Remove(3), SinkAction::Clear]);

    let current = queue_update(4, 1, false, LoopState::NotLooping, QueueUpdateReason::Removed(1));
    assert_eq!(current.queue_pos, 1);
    assert_eq!(current.actions, vec![SinkAction::Remove(1), SinkAction::Clear, SinkAction::Play]);

    let after = queue_update(4, 1, false, LoopState::NotLooping, QueueUpdateReason::Removed(2));
    assert_eq!(after.queue_pos, 1);
    assert!(!after.clear);
    assert_eq!(after.actions, vec![SinkAction::Remove(2)]);

    let killed = queue_update(4, 1, false, LoopState::NotLooping, QueueUpdateReason::ThreadKilled);
    assert_eq!(killed.queue_pos, 1);
    assert!(killed.actions.is_empty());
}

#[test]
fn loop_button_cycles() {
    let mut ls = LoopState::NotLooping;
    ls = next_loop_state(ls);
    assert_eq!(ls, LoopState::LoopingQueue);
    ls = next_loop_state(ls);
    assert_eq!(ls, LoopState::LoopingTrack);
    ls = next_loop_state(ls);
    assert_eq!(ls, LoopState::NotLooping);
}

#[test]
fn clearing_and_choosing_songs() {
    let cleared = clear_queue(true);
    assert_eq!(cleared.queue_pos, 0);
    assert!(cleared.clear);
    assert_eq!(cleared.actions, vec![SinkAction::Stop, SinkAction::ResetProgress, SinkAction::EmptyQueue]);
    let chosen = change_active_in_queue(4);
    assert_eq!(chosen.queue_pos, 4);
    assert!(chosen.clear);
    assert_eq!(chosen.actions, vec![SinkAction::Clear, SinkAction::Play]);
}
