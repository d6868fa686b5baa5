//! The plain play queue of the player window: what happens to the queue
//! position and the audio sink when a song finishes, is skipped, stepped back
//! from or removed, and how the loop button cycles.
use vstd::prelude::*;

verus! {

/// Looping of the plain play queue.
#[derive(Clone, Copy, Debug, PartialEq, Eq, Structural)]
pub enum LoopState {
    LoopingTrack,
    LoopingQueue,
    NotLooping,
}

/// Why the queue position is being updated.
#[derive(Clone, Copy, Debug, PartialEq, Eq, Structural)]
pub enum QueueUpdateReason {
    /// The user skipped to the next song.
    Skipped,
    /// The user went back to the previous song.
    Previous,
    /// The song at this queue index is being removed.
    Removed(usize),
    /// The song in the sink played to its end.
    Finished,
    /// The waiting task was stopped.
    ThreadKilled,
}

/// One thing to do with the audio sink, in order.
#[derive(Clone, Copy, Debug, PartialEq, Eq, Structural)]
pub enum SinkAction {
    /// Stop the sink and the tasks waiting for its songs to end.
    Stop,
    /// Remove every song from the queue.
    EmptyQueue,
    /// Forget song progress and duration (the queue is empty).
    ResetProgress,
    /// Drop what the sink holds.
    Clear,
    Play,
    Pause,
    /// Remove the song at this index from the queue.
    Remove(usize),
    /// Load the song at this queue index into the sink.
    Load(usize),
}

/// The queue state after an update, and what to do with the sink.
pub struct QueueUpdate {
    pub queue_pos: usize,
    /// Whether the next end-of-song report comes from clearing the sink.
    pub clear: bool,
    pub actions: Vec<SinkAction>,
}

/// The position after `pos` in a queue of `len > 0` songs, wrapping to the
/// first after the last.
pub open spec fn pos_after(pos: int, len: int) -> int {
    if pos + 1 > len - 1 {
        0
    } else {
        pos + 1
    }
}

/// The position before `pos` in a queue of `len` songs, wrapping to the last
/// before the first.
pub open spec fn pos_before(pos: usize, len: int) -> int {
    if (pos as i32) - 1 < 0 {
        len - 1
    } else {
        pos - 1
    }
}

/// The queue update for `reason`, given the queue length, position, whether
/// the sink was cleared on purpose, and the loop state.
pub open spec fn queue_update_spec(
    len: usize,
    pos: usize,
    clear: bool,
    ls: LoopState,
    reason: QueueUpdateReason,
) -> (int, bool, Seq<SinkAction>) {
    if len == 0 {
        (0, clear, seq![SinkAction::ResetProgress, SinkAction::Clear])
    } else {
        match reason {
            QueueUpdateReason::Skipped => (
                pos_after(pos as int, len as int),
                true,
                seq![SinkAction::Clear, SinkAction::Play],
            ),
            QueueUpdateReason::Previous => (
                pos_before(pos, len as int),
                true,
                seq![SinkAction::Clear, SinkAction::Play],
            ),
            QueueUpdateReason::Finished => if clear {
                (pos as int, false, seq![SinkAction::Load(pos)])
            } else {
                match ls {
                    LoopState::LoopingTrack => (pos as int, false, seq![SinkAction::Load(pos)]),
                    LoopState::LoopingQueue => {
                        let next = pos_after(pos as int, len as int);
                        (next, false, seq![SinkAction::Play, SinkAction::Load(next as usize)])
                    },
                    LoopState::NotLooping => {
                        let next = pos_after(pos as int, len as int);
                        if next == 0 {
                            (0, false, seq![SinkAction::Pause, SinkAction::Load(0)])
                        } else {
                            (next, false, seq![SinkAction::Load(next as usize)])
                        }
                    },
                }
            },
            QueueUpdateReason::Removed(index) => if pos > index {
                (pos - 1, clear, seq![SinkAction::Remove(index)])
            } else if (index as i32) == (len as i32) - 1 && (pos as i32) == (len as i32) - 1 {
                (
                    0,
                    true,
                    if ls == LoopState::LoopingQueue {
                        seq![SinkAction::Remove(index), SinkAction::Clear, SinkAction::Play]
                    } else {
                        seq![SinkAction::Remove(index), SinkAction::Clear]
                    },
                )
            } else if index == pos {
                (pos as int, true, seq![SinkAction::Remove(index), SinkAction::Clear, SinkAction::Play])
            } else {
                (pos as int, clear, seq![SinkAction::Remove(index)])
            },
            QueueUpdateReason::ThreadKilled => (pos as int, clear, Seq::empty()),
        }
    }
}

/// The inputs on which the update is defined: no arithmetic overflows, and
/// the songs it loads or removes exist.
pub open spec fn queue_update_defined(
    len: usize,
    pos: usize,
    clear: bool,
    ls: LoopState,
    reason: QueueUpdateReason,
) -> bool {
    len > 0 ==> match reason {
        QueueUpdateReason::Skipped => pos < usize::MAX,
        QueueUpdateReason::Previous => (pos as i32) != i32::MIN,
        QueueUpdateReason::Finished => if clear || ls == LoopState::LoopingTrack {
            pos < len
        } else {
            pos < usize::MAX
        },
        QueueUpdateReason::Removed(index) => index < len && (pos <= index ==> (len as i32) != i32::MIN),
        QueueUpdateReason::ThreadKilled => true,
    }
}

/// The position after `pos`, wrapping.
fn next_pos(pos: usize, len: usize) -> (r: usize)
    requires
        len > 0,
        pos < usize::MAX,
    ensures
        r == pos_after(pos as int, len as int),
{
    if pos + 1 > len - 1 {
        0
    } else {
        pos + 1
    }
}

/// Updates the queue position when a song finishes, is skipped, stepped back
/// from or removed, and lists what to do with the sink.
pub fn queue_update(len: usize, pos: usize, clear: bool, ls: LoopState, reason: QueueUpdateReason) -> (r:
    QueueUpdate)
    requires
        queue_update_defined(len, pos, clear, ls, reason),
    ensures
        r.queue_pos == queue_update_spec(len, pos, clear, ls, reason).0,
        r.clear == queue_update_spec(len, pos, clear, ls, reason).1,
        r.actions@ == queue_update_spec(len, pos, clear, ls, reason).2,
{
    if len == 0 {
        return QueueUpdate {
            queue_pos: 0,
            clear,
            actions: vec![SinkAction::ResetProgress, SinkAction::Clear],
        };
    }
    match reason {
        QueueUpdateReason::Skipped => QueueUpdate {
            queue_pos: next_pos(pos, len),
            clear: true,
            actions: vec![SinkAction::Clear, SinkAction::Play],
        },
        QueueUpdateReason::Previous => {
            let p: i32 = pos as i32;
            let new_pos: usize = if p - 1 < 0 {
                len - 1
            } else {
                pos - 1
            };
            QueueUpdate {
                queue_pos: new_pos,
                clear: true,
                actions: vec![SinkAction::Clear, SinkAction::Play],
            }
        },
        QueueUpdateReason::Finished => {
            if clear {
                return QueueUpdate { queue_pos: pos, clear: false, actions: vec![SinkAction::Load(pos)] };
            }
            match ls {
                LoopState::LoopingTrack => QueueUpdate {
                    queue_pos: pos,
                    clear: false,
                    actions: vec![SinkAction::Load(pos)],
                },
                LoopState::LoopingQueue => {
                    let next = next_pos(pos, len);
                    QueueUpdate {
                        queue_pos: next,
                        clear: false,
                        actions: vec![SinkAction::Play, SinkAction::Load(next)],
                    }
                },
                LoopState::NotLooping => {
                    if pos + 1 > len - 1 {
                        QueueUpdate {
                            queue_pos: 0,
                            clear: false,
                            actions: vec![SinkAction::Pause, SinkAction::Load(0)],
                        }
                    } else {
                        QueueUpdate {
                            queue_pos: pos + 1,
                            clear: false,
                            actions: vec![SinkAction::Load(pos + 1)],
                        }
                    }
                },
            }
        },
        QueueUpdateReason::Removed(index) => {
            if pos > index {
                return QueueUpdate {
                    queue_pos: pos - 1,
                    clear,
                    actions: vec![SinkAction::Remove(index)],
                };
            }
            let last: i32 = (len as i32) - 1;
            if index as i32 == last && pos as i32 == last {
                let actions = if ls == LoopState::LoopingQueue {
                    vec![SinkAction::Remove(index), SinkAction::Clear, SinkAction::Play]
                } else {
                    vec![SinkAction::Remove(index), SinkAction::Clear]
                };
                QueueUpdate { queue_pos: 0, clear: true, actions }
            } else if index == pos {
                QueueUpdate {
                    queue_pos: pos,
                    clear: true,
                    actions: vec![SinkAction::Remove(index), SinkAction::Clear, SinkAction::Play],
                }
            } else {
                QueueUpdate { queue_pos: pos, clear, actions: vec![SinkAction::Remove(index)] }
            }
        },
        QueueUpdateReason::ThreadKilled => QueueUpdate { queue_pos: pos, clear, actions: Vec::new() },
    }
}

/// The loop state the loop button leads to: looping the track stops
/// looping, looping the queue loops the track, and not looping loops the
/// queue.
pub open spec fn next_loop_state_spec(ls: LoopState) -> LoopState {
    match ls {
        LoopState::LoopingTrack => LoopState::NotLooping,
        LoopState::LoopingQueue => LoopState::LoopingTrack,
        LoopState::NotLooping => LoopState::LoopingQueue,
    }
}

/// The loop state after pressing the loop button.
pub fn next_loop_state(ls: LoopState) -> (r: LoopState)
    ensures
        r == next_loop_state_spec(ls),
{
    match ls {
        LoopState::LoopingTrack => LoopState::NotLooping,
        LoopState::LoopingQueue => LoopState::LoopingTrack,
        LoopState::NotLooping => LoopState::LoopingQueue,
    }
}

/// Pressing the loop button three times comes back to where it started, and
/// each press changes the state.
pub proof fn law_loop_button_cycles(ls: LoopState)
    ensures
        next_loop_state_spec(next_loop_state_spec(next_loop_state_spec(ls))) == ls,
        next_loop_state_spec(ls) != ls,
{
}

/// Within a queue, stepping back after a skip returns to the same song. The
/// step back compares the position as an `i32`, so this needs the position
/// after the skip to read as a positive `i32` (or the skip to wrap to the
/// first song).
pub proof fn law_previous_undoes_skip(len: usize, pos: usize)
    requires
        pos < len,
        pos + 1 == len || ((pos + 1) as usize as i32) >= 1,
    ensures
        pos_before(pos_after(pos as int, len as int) as usize, len as int) == pos,
{
}

/// Within a queue, skipping after stepping back returns to the same song,
/// when the position reads as a positive `i32` (or is the first song).
pub proof fn law_skip_undoes_previous(len: usize, pos: usize)
    requires
        pos < len,
        pos == 0 || (pos as i32) >= 1,
    ensures
        pos_after(pos_before(pos, len as int), len as int) == pos,
{
    assert((0usize as i32) == 0) by (bit_vector);
}

/// Removing a song before the current one keeps the same song current: the
/// position moves down by one, onto the song that was playing.
pub proof fn law_removal_before_keeps_current_song<T>(queue: Seq<T>, pos: usize, index: usize, clear: bool, ls: LoopState)
    requires
        index < pos < queue.len(),
        queue.len() <= usize::MAX,
    ensures
        queue_update_spec(queue.len() as usize, pos, clear, ls, QueueUpdateReason::Removed(index)).0
            == pos - 1,
        queue.remove(index as int)[pos - 1] == queue[pos as int],
{
}


/// Empties the queue: the sink and its waiting tasks stop, progress is
/// forgotten, the position goes back to the first song and the queue is
/// emptied; whether the sink counts as cleared on purpose is kept.
pub fn clear_queue(clear: bool) -> (r: QueueUpdate)
    ensures
        r.queue_pos == 0,
        r.clear == clear,
        r.actions@ == seq![SinkAction::Stop, SinkAction::ResetProgress, SinkAction::EmptyQueue],
{
    QueueUpdate {
        queue_pos: 0,
        clear,
        actions: vec![SinkAction::Stop, SinkAction::ResetProgress, SinkAction::EmptyQueue],
    }
}

/// Makes the song at `index` the active one: the sink is cleared on purpose
/// and plays on, and the position moves to `index`.
pub fn change_active_in_queue(index: usize) -> (r: QueueUpdate)
    ensures
        r.queue_pos == index,
        r.clear,
        r.actions@ == seq![SinkAction::Clear, SinkAction::Play],
{
    QueueUpdate { queue_pos: index, clear: true, actions: vec![SinkAction::Clear, SinkAction::Play] }
}


/// When a song plays to its end (the sink was not cleared on purpose), the
/// queue moves on to the next song, as a skip would: while the queue loops it
/// wraps to the first song only after the last one and keeps playing; while
/// not looping it moves to the next song as long as there is one, and after
/// the last one goes back to the first and pauses.
pub proof fn law_finished_song_moves_on(len: usize, pos: usize)
    requires
        pos < len,
    ensures
        ({
            let looped = queue_update_spec(len, pos, false, LoopState::LoopingQueue, QueueUpdateReason::Finished);
            let next = if pos + 1 < len { pos + 1 } else { 0 };
            &&& looped.0 == next
            &&& looped.0 == queue_update_spec(len, pos, false, LoopState::LoopingQueue, QueueUpdateReason::Skipped).0
            &&& !looped.1
            &&& looped.2 == seq![SinkAction::Play, SinkAction::Load(next as usize)]
        }),
        pos + 1 < len ==> queue_update_spec(len, pos, false, LoopState::NotLooping, QueueUpdateReason::Finished).0
            == pos + 1,
        pos + 1 == len ==> queue_update_spec(len, pos, false, LoopState::NotLooping, QueueUpdateReason::Finished)
            == (0int, false, seq![SinkAction::Pause, SinkAction::Load(0)]),
{
}

} // verus!
