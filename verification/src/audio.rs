//! Looping modes of the audio player.
use vstd::prelude::*;

verus! {

/// How the audio player continues after a song.
#[derive(Clone, Copy, Debug, PartialEq, Eq, Structural)]
pub enum LoopState {
    LoopingTrack,
    LoopingQueue,
    NotLooping,
    RandomShuffle,
}

/// The mode after a toggle: not looping, then looping the queue, then the
/// track, then random shuffle, then not looping again.
pub open spec fn loop_state_toggled_spec(ls: LoopState) -> LoopState {
    match ls {
        LoopState::LoopingTrack => LoopState::RandomShuffle,
        LoopState::LoopingQueue => LoopState::LoopingTrack,
        LoopState::NotLooping => LoopState::LoopingQueue,
        LoopState::RandomShuffle => LoopState::NotLooping,
    }
}

/// The mode a toggle of the player's loop button leads to.
pub fn loop_state_toggled(ls: LoopState) -> (r: LoopState)
    ensures
        r == loop_state_toggled_spec(ls),
{
    match ls {
        LoopState::LoopingTrack => LoopState::RandomShuffle,
        LoopState::LoopingQueue => LoopState::LoopingTrack,
        LoopState::NotLooping => LoopState::LoopingQueue,
        LoopState::RandomShuffle => LoopState::NotLooping,
    }
}

/// Four toggles of the player's loop mode come back to where they started,
/// and each toggle changes the mode.
pub proof fn law_audio_loop_cycles(ls: LoopState)
    ensures
        loop_state_toggled_spec(
            loop_state_toggled_spec(loop_state_toggled_spec(loop_state_toggled_spec(ls))),
        ) == ls,
        loop_state_toggled_spec(ls) != ls,
{
}

} // verus!
