//! Playback manager coordinating up-next and context queues.
use vstd::prelude::*;
use crate::queue::{
    inserted_at, position_after_current, removed_at, same_view, settled_state, spliced, ShuffleState,
    TrackQueue,
};
use crate::track::{same_tracks, AppTrack};

verus! {

/// Looping behaviour of the playback manager.
#[derive(Copy, Clone, Debug, Eq, PartialEq, Structural)]
pub enum LoopState {
    /// Loop every track on a Natural track finish.
    LoopingTrack,
    /// Loop the context queue.
    LoopingQueue,
    /// Don't loop.
    NotLooping,
    /// When the playback manager has no tracks.
    Unavailable,
}

/// Active queue used for the current track selection.
#[derive(Clone, Copy, Debug, PartialEq, Eq, Structural)]
enum ActiveQueue {
    /// Tracks queued to play next.
    UpNext,
    /// Context tracks (album/playlist) that resume after up-next.
    Context,
}

/// Orchestrates playback across the up-next and context queues.
pub struct PlaybackManager {
    /// Context queue (shufflable).
    context: TrackQueue,
    /// Up-next queue (linear).
    up_next: TrackQueue,
    /// Current active queue for playback.
    active: ActiveQueue,
    /// Whether the up-next queue has started playing.
    up_next_started: bool,
    /// Whether the context queue has finished playback.
    context_finished: bool,
    /// Current looping state.
    pub loop_state: LoopState,
}

/// Reason for advancing playback.
#[derive(Clone, Copy, Debug, PartialEq, Eq, Structural)]
pub enum AdvanceReason {
    /// Track ended naturally.
    Natural,
    /// User pressed skip/next.
    Skip,
    /// User pressed previous.
    Previous,
}

/// Result of attempting to advance playback.
#[derive(Clone, Copy, Debug, PartialEq, Eq, Structural)]
pub enum AdvanceOutcome {
    /// Restart the current track (LoopingTrack).
    RestartCurrent,
    /// Moved to a different track.
    Moved,
    /// No change.
    NoChange,
    /// Reached end in NotLooping; reset to start and pause.
    Ended,
}

/// Where playback stands: which queue is active, whether up-next has started
/// and the context has finished, the current up-next index and the cursor
/// into the context's playback order.
pub struct Position {
    pub in_up_next: bool,
    pub up_next_started: bool,
    pub context_finished: bool,
    pub up_cur: int,
    pub ctx_cursor: int,
}

/// The active queue after a mutation: an empty up-next hands over to the
/// context (whose current track then plays again, so it is not finished),
/// and an empty context with up-next tracks hands over to up-next (which then
/// counts as started).
pub open spec fn sync_active(p: Position, up_len: nat, ctx_len: nat) -> Position {
    if p.in_up_next && up_len == 0 {
        Position { in_up_next: false, context_finished: false, ..p }
    } else if !p.in_up_next && ctx_len == 0 && up_len > 0 {
        Position { in_up_next: true, up_next_started: true, ..p }
    } else {
        p
    }
}

/// The active queue holds a track whenever either queue does: up-next is
/// active only while it holds tracks, and the context is active while it
/// holds tracks or both queues are empty.
pub open spec fn synced(p: Position, up_len: nat, ctx_len: nat) -> bool {
    &&& (p.in_up_next ==> up_len > 0)
    &&& (!p.in_up_next ==> ctx_len > 0 || up_len == 0)
}

/// The up-next index to play after the current track, if any: the one after
/// the current up-next track once up-next is active or has started, else the
/// current up-next track itself.
pub open spec fn up_next_next_spec(p: Position, up_len: nat) -> Option<int> {
    if up_len == 0 {
        None
    } else if p.in_up_next || p.up_next_started {
        if p.up_cur + 1 < up_len {
            Some(p.up_cur + 1)
        } else {
            None
        }
    } else {
        Some(p.up_cur)
    }
}

/// Switch to the next up-next track when there is one.
pub open spec fn switch_to_up_next_spec(p: Position, up_len: nat) -> (Position, bool) {
    match up_next_next_spec(p, up_len) {
        Some(k) => (Position { in_up_next: true, up_next_started: true, up_cur: k, ..p }, true),
        None => (p, false),
    }
}

/// One step forward: up-next plays through first, then the context resumes;
/// after each context track the next up-next track (if any) plays, and after
/// the last context track up-next plays on with the context finished; at the
/// end of the context it wraps to its start only when `wrap` is set. A step
/// that cannot move changes nothing.
pub open spec fn advance_next_spec(p0: Position, up_len: nat, ctx_len: nat, wrap: bool) -> (Position, bool) {
    let p = sync_active(p0, up_len, ctx_len);
    if p.in_up_next {
        if p.up_cur + 1 < up_len {
            (Position { up_next_started: true, up_cur: p.up_cur + 1, ..p }, true)
        } else if ctx_len == 0 {
            (p, false)
        } else if p.context_finished {
            if wrap {
                (
                    Position {
                        in_up_next: false,
                        up_next_started: true,
                        ctx_cursor: 0,
                        context_finished: false,
                        ..p
                    },
                    true,
                )
            } else {
                (p, false)
            }
        } else {
            (Position { in_up_next: false, up_next_started: true, ..p }, true)
        }
    } else if ctx_len > 0 && p.ctx_cursor + 1 < ctx_len {
        let p = Position { ctx_cursor: p.ctx_cursor + 1, context_finished: false, ..p };
        (switch_to_up_next_spec(p, up_len).0, true)
    } else {
        let (q, switched) = switch_to_up_next_spec(p, up_len);
        if switched {
            (Position { context_finished: true, ..q }, true)
        } else if wrap && ctx_len > 0 {
            (Position { ctx_cursor: 0, context_finished: false, ..p }, true)
        } else {
            (p, false)
        }
    }
}

/// One step back: within up-next, then (when wrapping) to the end of the
/// context; within the context, then (when wrapping) to its end, else back
/// into up-next once it has started. A step that cannot move changes
/// nothing.
pub open spec fn advance_prev_spec(p0: Position, up_len: nat, ctx_len: nat, wrap: bool) -> (Position, bool) {
    let p = sync_active(p0, up_len, ctx_len);
    if p.in_up_next {
        if p.up_cur > 0 {
            (Position { up_next_started: true, up_cur: p.up_cur - 1, ..p }, true)
        } else if wrap && ctx_len > 0 {
            (
                Position {
                    in_up_next: false,
                    up_next_started: true,
                    ctx_cursor: ctx_len - 1,
                    context_finished: false,
                    ..p
                },
                true,
            )
        } else {
            (p, false)
        }
    } else if ctx_len == 0 {
        (p, false)
    } else if p.ctx_cursor > 0 {
        (Position { ctx_cursor: p.ctx_cursor - 1, context_finished: false, ..p }, true)
    } else if wrap {
        (Position { ctx_cursor: ctx_len - 1, context_finished: false, ..p }, true)
    } else if p.up_next_started && up_len > 0 {
        (Position { in_up_next: true, context_finished: false, ..p }, true)
    } else {
        (p, false)
    }
}

/// Back to the start: the first context track, or the first up-next track
/// (not yet started) when the context is empty.
pub open spec fn reset_to_start_spec(p: Position, up_len: nat, ctx_len: nat) -> Position {
    if ctx_len > 0 {
        Position { in_up_next: false, ctx_cursor: 0, context_finished: false, ..p }
    } else if up_len > 0 {
        Position { in_up_next: true, up_cur: 0, up_next_started: false, ..p }
    } else {
        p
    }
}

/// Where selecting unified index `g` puts playback: on that up-next track
/// (which counts as started), or on that context playback position (no
/// longer finished); an index past the end only re-syncs the active queue.
pub open spec fn jump_spec(p: Position, up_len: nat, ctx_len: nat, g: int) -> Position {
    if 0 <= g < up_len {
        Position { in_up_next: true, up_cur: g, up_next_started: true, ..p }
    } else if 0 <= g - up_len < ctx_len {
        Position { in_up_next: false, ctx_cursor: g - up_len, context_finished: false, ..p }
    } else {
        sync_active(p, up_len, ctx_len)
    }
}

/// The loop state one toggle leads to: not looping, then looping the track,
/// then looping the queue, then not looping again.
pub open spec fn loop_toggled(ls: LoopState) -> LoopState {
    match ls {
        LoopState::NotLooping => LoopState::LoopingTrack,
        LoopState::LoopingTrack => LoopState::LoopingQueue,
        LoopState::LoopingQueue => LoopState::NotLooping,
        LoopState::Unavailable => LoopState::Unavailable,
    }
}

/// The loop state once queue contents changed: unavailable exactly when both
/// queues are empty, and not looping when it becomes available.
pub open spec fn loop_after_sync(ls: LoopState, empty: bool) -> LoopState {
    if empty {
        LoopState::Unavailable
    } else if ls == LoopState::Unavailable {
        LoopState::NotLooping
    } else {
        ls
    }
}

/// The loop mode an advance uses: natural ends follow the loop state (an
/// unavailable one counts as not looping); skips and previous only keep
/// queue looping.
pub open spec fn effective_loop(ls: LoopState, reason: AdvanceReason) -> LoopState {
    let base = if ls == LoopState::Unavailable {
        LoopState::NotLooping
    } else {
        ls
    };
    match reason {
        AdvanceReason::Natural => base,
        _ => if base == LoopState::LoopingQueue {
            LoopState::LoopingQueue
        } else {
            LoopState::NotLooping
        },
    }
}

/// The position and outcome of `advance`.
pub open spec fn advance_spec(
    p: Position,
    up_len: nat,
    ctx_len: nat,
    ls: LoopState,
    reason: AdvanceReason,
) -> (Position, AdvanceOutcome) {
    let eff = effective_loop(ls, reason);
    if eff == LoopState::LoopingTrack && reason == AdvanceReason::Natural {
        (p, AdvanceOutcome::RestartCurrent)
    } else {
        let wrap = eff == LoopState::LoopingQueue;
        let (q, moved) = if reason == AdvanceReason::Previous {
            advance_prev_spec(p, up_len, ctx_len, wrap)
        } else {
            advance_next_spec(p, up_len, ctx_len, wrap)
        };
        if moved {
            (q, AdvanceOutcome::Moved)
        } else if reason == AdvanceReason::Natural {
            (reset_to_start_spec(q, up_len, ctx_len), AdvanceOutcome::Ended)
        } else {
            (q, AdvanceOutcome::NoChange)
        }
    }
}

/// While the context plays and up-next has not started, up-next tracks wait
/// from the up-next cursor on, and the cursor marks the one to play next.
pub open spec fn up_next_pending(p: Position) -> bool {
    !p.in_up_next && !p.up_next_started
}

/// Where "play next" inserts into up-next: right after the current up-next
/// track once up-next is active or has started, else at the up-next cursor
/// (before the tracks still waiting there).
pub open spec fn insert_next_spec(p: Position, up_len: nat) -> nat {
    if !up_next_pending(p) {
        if p.up_cur + 1 < up_len {
            (p.up_cur + 1) as nat
        } else {
            up_len
        }
    } else if 0 <= p.up_cur < up_len {
        p.up_cur as nat
    } else {
        0
    }
}

/// The indices `a..b` as a sequence.
pub open spec fn index_range(a: int, b: int) -> Seq<usize> {
    if a <= b {
        Seq::new((b - a) as nat, |i: int| (a + i) as usize)
    } else {
        Seq::empty()
    }
}

/// Up-next indices already played (the current track excluded): those before
/// the current one while up-next plays, up to and including it once playback
/// went back to the context, none before up-next started.
pub open spec fn played_up_spec(p: Position, up_len: nat) -> Seq<usize> {
    if up_len == 0 {
        Seq::empty()
    } else if p.in_up_next {
        index_range(0, p.up_cur)
    } else if p.up_next_started {
        index_range(0, p.up_cur + 1)
    } else {
        Seq::empty()
    }
}

/// Up-next indices still to come (the current track excluded).
pub open spec fn upcoming_up_spec(p: Position, up_len: nat) -> Seq<usize> {
    if up_len == 0 {
        Seq::empty()
    } else if p.in_up_next || p.up_next_started {
        index_range(p.up_cur + 1, up_len as int)
    } else {
        index_range(0, up_len as int)
    }
}

/// Global indices of context tracks already played: all of them once the
/// context finished, else those before the context cursor.
pub open spec fn played_ctx_spec(p: Position, up_len: nat, ctx_len: nat) -> Seq<usize> {
    if ctx_len == 0 {
        Seq::empty()
    } else if p.context_finished {
        index_range(up_len as int, (up_len + ctx_len) as int)
    } else {
        index_range(up_len as int, up_len + p.ctx_cursor)
    }
}

/// Global indices of context tracks still to come: none once the context
/// finished; else those after the cursor, and the cursor's own track too
/// while up-next plays.
pub open spec fn upcoming_ctx_spec(p: Position, up_len: nat, ctx_len: nat) -> Seq<usize> {
    if ctx_len == 0 || p.context_finished {
        Seq::empty()
    } else if p.in_up_next {
        index_range(up_len + p.ctx_cursor, (up_len + ctx_len) as int)
    } else {
        index_range(up_len + p.ctx_cursor + 1, (up_len + ctx_len) as int)
    }
}

/// A track list split at `k` agrees with `t1` before and `t2` after the split,
/// so the whole list agrees with `t1 + t2`.
proof fn lemma_same_tracks_concat(out: Seq<AppTrack>, k: int, t1: Seq<AppTrack>, t2: Seq<AppTrack>)
    requires
        0 <= k <= out.len(),
        same_tracks(out.subrange(0, k), t1),
        same_tracks(out.subrange(k, out.len() as int), t2),
    ensures
        same_tracks(out, t1 + t2),
{
    assert forall|i: int| 0 <= i < out.len() implies (#[trigger] out[i]).same_as(&(t1 + t2)[i]) by {
        if i < k {
            assert(out.subrange(0, k)[i] == out[i]);
        } else {
            assert(out.subrange(k, out.len() as int)[i - k] == out[i]);
        }
    }
}

/// The indices `a..b` collected into a vector.
fn range_vec(a: usize, b: usize) -> (v: Vec<usize>)
    ensures
        v@ == index_range(a as int, b as int),
{
    let mut v: Vec<usize> = Vec::new();
    if b <= a {
        return v;
    }
    let mut i: usize = a;
    while i < b
        invariant
            a <= i <= b,
            v@ == index_range(a as int, i as int),
        decreases b - i,
    {
        v.push(i);
        i += 1;
        proof {
            assert(v@ =~= index_range(a as int, i as int));
        }
    }
    v
}

impl PlaybackManager {
    /// The up-next queue.
    pub closed spec fn up_next_queue(&self) -> TrackQueue {
        self.up_next
    }

    /// The loop state.
    pub closed spec fn looping(&self) -> LoopState {
        self.loop_state
    }

    /// The context queue.
    pub closed spec fn context_queue(&self) -> TrackQueue {
        self.context
    }

    /// Where playback stands.
    pub closed spec fn position(&self) -> Position {
        Position {
            in_up_next: self.active == ActiveQueue::UpNext,
            up_next_started: self.up_next_started,
            context_finished: self.context_finished,
            up_cur: self.up_next.current(),
            ctx_cursor: self.context.cursor(),
        }
    }

    /// Number of up-next tracks.
    pub open spec fn up_len(&self) -> nat {
        self.up_next_queue().tracks_view().len()
    }

    /// Number of context tracks.
    pub open spec fn ctx_len(&self) -> nat {
        self.context_queue().tracks_view().len()
    }

    /// Well-formedness: a well-formed linear up-next queue, a well-formed
    /// shufflable context queue, a total length that fits in `usize`, an
    /// up-next queue that has only started if it holds tracks, an active queue
    /// that holds a track whenever either queue does, a context that is only
    /// finished while up-next plays, and a position whose indices are the
    /// queues' own.
    pub open spec fn wf(&self) -> bool {
        &&& self.up_next_queue().wf()
        &&& !self.up_next_queue().shufflable()
        &&& self.context_queue().wf()
        &&& self.context_queue().shufflable()
        &&& self.up_len() + self.ctx_len() <= usize::MAX
        &&& (self.up_len() == 0 ==> !self.position().up_next_started)
        &&& synced(self.position(), self.up_len(), self.ctx_len())
        &&& (!self.position().in_up_next ==> !self.position().context_finished)
        &&& self.position().up_cur == self.up_next_queue().current()
        &&& self.position().ctx_cursor == self.context_queue().cursor()
    }

    /// Looping is unavailable exactly when both queues are empty, as every
    /// operation that changes the queues leaves it (the `loop_state` field can
    /// also be written directly).
    pub open spec fn loop_synced(&self) -> bool {
        (self.looping() == LoopState::Unavailable) == (self.up_len() == 0 && self.ctx_len() == 0)
    }

    /// What holds between the steps of an operation: the queues are
    /// well-formed and up-next has only started if it holds tracks.
    spec fn base_wf(&self) -> bool {
        &&& self.up_next_queue().wf()
        &&& !self.up_next_queue().shufflable()
        &&& self.context_queue().wf()
        &&& self.context_queue().shufflable()
        &&& self.up_len() + self.ctx_len() <= usize::MAX
        &&& (self.up_len() == 0 ==> !self.position().up_next_started)
    }

    /// Both queues hold the same tracks in the same playback order.
    pub open spec fn same_queues(&self, other: &PlaybackManager) -> bool {
        &&& self.up_next_queue().tracks_view() == other.up_next_queue().tracks_view()
        &&& self.context_queue().tracks_view() == other.context_queue().tracks_view()
        &&& self.context_queue().order() == other.context_queue().order()
        &&& self.context_queue().state() == other.context_queue().state()
    }

    /// The context track at playback position `pb`, if any.
    pub open spec fn context_at(&self, pb: int) -> Option<AppTrack> {
        if 0 <= pb < self.ctx_len() {
            Some(self.context_queue().tracks_view()[self.context_queue().order()[pb] as int])
        } else {
            None
        }
    }

    /// The track at unified index `g`: up-next tracks first, then context
    /// tracks in context playback order.
    pub open spec fn global_track(&self, g: int) -> Option<AppTrack> {
        if 0 <= g < self.up_len() {
            Some(self.up_next_queue().tracks_view()[g])
        } else {
            self.context_at(g - self.up_len())
        }
    }

    /// The context track at playback position `pb`.
    pub open spec fn ctx_track(&self, pb: int) -> AppTrack {
        self.context_queue().tracks_view()[self.context_queue().order()[pb] as int]
    }

    /// Up-next tracks from index `start` to the end.
    pub open spec fn up_tail(&self, start: int) -> Seq<AppTrack> {
        if 0 <= start < self.up_len() {
            self.up_next_queue().tracks_view().subrange(start, self.up_len() as int)
        } else {
            Seq::empty()
        }
    }

    /// Context tracks in playback order from playback position `start` to the end.
    pub open spec fn ctx_tail(&self, start: int) -> Seq<AppTrack> {
        if 0 <= start < self.ctx_len() {
            Seq::new((self.ctx_len() - start) as nat, |i: int| self.ctx_track(start + i))
        } else {
            Seq::empty()
        }
    }

    /// The tracks still to play from the current one on, in the order they
    /// will play: while up-next plays, the rest of up-next and then the rest
    /// of the context; while the context plays, its current track, then the
    /// up-next tracks still to come, then the rest of the context. A finished
    /// context contributes nothing more.
    pub open spec fn from_current_spec(&self) -> Seq<AppTrack> {
        let p = self.position();
        let up_rest = match up_next_next_spec(p, self.up_len()) {
            Some(k) => self.up_tail(k),
            None => Seq::empty(),
        };
        if p.in_up_next {
            self.up_tail(p.up_cur) + if p.context_finished {
                Seq::empty()
            } else {
                self.ctx_tail(p.ctx_cursor)
            }
        } else if self.ctx_len() == 0 {
            Seq::empty()
        } else if p.context_finished {
            up_rest
        } else {
            seq![self.ctx_track(p.ctx_cursor)] + up_rest + self.ctx_tail(p.ctx_cursor + 1)
        }
    }

    /// Where the up-next part of "from current" starts: the current up-next
    /// track while it plays, the one after it once up-next has started, else
    /// the first.
    pub open spec fn up_next_from_current_start(&self) -> int {
        let p = self.position();
        if p.in_up_next {
            p.up_cur
        } else if p.up_next_started {
            p.up_cur + 1
        } else {
            0
        }
    }

    /// The currently selected track.
    pub open spec fn current_spec(&self) -> Option<AppTrack> {
        if self.position().in_up_next {
            if self.up_len() > 0 {
                Some(self.up_next_queue().tracks_view()[self.up_next_queue().current()])
            } else {
                None
            }
        } else if self.ctx_len() > 0 {
            Some(self.context_queue().tracks_view()[self.context_queue().current()])
        } else {
            None
        }
    }

    /// The unified index of the current track.
    pub open spec fn current_global_spec(&self) -> Option<int> {
        if self.position().in_up_next {
            if self.up_len() > 0 {
                Some(self.position().up_cur)
            } else {
                None
            }
        } else if self.ctx_len() > 0 {
            Some(self.up_len() + self.position().ctx_cursor)
        } else {
            None
        }
    }

    /// Two-queue playback:
    /// - up_next plays next; context resumes after up_next
    /// - context is shufflable, indices are interpreted in playback order
    pub fn new() -> (pm: Self)
        ensures
            pm.wf(),
            pm.up_len() == 0,
            pm.ctx_len() == 0,
            pm.context_queue().state() == ShuffleState::Unavailable,
            pm.position() == (Position {
                in_up_next: false,
                up_next_started: false,
                context_finished: false,
                up_cur: 0,
                ctx_cursor: 0,
            }),
            pm.looping() == LoopState::Unavailable,
            pm.loop_synced(),
    {
        let mut pm = Self {
            context: TrackQueue::new_shufflable(),
            up_next: TrackQueue::new_linear(),
            active: ActiveQueue::Context,
            up_next_started: false,
            context_finished: false,
            loop_state: LoopState::Unavailable,
        };
        pm.sync_active_queue();
        pm.sync_loop_state_availability();
        pm
    }

    /// Return true if both queues are empty.
    pub fn is_empty(&self) -> (b: bool)
        requires
            self.wf(),
        ensures
            b == (self.up_len() == 0 && self.ctx_len() == 0),
    {
        self.up_next.is_empty() && self.context.is_empty()
    }

    /// Return total number of tracks across both queues.
    pub fn total_len(&self) -> (n: usize)
        requires
            self.wf(),
        ensures
            n == self.up_len() + self.ctx_len(),
    {
        self.up_next.len() + self.context.len()
    }

    /// Return the number of tracks in the up-next queue.
    pub fn up_next_len(&self) -> (n: usize)
        ensures
            n == self.up_len(),
    {
        self.up_next.len()
    }

    /// Return the number of tracks in the context queue.
    pub fn context_len(&self) -> (n: usize)
        ensures
            n == self.ctx_len(),
    {
        self.context.len()
    }

    /// Return the currently selected track.
    pub fn current_track(&self) -> (t: Option<&AppTrack>)
        requires
            self.wf(),
        ensures
            t is Some == self.current_spec() is Some,
            t is Some ==> *t.unwrap() == self.current_spec().unwrap(),
    {
        match self.active {
            ActiveQueue::UpNext => self.up_next.current_track(),
            ActiveQueue::Context => self.context.current_track(),
        }
    }

    /// Current index in the unified list:
    /// up_next: [0..up_next_len)
    /// context: [up_next_len..up_next_len+context_len) interpreted in *context playback order*
    pub fn current_global_index(&self) -> (g: Option<usize>)
        requires
            self.wf(),
        ensures
            g is Some == self.current_global_spec() is Some,
            g is Some ==> g.unwrap() == self.current_global_spec().unwrap(),
    {
        match self.active {
            ActiveQueue::UpNext => self.up_next.current_playback_index(),
            ActiveQueue::Context => match self.context.current_playback_index() {
                Some(i) => Some(self.up_next.len() + i),
                None => None,
            },
        }
    }

    /// Current looping state.
    pub fn loop_state(&self) -> (ls: LoopState)
        ensures
            ls == self.looping(),
    {
        self.loop_state
    }

    /// Toggle current looping state.
    ///
    /// * NotLooping -> LoopingTrack
    /// * LoopingTrack -> LoopingQueue
    /// * LoopingQueue -> NotLooping
    pub fn toggle_loop_state(&mut self) -> (ls: LoopState)
        requires
            old(self).wf(),
        ensures
            final(self).wf(),
            final(self).up_next_queue() == old(self).up_next_queue(),
            final(self).context_queue() == old(self).context_queue(),
            final(self).position() == old(self).position(),
            ls == final(self).looping(),
            final(self).loop_synced(),
            ls == loop_toggled(
                loop_after_sync(old(self).looping(), old(self).up_len() == 0 && old(self).ctx_len() == 0),
            ),
    {
        self.sync_loop_state_availability();
        if self.loop_state == LoopState::Unavailable {
            return self.loop_state;
        }
        self.loop_state = match self.loop_state {
            LoopState::NotLooping => LoopState::LoopingTrack,
            LoopState::LoopingTrack => LoopState::LoopingQueue,
            LoopState::LoopingQueue => LoopState::NotLooping,
            LoopState::Unavailable => LoopState::Unavailable,
        };
        self.loop_state
    }

    /// Ensure the active queue is valid after mutations.
    fn sync_active_queue(&mut self)
        requires
            old(self).base_wf(),
        ensures
            final(self).base_wf(),
            final(self).up_next_queue() == old(self).up_next_queue(),
            final(self).context_queue() == old(self).context_queue(),
            final(self).position() == sync_active(
                old(self).position(),
                old(self).up_len(),
                old(self).ctx_len(),
            ),
            final(self).looping() == old(self).looping(),
    {
        if self.active == ActiveQueue::UpNext && self.up_next.is_empty() {
            self.active = ActiveQueue::Context;
            self.context_finished = false;
        } else if self.active == ActiveQueue::Context && self.context.is_empty()
            && !self.up_next.is_empty() {
            self.active = ActiveQueue::UpNext;
            self.up_next_started = true;
        }
    }

    /// Keep looping availability in sync with queue contents.
    fn sync_loop_state_availability(&mut self)
        requires
            old(self).base_wf(),
        ensures
            final(self).base_wf(),
            final(self).up_next_queue() == old(self).up_next_queue(),
            final(self).context_queue() == old(self).context_queue(),
            final(self).position() == old(self).position(),
            final(self).looping() == loop_after_sync(
                old(self).looping(),
                old(self).up_len() == 0 && old(self).ctx_len() == 0,
            ),
    {
        if self.up_next.is_empty() && self.context.is_empty() {
            self.loop_state = LoopState::Unavailable;
        } else if self.loop_state == LoopState::Unavailable {
            self.loop_state = LoopState::NotLooping;
        }
    }

    /// Return the context queue shuffle state.
    pub fn shuffle_state(&self) -> (s: ShuffleState)
        ensures
            s == self.context_queue().state(),
    {
        self.context.shuffle_state()
    }

    /// Return true if context shuffle is enabled.
    pub fn is_shuffle_enabled(&self) -> (b: bool)
        ensures
            b == (self.context_queue().state() == ShuffleState::Enabled),
    {
        self.context.is_shuffle_enabled()
    }

    /// Return the context playback order as track indices.
    fn context_playback_order_vec(&self) -> (order: Vec<usize>)
        requires
            self.base_wf(),
        ensures
            order@ == self.context_queue().order(),
    {
        let mut it = self.context.playback_order_indices();
        let mut order: Vec<usize> = Vec::new();
        let ghost all = it.remaining();
        loop
            invariant
                self.base_wf(),
                all == self.context_queue().order(),
                order@ + it.remaining() == all,
            ensures
                order@ == all,
            decreases it.remaining().len(),
        {
            match it.next() {
                Some(i) => {
                    proof {
                        assert(order@.push(i) + it.remaining() =~= all);
                    }
                    order.push(i);
                },
                None => {
                    proof {
                        assert(order@ =~= all);
                    }
                    break;
                },
            }
        }
        order
    }

    /// Lookup a context track by its playback-order index.
    fn context_track_by_playback_index(&self, playback_index: usize) -> (t: Option<&AppTrack>)
        requires
            self.wf(),
        ensures
            t is Some == self.context_at(playback_index as int) is Some,
            t is Some ==> *t.unwrap() == self.context_at(playback_index as int).unwrap(),
    {
        let order = self.context_playback_order_vec();
        if playback_index < order.len() {
            self.context.track_at(order[playback_index])
        } else {
            None
        }
    }

    /// Lookup a track by its unified global index.
    pub fn track_by_global_index(&self, global_index: usize) -> (t: Option<&AppTrack>)
        requires
            self.wf(),
        ensures
            t is Some == self.global_track(global_index as int) is Some,
            t is Some ==> *t.unwrap() == self.global_track(global_index as int).unwrap(),
    {
        let up_len = self.up_next.len();
        if global_index < up_len {
            return self.up_next.track_at(global_index);
        }
        let playback_index: usize = global_index - up_len;
        self.context_track_by_playback_index(playback_index)
    }

    /// Navigation leaves the queues and the loop state alone and moves the
    /// position to `p`.
    pub open spec fn moved_to(&self, old: &PlaybackManager, p: Position) -> bool {
        &&& self.wf()
        &&& self.same_queues(old)
        &&& self.looping() == old.looping()
        &&& self.position() == p
    }

    /// Compute the next up-next index to play, if any.
    fn up_next_next_index(&self) -> (r: Option<usize>)
        requires
            self.wf(),
        ensures
            r is Some == up_next_next_spec(self.position(), self.up_len()) is Some,
            r is Some ==> r.unwrap() == up_next_next_spec(self.position(), self.up_len()).unwrap(),
    {
        if self.up_next.is_empty() {
            return None;
        }
        let cur: usize = match self.up_next.current_track_index() {
            Some(c) => c,
            None => 0,
        };
        if self.active == ActiveQueue::UpNext || self.up_next_started {
            let next: usize = cur + 1;
            if next < self.up_next.len() {
                Some(next)
            } else {
                None
            }
        } else {
            Some(cur)
        }
    }

    /// Switch playback to the next up-next track if available.
    fn switch_to_up_next_after_context(&mut self) -> (switched: bool)
        requires
            old(self).wf(),
        ensures
            final(self).moved_to(
                old(self),
                switch_to_up_next_spec(old(self).position(), old(self).up_len()).0,
            ),
            switched == switch_to_up_next_spec(old(self).position(), old(self).up_len()).1,
    {
        let next_idx = match self.up_next_next_index() {
            Some(i) => i,
            None => {
                return false;
            },
        };
        self.up_next.set_current_track_index(next_idx);
        self.active = ActiveQueue::UpNext;
        self.up_next_started = true;
        true
    }

    /// Determine the insertion position for "play next" items in up-next.
    fn up_next_index_after_current(&self) -> (k: usize)
        requires
            self.wf(),
        ensures
            k == insert_next_spec(self.position(), self.up_len()),
    {
        match self.active {
            ActiveQueue::UpNext => {
                let cur: usize = match self.up_next.current_track_index() {
                    Some(c) => c,
                    None => 0,
                };
                if cur + 1 < self.up_next.len() {
                    cur + 1
                } else {
                    self.up_next.len()
                }
            },
            ActiveQueue::Context => {
                let cur: usize = match self.up_next.current_track_index() {
                    Some(c) => c,
                    None => 0,
                };
                if self.up_next_started {
                    if cur + 1 < self.up_next.len() {
                        cur + 1
                    } else {
                        self.up_next.len()
                    }
                } else {
                    cur
                }
            },
        }
    }

    /// Reset the current track to the start of the context queue (or up-next if context is empty).
    fn reset_to_start(&mut self)
        requires
            old(self).wf(),
        ensures
            final(self).moved_to(
                old(self),
                reset_to_start_spec(old(self).position(), old(self).up_len(), old(self).ctx_len()),
            ),
    {
        if !self.context.is_empty() {
            self.active = ActiveQueue::Context;
            self.context.set_current_playback_index(0);
            self.context_finished = false;
            return;
        }
        if !self.up_next.is_empty() {
            self.active = ActiveQueue::UpNext;
            self.up_next.set_current_track_index(0);
            self.up_next_started = false;
        }
    }

    /// Set current track by unified index (context indices are interpreted in context playback order).
    pub fn set_current_global_index(&mut self, global_index: usize)
        requires
            old(self).wf(),
        ensures
            final(self).moved_to(
                old(self),
                jump_spec(old(self).position(), old(self).up_len(), old(self).ctx_len(), global_index as int),
            ),
    {
        let up_len = self.up_next.len();
        if global_index < up_len {
            self.active = ActiveQueue::UpNext;
            self.up_next.set_current_track_index(global_index);
            self.up_next_started = true;
            return;
        }
        let ctx_i: usize = global_index - up_len;
        if ctx_i < self.context.len() {
            self.active = ActiveQueue::Context;
            self.context.set_current_playback_index(ctx_i);
            self.context_finished = false;
        }
        self.sync_active_queue();
    }

    /// Advance to the next track (see `advance_next_spec`).
    /// Returns true if the current track changed, false if already at end.
    pub fn advance_next(&mut self, wrap_context: bool) -> (moved: bool)
        requires
            old(self).wf(),
        ensures
            final(self).moved_to(
                old(self),
                advance_next_spec(
                    old(self).position(),
                    old(self).up_len(),
                    old(self).ctx_len(),
                    wrap_context,
                ).0,
            ),
            moved == advance_next_spec(
                old(self).position(),
                old(self).up_len(),
                old(self).ctx_len(),
                wrap_context,
            ).1,
            !moved ==> final(self).position() == old(self).position(),
    {
        self.sync_active_queue();
        match self.active {
            ActiveQueue::UpNext => {
                if self.up_next.next(false).is_some() {
                    self.up_next_started = true;
                    return true;
                }
                // up_next ended -> the context resumes, unless it is empty or
                // already played through
                if self.context.is_empty() {
                    return false;
                }
                if self.context_finished {
                    if wrap_context {
                        self.active = ActiveQueue::Context;
                        self.up_next_started = true;
                        self.context.set_current_playback_index(0);
                        self.context_finished = false;
                        return true;
                    }
                    return false;
                }
                self.active = ActiveQueue::Context;
                self.up_next_started = true;
                true
            },
            ActiveQueue::Context => {
                if self.context.next(false).is_some() {
                    self.context_finished = false;
                    let _ = self.switch_to_up_next_after_context();
                    return true;
                }
                // context ended: up-next plays on, with the context finished
                if self.switch_to_up_next_after_context() {
                    self.context_finished = true;
                    return true;
                }
                if wrap_context && !self.context.is_empty() {
                    self.context.set_current_playback_index(0);
                    self.context_finished = false;
                    return true;
                }
                false
            },
        }
    }

    /// Go to the previous track (see `advance_prev_spec`).
    /// Returns true if the current track changed, false if already at start.
    fn advance_prev(&mut self, wrap_context: bool) -> (moved: bool)
        requires
            old(self).wf(),
        ensures
            final(self).moved_to(
                old(self),
                advance_prev_spec(
                    old(self).position(),
                    old(self).up_len(),
                    old(self).ctx_len(),
                    wrap_context,
                ).0,
            ),
            moved == advance_prev_spec(
                old(self).position(),
                old(self).up_len(),
                old(self).ctx_len(),
                wrap_context,
            ).1,
    {
        self.sync_active_queue();
        match self.active {
            ActiveQueue::UpNext => {
                if self.up_next.prev(false).is_some() {
                    self.up_next_started = true;
                    return true;
                }
                if wrap_context && !self.context.is_empty() {
                    self.active = ActiveQueue::Context;
                    self.up_next_started = true;
                    let last: usize = self.context.len() - 1;
                    self.context.set_current_playback_index(last);
                    self.context_finished = false;
                    return true;
                }
                false
            },
            ActiveQueue::Context => {
                if self.context.is_empty() {
                    return false;
                }
                if self.context.prev(false).is_some() {
                    self.context_finished = false;
                    return true;
                }
                if wrap_context {
                    let last: usize = self.context.len() - 1;
                    self.context.set_current_playback_index(last);
                    self.context_finished = false;
                    return true;
                }
                if self.up_next_started && !self.up_next.is_empty() {
                    self.active = ActiveQueue::UpNext;
                    self.context_finished = false;
                    return true;
                }
                false
            },
        }
    }

    /// Advance playback according to the reason and loop mode.
    pub fn advance(&mut self, reason: AdvanceReason) -> (outcome: AdvanceOutcome)
        requires
            old(self).wf(),
        ensures
            final(self).moved_to(
                old(self),
                advance_spec(
                    old(self).position(),
                    old(self).up_len(),
                    old(self).ctx_len(),
                    old(self).looping(),
                    reason,
                ).0,
            ),
            outcome == advance_spec(
                old(self).position(),
                old(self).up_len(),
                old(self).ctx_len(),
                old(self).looping(),
                reason,
            ).1,
            outcome == AdvanceOutcome::NoChange ==> final(self).position() == old(self).position(),
    {
        let loop_state = match self.loop_state {
            LoopState::Unavailable => LoopState::NotLooping,
            other => other,
        };
        let effective_loop = match reason {
            AdvanceReason::Natural => loop_state,
            AdvanceReason::Skip | AdvanceReason::Previous => match loop_state {
                LoopState::LoopingQueue => LoopState::LoopingQueue,
                _ => LoopState::NotLooping,
            },
        };
        if effective_loop == LoopState::LoopingTrack && reason == AdvanceReason::Natural {
            return AdvanceOutcome::RestartCurrent;
        }
        let wrap_context = effective_loop == LoopState::LoopingQueue;
        let moved = match reason {
            AdvanceReason::Natural | AdvanceReason::Skip => self.advance_next(wrap_context),
            AdvanceReason::Previous => self.advance_prev(wrap_context),
        };
        if moved {
            return AdvanceOutcome::Moved;
        }
        if reason == AdvanceReason::Natural {
            self.reset_to_start();
            return AdvanceOutcome::Ended;
        }
        AdvanceOutcome::NoChange
    }

    /// Clear the up-next queue.
    pub fn clear_up_next(&mut self)
        requires
            old(self).wf(),
        ensures
            final(self).wf(),
            final(self).up_len() == 0,
            final(self).context_queue() == old(self).context_queue(),
            final(self).position() == sync_active(
                Position { up_next_started: false, up_cur: 0, ..old(self).position() },
                0,
                old(self).ctx_len(),
            ),
            final(self).looping() == loop_after_sync(old(self).looping(), old(self).ctx_len() == 0),
            final(self).loop_synced(),
    {
        self.up_next.clear();
        self.up_next_started = false;
        self.sync_active_queue();
        self.sync_loop_state_availability();
    }

    /// Clear both queues.
    pub fn clear_all(&mut self)
        requires
            old(self).wf(),
        ensures
            final(self).wf(),
            final(self).up_len() == 0,
            final(self).ctx_len() == 0,
            final(self).context_queue().state() == ShuffleState::Unavailable,
            final(self).position() == (Position {
                in_up_next: false,
                up_next_started: false,
                context_finished: false,
                up_cur: 0,
                ctx_cursor: 0,
            }),
            final(self).looping() == LoopState::Unavailable,
            final(self).loop_synced(),
    {
        self.up_next.clear();
        self.context.clear();
        self.up_next_started = false;
        self.context_finished = false;
        self.sync_active_queue();
        self.sync_loop_state_availability();
    }

    /// Replace context contents (playlist/album) and clear up_next.
    pub fn set_context_tracks(&mut self, tracks: Vec<AppTrack>)
        requires
            old(self).wf(),
        ensures
            final(self).wf(),
            final(self).up_len() == 0,
            final(self).context_queue().tracks_view() == tracks@,
            final(self).context_queue().current() == 0,
            final(self).context_queue().state() == settled_state(
                true,
                old(self).context_queue().state(),
                tracks@.len(),
            ),
            final(self).position() == sync_active(
                Position {
                    up_next_started: false,
                    context_finished: false,
                    up_cur: 0,
                    ctx_cursor: 0,
                    ..old(self).position()
                },
                0,
                tracks@.len(),
            ),
            final(self).looping() == loop_after_sync(old(self).looping(), tracks@.len() == 0),
            final(self).loop_synced(),
    {
        self.context.set_tracks(tracks);
        self.up_next.clear();
        self.up_next_started = false;
        self.context_finished = false;
        self.sync_active_queue();
        self.sync_loop_state_availability();
    }

    /// After tracks were added to up-next: the context is untouched, the
    /// up-next queue is the old one with `incoming` inserted at `at` (with the
    /// up-next cursor on the first new track when `cursor_on_new` is set, so
    /// that it plays before the tracks that were waiting), the active queue is
    /// re-synced and looping becomes available.
    pub open spec fn up_next_grew(
        &self,
        old: &PlaybackManager,
        at: nat,
        incoming: Seq<AppTrack>,
        cursor_on_new: bool,
    ) -> bool {
        &&& self.wf()
        &&& self.context_queue() == old.context_queue()
        &&& if cursor_on_new && incoming.len() > 0 {
            &&& self.up_next_queue().tracks_view() == spliced(
                old.up_next_queue().tracks_view(),
                at as int,
                incoming,
            )
            &&& self.up_next_queue().current() == at
        } else {
            inserted_at(old.up_next_queue(), self.up_next_queue(), at, incoming)
        }
        &&& self.position() == sync_active(
            Position { up_cur: self.up_next_queue().current(), ..old.position() },
            self.up_len(),
            old.ctx_len(),
        )
        &&& self.looping() == loop_after_sync(old.looping(), self.up_len() == 0 && old.ctx_len() == 0)
        &&& self.loop_synced()
    }

    /// Queue to play immediately after the current track (front of up_next).
    /// If currently in context, this becomes the next track overall.
    pub fn queue_next(&mut self, track: AppTrack)
        requires
            old(self).wf(),
            old(self).up_len() + old(self).ctx_len() < usize::MAX,
        ensures
            final(self).up_next_grew(
                old(self),
                insert_next_spec(old(self).position(), old(self).up_len()),
                seq![track],
                up_next_pending(old(self).position()),
            ),
    {
        let pending = self.active == ActiveQueue::Context && !self.up_next_started;
        let next_idx = self.up_next_index_after_current();
        self.up_next.insert_one_at(next_idx, track);
        if pending {
            self.up_next.set_current_track_index(next_idx);
        }
        self.sync_active_queue();
        self.sync_loop_state_availability();
    }

    /// Queue multiple tracks to play immediately after the current track.
    pub fn queue_next_many(&mut self, tracks: Vec<AppTrack>)
        requires
            old(self).wf(),
            old(self).up_len() + old(self).ctx_len() + tracks@.len() <= usize::MAX,
        ensures
            final(self).up_next_grew(
                old(self),
                insert_next_spec(old(self).position(), old(self).up_len()),
                tracks@,
                up_next_pending(old(self).position()),
            ),
    {
        let pending = self.active == ActiveQueue::Context && !self.up_next_started;
        let count: usize = tracks.len();
        let insert_at = self.up_next_index_after_current();
        self.up_next.insert_many_at(insert_at, tracks);
        if pending && count > 0 {
            self.up_next.set_current_track_index(insert_at);
        }
        self.sync_active_queue();
        self.sync_loop_state_availability();
    }

    /// Queue at the end of up_next.
    pub fn queue_last(&mut self, track: AppTrack)
        requires
            old(self).wf(),
            old(self).up_len() + old(self).ctx_len() < usize::MAX,
        ensures
            final(self).up_next_grew(old(self), old(self).up_len(), seq![track], false),
    {
        self.up_next.push_back(track);
        self.sync_active_queue();
        self.sync_loop_state_availability();
    }

    /// Queue multiple tracks at the end of up-next.
    pub fn queue_last_many(&mut self, tracks: Vec<AppTrack>)
        requires
            old(self).wf(),
            old(self).up_len() + old(self).ctx_len() + tracks@.len() <= usize::MAX,
        ensures
            final(self).up_next_grew(old(self), old(self).up_len(), tracks@, false),
    {
        self.up_next.extend_back(tracks);
        self.sync_active_queue();
        self.sync_loop_state_availability();
    }

    /// Remove a context track by its playback-order index.
    fn remove_context_by_playback_index(&mut self, playback_index: usize)
        requires
            old(self).base_wf(),
        ensures
            final(self).base_wf(),
            final(self).up_next_queue() == old(self).up_next_queue(),
            final(self).looping() == old(self).looping(),
            final(self).active == old(self).active,
            final(self).up_next_started == old(self).up_next_started,
            final(self).context_finished == old(self).context_finished,
            playback_index >= old(self).ctx_len() ==> final(self).context_queue()
                == old(self).context_queue(),
            playback_index < old(self).ctx_len() ==> removed_at(
                old(self).context_queue(),
                final(self).context_queue(),
                old(self).context_queue().order()[playback_index as int] as nat,
            ),
    {
        if self.context.is_empty() {
            return;
        }
        let order = self.context_playback_order_vec();
        if playback_index >= order.len() {
            return;
        }
        let track_idx: usize = order[playback_index];
        let _ = self.context.remove_at(track_idx);
    }

    /// Remove by unified index (context indices are interpreted in context playback order).
    pub fn remove_by_global_index(&mut self, global_index: usize)
        requires
            old(self).wf(),
        ensures
            final(self).wf(),
            ({
                let p = old(self).position();
                let up_len = old(self).up_len();
                let ctx_len = old(self).ctx_len();
                if global_index < up_len {
                    &&& removed_at(
                        old(self).up_next_queue(),
                        final(self).up_next_queue(),
                        global_index as nat,
                    )
                    &&& final(self).context_queue() == old(self).context_queue()
                    &&& final(self).position() == sync_active(
                        Position {
                            up_cur: final(self).up_next_queue().current(),
                            up_next_started: p.up_next_started && up_len > 1,
                            ..p
                        },
                        (up_len - 1) as nat,
                        ctx_len,
                    )
                } else if global_index - up_len < ctx_len {
                    &&& final(self).up_next_queue() == old(self).up_next_queue()
                    &&& removed_at(
                        old(self).context_queue(),
                        final(self).context_queue(),
                        old(self).context_queue().order()[global_index - up_len] as nat,
                    )
                    &&& final(self).position() == sync_active(
                        Position {
                            ctx_cursor: final(self).context_queue().cursor(),
                            context_finished: p.context_finished && ctx_len > 1,
                            ..p
                        },
                        up_len,
                        (ctx_len - 1) as nat,
                    )
                } else {
                    &&& final(self).same_queues(old(self))
                    &&& final(self).position() == sync_active(
                        Position { context_finished: p.context_finished && ctx_len > 0, ..p },
                        up_len,
                        ctx_len,
                    )
                }
            }),
            final(self).looping() == loop_after_sync(
                old(self).looping(),
                final(self).up_len() == 0 && final(self).ctx_len() == 0,
            ),
            final(self).loop_synced(),
    {
        let up_len = self.up_next.len();
        if global_index < up_len {
            let _ = self.up_next.remove_at(global_index);
            if self.up_next.is_empty() {
                self.up_next_started = false;
            }
            self.sync_active_queue();
            self.sync_loop_state_availability();
            return;
        }
        let ctx_playback_index: usize = global_index - up_len;
        self.remove_context_by_playback_index(ctx_playback_index);
        if self.context.is_empty() {
            self.context_finished = false;
        }
        self.sync_active_queue();
        self.sync_loop_state_availability();
    }

    /// Split unified indices into:
    /// (played_up_next, played_context, upcoming_up_next, upcoming_context)
    fn split_indices(&self) -> (r: (Vec<usize>, Vec<usize>, Vec<usize>, Vec<usize>))
        requires
            self.wf(),
        ensures
            r.0@ == played_up_spec(self.position(), self.up_len()),
            r.1@ == played_ctx_spec(self.position(), self.up_len(), self.ctx_len()),
            r.2@ == upcoming_up_spec(self.position(), self.up_len()),
            r.3@ == upcoming_ctx_spec(self.position(), self.up_len(), self.ctx_len()),
    {
        let up_len = self.up_next.len();
        let ctx_len = self.context.len();
        let mut played_up: Vec<usize> = Vec::new();
        let mut played_ctx: Vec<usize> = Vec::new();
        let mut upcoming_up: Vec<usize> = Vec::new();
        let mut upcoming_ctx: Vec<usize> = Vec::new();
        if up_len == 0 && ctx_len == 0 {
            return (played_up, played_ctx, upcoming_up, upcoming_ctx);
        }
        if up_len > 0 {
            let cur: usize = match self.up_next.current_track_index() {
                Some(c) => c,
                None => 0,
            };
            if self.active == ActiveQueue::UpNext {
                played_up = range_vec(0, cur);
                upcoming_up = range_vec(cur + 1, up_len);
            } else if self.up_next_started {
                played_up = range_vec(0, cur + 1);
                upcoming_up = range_vec(cur + 1, up_len);
            } else {
                upcoming_up = range_vec(0, up_len);
            }
        }
        if ctx_len > 0 {
            let base: usize = up_len;
            if self.context_finished {
                played_ctx = range_vec(base, base + ctx_len);
            } else {
                let cur: usize = match self.context.current_playback_index() {
                    Some(c) => c,
                    None => 0,
                };
                if self.active == ActiveQueue::Context {
                    played_ctx = range_vec(base, base + cur);
                    upcoming_ctx = range_vec(base + cur + 1, base + ctx_len);
                } else {
                    played_ctx = range_vec(base, base + cur);
                    upcoming_ctx = range_vec(base + cur, base + ctx_len);
                }
            }
        }
        (played_up, played_ctx, upcoming_up, upcoming_ctx)
    }

    /// Global indices of tracks already played (excluding current).
    pub fn played_global_indices(&self) -> (v: Vec<usize>)
        requires
            self.wf(),
        ensures
            v@ == played_up_spec(self.position(), self.up_len()) + played_ctx_spec(
                self.position(),
                self.up_len(),
                self.ctx_len(),
            ),
    {
        let (mut up_played, mut ctx_played, _, _) = self.split_indices();
        up_played.append(&mut ctx_played);
        up_played
    }

    /// Global indices of tracks still upcoming (excluding current).
    pub fn upcoming_global_indices(&self) -> (v: Vec<usize>)
        requires
            self.wf(),
        ensures
            v@ == upcoming_up_spec(self.position(), self.up_len()) + upcoming_ctx_spec(
                self.position(),
                self.up_len(),
                self.ctx_len(),
            ),
    {
        let (_, _, mut up_upcoming, mut ctx_upcoming) = self.split_indices();
        up_upcoming.append(&mut ctx_upcoming);
        up_upcoming
    }

    /// Per-queue global indices of already played tracks (excluding current).
    pub fn played_up_next_global_indices(&self) -> (v: Vec<usize>)
        requires
            self.wf(),
        ensures
            v@ == played_up_spec(self.position(), self.up_len()),
    {
        let (up_played, _, _, _) = self.split_indices();
        up_played
    }

    /// Global indices of already played context tracks (excluding current).
    pub fn played_context_global_indices(&self) -> (v: Vec<usize>)
        requires
            self.wf(),
        ensures
            v@ == played_ctx_spec(self.position(), self.up_len(), self.ctx_len()),
    {
        let (_, ctx_played, _, _) = self.split_indices();
        ctx_played
    }

    /// Per-queue global indices of upcoming tracks (excluding current).
    pub fn upcoming_up_next_global_indices(&self) -> (v: Vec<usize>)
        requires
            self.wf(),
        ensures
            v@ == upcoming_up_spec(self.position(), self.up_len()),
    {
        let (_, _, up_upcoming, _) = self.split_indices();
        up_upcoming
    }

    /// Global indices of upcoming context tracks (excluding current).
    pub fn upcoming_context_global_indices(&self) -> (v: Vec<usize>)
        requires
            self.wf(),
        ensures
            v@ == upcoming_ctx_spec(self.position(), self.up_len(), self.ctx_len()),
    {
        let (_, _, _, ctx_upcoming) = self.split_indices();
        ctx_upcoming
    }

    /// Append context tracks from a playback-order index into `out`.
    fn extend_context_from_playback_index(&self, start_playback_index: usize, out: &mut Vec<AppTrack>)
        requires
            self.wf(),
        ensures
            final(out)@.len() == old(out)@.len() + self.ctx_tail(start_playback_index as int).len(),
            final(out)@.subrange(0, old(out)@.len() as int) == old(out)@,
            same_tracks(
                final(out)@.subrange(old(out)@.len() as int, final(out)@.len() as int),
                self.ctx_tail(start_playback_index as int),
            ),
    {
        let ghost start_out = out@;
        let ghost tail = self.ctx_tail(start_playback_index as int);
        if self.context.is_empty() {
            proof {
                assert(out@.subrange(0, start_out.len() as int) =~= start_out);
                assert(out@.subrange(start_out.len() as int, out@.len() as int) =~= tail);
            }
            return;
        }
        let order = self.context_playback_order_vec();
        let n: usize = order.len();
        if start_playback_index >= n {
            proof {
                assert(out@.subrange(0, start_out.len() as int) =~= start_out);
                assert(out@.subrange(start_out.len() as int, out@.len() as int) =~= tail);
            }
            return;
        }
        let mut playback_i: usize = start_playback_index;
        while playback_i < n
            invariant
                self.wf(),
                n == self.ctx_len(),
                order@ == self.context_queue().order(),
                tail == self.ctx_tail(start_playback_index as int),
                start_playback_index <= playback_i <= n,
                out@.len() == start_out.len() + (playback_i - start_playback_index),
                out@.subrange(0, start_out.len() as int) == start_out,
                forall|k: int|
                    0 <= k < playback_i - start_playback_index ==> (#[trigger] out@[start_out.len()
                        + k]).same_as(&self.ctx_track(start_playback_index + k)),
            decreases n - playback_i,
        {
            let track_idx: usize = order[playback_i];
            assert(track_idx < self.context_queue().tracks_view().len());
            match self.context.track_at(track_idx) {
                Some(t) => {
                    out.push(t.duplicate());
                },
                None => {},
            }
            playback_i += 1;
            proof {
                assert(out@.subrange(0, start_out.len() as int) =~= start_out);
            }
        }
        proof {
            let got = out@.subrange(start_out.len() as int, out@.len() as int);
            assert(got.len() == tail.len());
            assert forall|k: int| 0 <= k < got.len() implies (#[trigger] got[k]).same_as(&tail[k]) by {
                assert(got[k] == out@[start_out.len() + k]);
            }
        }
    }

    /// Append up-next tracks from a linear index into `out`.
    fn extend_up_next_from_index(&self, start: usize, out: &mut Vec<AppTrack>)
        requires
            self.wf(),
        ensures
            final(out)@.len() == old(out)@.len() + self.up_tail(start as int).len(),
            final(out)@.subrange(0, old(out)@.len() as int) == old(out)@,
            same_tracks(
                final(out)@.subrange(old(out)@.len() as int, final(out)@.len() as int),
                self.up_tail(start as int),
            ),
    {
        let ghost start_out = out@;
        let ghost tail = self.up_tail(start as int);
        let up_len = self.up_next.len();
        if start >= up_len {
            proof {
                assert(out@.subrange(0, start_out.len() as int) =~= start_out);
                assert(out@.subrange(start_out.len() as int, out@.len() as int) =~= tail);
            }
            return;
        }
        let mut i: usize = start;
        while i < up_len
            invariant
                self.wf(),
                up_len == self.up_len(),
                tail == self.up_tail(start as int),
                start <= i <= up_len,
                out@.len() == start_out.len() + (i - start),
                out@.subrange(0, start_out.len() as int) == start_out,
                forall|k: int|
                    0 <= k < i - start ==> (#[trigger] out@[start_out.len() + k]).same_as(
                        &self.up_next_queue().tracks_view()[start + k],
                    ),
            decreases up_len - i,
        {
            match self.up_next.track_at(i) {
                Some(t) => {
                    out.push(t.duplicate());
                },
                None => {},
            }
            i += 1;
        }
        proof {
            let got = out@.subrange(start_out.len() as int, out@.len() as int);
            assert forall|k: int| 0 <= k < got.len() implies (#[trigger] got[k]).same_as(&tail[k]) by {
                assert(got[k] == out@[start_out.len() + k]);
            }
        }
    }

    /// Tracks starting from the current track (includes current), across both queues.
    pub fn tracks_from_current(&self) -> (out: Vec<AppTrack>)
        requires
            self.wf(),
        ensures
            same_tracks(out@, self.from_current_spec()),
    {
        let mut out: Vec<AppTrack> = Vec::new();
        match self.active {
            ActiveQueue::UpNext => {
                let up_len = self.up_next.len();
                let ghost t1 = self.up_tail(self.position().up_cur);
                match self.up_next.current_track_index() {
                    Some(cur) => {
                        self.extend_up_next_from_index(cur, &mut out);
                    },
                    None => {
                        proof {
                            assert(out@.subrange(0, 0) =~= t1);
                        }
                    },
                }
                let ghost k = out@.len();
                let ghost before = out@;
                assert(same_tracks(before, t1)) by {
                    assert(before.subrange(0, before.len() as int) =~= before);
                }
                if !self.context_finished {
                    let ctx_start: usize = match self.context.current_playback_index() {
                        Some(c) => c,
                        None => 0,
                    };
                    self.extend_context_from_playback_index(ctx_start, &mut out);
                    proof {
                        assert(out@.subrange(0, k as int) == before);
                        lemma_same_tracks_concat(
                            out@,
                            k as int,
                            t1,
                            self.ctx_tail(self.position().ctx_cursor),
                        );
                    }
                } else {
                    proof {
                        assert(out@.subrange(k as int, out@.len() as int) =~= Seq::<AppTrack>::empty());
                        lemma_same_tracks_concat(out@, k as int, t1, Seq::empty());
                    }
                }
            },
            ActiveQueue::Context => {
                if self.context.is_empty() {
                    return out;
                }
                if self.context_finished {
                    if let Some(start) = self.up_next_next_index() {
                        self.extend_up_next_from_index(start, &mut out);
                        proof {
                            assert(out@.subrange(0, out@.len() as int) =~= out@);
                        }
                    }
                    return out;
                }
                let cur: usize = match self.context.current_playback_index() {
                    Some(c) => c,
                    None => 0,
                };
                if let Some(track) = self.context_track_by_playback_index(cur) {
                    out.push(track.duplicate());
                }
                let ghost k1 = out@.len();
                let ghost up_rest = match up_next_next_spec(self.position(), self.up_len()) {
                    Some(k) => self.up_tail(k),
                    None => Seq::empty(),
                };
                if let Some(start) = self.up_next_next_index() {
                    self.extend_up_next_from_index(start, &mut out);
                } else {
                    proof {
                        assert(out@.subrange(k1 as int, out@.len() as int) =~= up_rest);
                        assert(out@.subrange(0, k1 as int) =~= out@);
                    }
                }
                proof {
                    assert(same_tracks(out@.subrange(0, k1 as int), seq![self.ctx_track(cur as int)]));
                    lemma_same_tracks_concat(
                        out@,
                        k1 as int,
                        seq![self.ctx_track(cur as int)],
                        up_rest,
                    );
                }
                let ghost k2 = out@.len();
                let ghost before = out@;
                self.extend_context_from_playback_index(cur + 1, &mut out);
                proof {
                    assert(out@.subrange(0, k2 as int) == before);
                    lemma_same_tracks_concat(
                        out@,
                        k2 as int,
                        seq![self.ctx_track(cur as int)] + up_rest,
                        self.ctx_tail(cur + 1),
                    );
                }
            },
        }
        out
    }

    /// Context tracks starting from the current context track (includes current),
    /// interpreted in context playback order.
    pub fn context_tracks_from_current(&self) -> (out: Vec<AppTrack>)
        requires
            self.wf(),
        ensures
            same_tracks(
                out@,
                if self.position().context_finished {
                    Seq::empty()
                } else {
                    self.ctx_tail(self.position().ctx_cursor)
                },
            ),
    {
        let mut out: Vec<AppTrack> = Vec::new();
        if self.context.is_empty() || self.context_finished {
            return out;
        }
        let start: usize = match self.context.current_playback_index() {
            Some(c) => c,
            None => 0,
        };
        self.extend_context_from_playback_index(start, &mut out);
        proof {
            assert(out@.subrange(0, out@.len() as int) =~= out@);
        }
        out
    }

    /// Up-next tracks starting from the current up-next track (includes current),
    /// in linear order.
    pub fn up_next_tracks_from_current(&self) -> (out: Vec<AppTrack>)
        requires
            self.wf(),
        ensures
            same_tracks(out@, self.up_tail(self.up_next_from_current_start())),
    {
        let mut out: Vec<AppTrack> = Vec::new();
        let up_len = self.up_next.len();
        if up_len == 0 {
            return out;
        }
        let start: usize = match self.active {
            ActiveQueue::UpNext => match self.up_next.current_track_index() {
                Some(c) => c,
                None => 0,
            },
            ActiveQueue::Context => {
                if self.up_next_started {
                    let cur: usize = match self.up_next.current_track_index() {
                        Some(c) => c,
                        None => 0,
                    };
                    cur.saturating_add(1)
                } else {
                    0
                }
            },
        };
        if start >= up_len {
            return out;
        }
        self.extend_up_next_from_index(start, &mut out);
        proof {
            assert(out@.subrange(0, out@.len() as int) =~= out@);
        }
        out
    }

    /// Toggle context shuffle.
    /// If shuffle is unavailable, does nothing.
    pub fn toggle_shuffle(&mut self)
        requires
            old(self).wf(),
        ensures
            final(self).wf(),
            final(self).up_next_queue() == old(self).up_next_queue(),
            final(self).looping() == old(self).looping(),
            final(self).position().in_up_next == old(self).position().in_up_next,
            final(self).position().up_next_started == old(self).position().up_next_started,
            final(self).position().context_finished == old(self).position().context_finished,
            final(self).context_queue().tracks_view() == old(self).context_queue().tracks_view(),
            final(self).context_queue().current() == old(self).context_queue().current(),
            old(self).context_queue().state() == ShuffleState::Unavailable
                ==> final(self).context_queue() == old(self).context_queue(),
            old(self).context_queue().state() == ShuffleState::Enabled
                ==> final(self).context_queue().state() == ShuffleState::Disabled,
            old(self).context_queue().state() == ShuffleState::Disabled
                ==> final(self).context_queue().state() == ShuffleState::Enabled
                && final(self).context_queue().cursor() == 0 && final(self).position().ctx_cursor
                == 0,
            final(self).position().up_cur == old(self).position().up_cur,
            old(self).context_queue().state() == ShuffleState::Unavailable
                ==> final(self).position() == old(self).position(),
            old(self).context_queue().state() == ShuffleState::Enabled
                ==> final(self).position().ctx_cursor == old(self).context_queue().current(),
            old(self).loop_synced() ==> final(self).loop_synced(),
    {
        if self.context.shuffle_state() == ShuffleState::Unavailable {
            return;
        }
        if self.context.is_shuffle_enabled() {
            self.context.disable_shuffle();
        } else {
            self.context.enable_shuffle();
        }
    }
}


/// `x` is among the indices `a..b` exactly when `a <= x < b`.
proof fn lemma_index_range_contains(a: int, b: int, x: int)
    requires
        0 <= a,
        b <= usize::MAX,
        0 <= x <= usize::MAX,
    ensures
        index_range(a, b).contains(x as usize) <==> a <= x < b,
{
    if a <= x < b {
        assert(index_range(a, b)[x - a] == x as usize);
    }
    if index_range(a, b).contains(x as usize) {
        let i = choose|i: int| 0 <= i < index_range(a, b).len() && index_range(a, b)[i] == x as usize;
        assert(index_range(a, b)[i] == (a + i) as usize);
    }
}

/// Toggling an available loop state three times comes back to it.
pub proof fn law_loop_toggle_cycles(ls: LoopState)
    requires
        ls != LoopState::Unavailable,
    ensures
        loop_toggled(loop_toggled(loop_toggled(ls))) == ls,
        loop_toggled(ls) != ls,
{
}

/// After the queues change, looping is unavailable exactly when both queues
/// are empty.
pub proof fn law_loop_unavailable_iff_empty(ls: LoopState, empty: bool)
    ensures
        (loop_after_sync(ls, empty) == LoopState::Unavailable) == empty,
{
}

/// Selecting a unified index that exists makes it the current index, and the
/// current track is the track found at that index.
pub proof fn law_jump_selects_index(pm0: PlaybackManager, pm1: PlaybackManager, g: int)
    requires
        pm0.wf(),
        0 <= g < pm0.up_len() + pm0.ctx_len(),
        pm1.moved_to(&pm0, jump_spec(pm0.position(), pm0.up_len(), pm0.ctx_len(), g)),
    ensures
        pm1.current_global_spec() == Some(g),
        pm1.current_spec() == pm0.global_track(g),
{
}

/// While a track is current, every unified index is exactly one of: already
/// played, the current one, or still to come.
pub proof fn law_played_current_upcoming_partition(pm: PlaybackManager, g: int)
    requires
        pm.wf(),
        pm.current_global_spec() is Some,
        0 <= g < pm.up_len() + pm.ctx_len(),
    ensures
        ({
            let p = pm.position();
            let played = played_up_spec(p, pm.up_len()) + played_ctx_spec(p, pm.up_len(), pm.ctx_len());
            let upcoming = upcoming_up_spec(p, pm.up_len()) + upcoming_ctx_spec(
                p,
                pm.up_len(),
                pm.ctx_len(),
            );
            let c = pm.current_global_spec().unwrap();
            &&& played.contains(g as usize) || g == c || upcoming.contains(g as usize)
            &&& !(played.contains(g as usize) && g == c)
            &&& !(upcoming.contains(g as usize) && g == c)
            &&& !(played.contains(g as usize) && upcoming.contains(g as usize))
        }),
{
    let p = pm.position();
    let u = pm.up_len() as int;
    let n = pm.ctx_len() as int;
    let pu = played_up_spec(p, pm.up_len());
    let pc = played_ctx_spec(p, pm.up_len(), pm.ctx_len());
    let uu = upcoming_up_spec(p, pm.up_len());
    let uc = upcoming_ctx_spec(p, pm.up_len(), pm.ctx_len());
    lemma_index_range_contains(0, p.up_cur, g);
    lemma_index_range_contains(0, p.up_cur + 1, g);
    lemma_index_range_contains(p.up_cur + 1, u, g);
    lemma_index_range_contains(0, u, g);
    lemma_index_range_contains(u, u + n, g);
    lemma_index_range_contains(u, u + p.ctx_cursor, g);
    lemma_index_range_contains(u + p.ctx_cursor, u + n, g);
    lemma_index_range_contains(u + p.ctx_cursor + 1, u + n, g);
    assert((pu + pc).contains(g as usize) <==> pu.contains(g as usize) || pc.contains(g as usize)) by {
        if pc.contains(g as usize) {
            let i = choose|i: int| 0 <= i < pc.len() && pc[i] == g as usize;
            assert((pu + pc)[pu.len() + i] == g as usize);
        }
        if pu.contains(g as usize) {
            let i = choose|i: int| 0 <= i < pu.len() && pu[i] == g as usize;
            assert((pu + pc)[i] == g as usize);
        }
    }
    assert((uu + uc).contains(g as usize) <==> uu.contains(g as usize) || uc.contains(g as usize)) by {
        if uc.contains(g as usize) {
            let i = choose|i: int| 0 <= i < uc.len() && uc[i] == g as usize;
            assert((uu + uc)[uu.len() + i] == g as usize);
        }
        if uu.contains(g as usize) {
            let i = choose|i: int| 0 <= i < uu.len() && uu[i] == g as usize;
            assert((uu + uc)[i] == g as usize);
        }
    }
}

/// The tracks from the current one on start with the current track.
pub proof fn law_from_current_starts_with_current(pm: PlaybackManager)
    requires
        pm.wf(),
        pm.current_spec() is Some,
    ensures
        pm.from_current_spec().len() > 0,
        pm.from_current_spec()[0] == pm.current_spec().unwrap(),
{
}

/// A track queued with "play next" while a track plays is the track that
/// plays next: it is inserted right after the current up-next track (or at
/// the up-next cursor, before the tracks still waiting there), and one step
/// forward lands on it.
pub proof fn law_queued_next_plays_next(
    pm0: PlaybackManager,
    pm1: PlaybackManager,
    pm2: PlaybackManager,
    t: AppTrack,
    wrap: bool,
)
    requires
        pm0.wf(),
        pm0.up_len() + pm0.ctx_len() > 0,
        pm1.up_next_grew(
            &pm0,
            insert_next_spec(pm0.position(), pm0.up_len()),
            seq![t],
            up_next_pending(pm0.position()),
        ),
        pm2.moved_to(&pm1, advance_next_spec(pm1.position(), pm1.up_len(), pm1.ctx_len(), wrap).0),
    ensures
        advance_next_spec(pm1.position(), pm1.up_len(), pm1.ctx_len(), wrap).1,
        pm2.position().in_up_next,
        pm2.position().up_cur == insert_next_spec(pm0.position(), pm0.up_len()),
        pm2.current_spec() == Some(t),
{
}

/// A track is current exactly when either queue holds one; then its unified
/// index lies below the total length and names the current track.
pub proof fn law_current_track_consistent(pm: PlaybackManager)
    requires
        pm.wf(),
    ensures
        pm.current_spec() is Some <==> pm.up_len() + pm.ctx_len() > 0,
        pm.current_global_spec() is Some <==> pm.current_spec() is Some,
        pm.current_global_spec() is Some ==> {
            let g = pm.current_global_spec().unwrap();
            &&& 0 <= g < pm.up_len() + pm.ctx_len()
            &&& pm.global_track(g) == pm.current_spec()
        },
{
}

/// Moving through the queues (skips, steps back, jumps) keeps looping in
/// step with the queues' contents.
pub proof fn law_moves_keep_loop_synced(old: PlaybackManager, new: PlaybackManager, p: Position)
    requires
        old.loop_synced(),
        new.moved_to(&old, p),
    ensures
        new.loop_synced(),
{
}

/// Looping is unavailable exactly when the manager is empty; otherwise three
/// presses of the loop toggle come back to the loop state it started from.
pub proof fn law_loop_toggle_restores(pm: PlaybackManager)
    requires
        pm.loop_synced(),
    ensures
        ({
            let empty = pm.up_len() == 0 && pm.ctx_len() == 0;
            let s1 = loop_toggled(loop_after_sync(pm.looping(), empty));
            let s2 = loop_toggled(loop_after_sync(s1, empty));
            let s3 = loop_toggled(loop_after_sync(s2, empty));
            &&& (pm.looping() == LoopState::Unavailable) == empty
            &&& empty ==> s1 == LoopState::Unavailable
            &&& s3 == pm.looping()
        }),
{
}


/// With the track looping, a track that ends by itself starts again and
/// playback stays where it is.
pub proof fn law_looping_track_restarts(p: Position, up_len: nat, ctx_len: nat)
    ensures
        advance_spec(p, up_len, ctx_len, LoopState::LoopingTrack, AdvanceReason::Natural) == (
            p,
            AdvanceOutcome::RestartCurrent,
        ),
{
}

/// Unless the queue loops, skipping never wraps around: it moves exactly as
/// a non-wrapping step forward, and reports no change when that cannot move.
pub proof fn law_skip_wraps_only_when_queue_loops(
    p: Position,
    up_len: nat,
    ctx_len: nat,
    ls: LoopState,
)
    requires
        ls != LoopState::LoopingQueue,
    ensures
        advance_spec(p, up_len, ctx_len, ls, AdvanceReason::Skip).0 == advance_next_spec(
            p,
            up_len,
            ctx_len,
            false,
        ).0,
        advance_spec(p, up_len, ctx_len, ls, AdvanceReason::Skip).1 == if advance_next_spec(
            p,
            up_len,
            ctx_len,
            false,
        ).1 {
            AdvanceOutcome::Moved
        } else {
            AdvanceOutcome::NoChange
        },
{
}

/// Without looping, a track that ends with nothing after it sends playback
/// back to the first context track, which is then not finished.
pub proof fn law_natural_end_resets_to_start(p: Position, up_len: nat, ctx_len: nat, ls: LoopState)
    requires
        ls == LoopState::NotLooping || ls == LoopState::Unavailable,
        !advance_next_spec(p, up_len, ctx_len, false).1,
        ctx_len > 0,
    ensures
        advance_spec(p, up_len, ctx_len, ls, AdvanceReason::Natural).1 == AdvanceOutcome::Ended,
        !advance_spec(p, up_len, ctx_len, ls, AdvanceReason::Natural).0.in_up_next,
        advance_spec(p, up_len, ctx_len, ls, AdvanceReason::Natural).0.ctx_cursor == 0,
        !advance_spec(p, up_len, ctx_len, ls, AdvanceReason::Natural).0.context_finished,
{
}


/// The tracks from the current one on are the tracks that skipping plays,
/// in order: a step forward without wrapping moves exactly when another
/// track follows the current one, and then the list loses its first track.
pub proof fn law_skip_follows_from_current(pm0: PlaybackManager, pm1: PlaybackManager)
    requires
        pm0.wf(),
        pm1.moved_to(
            &pm0,
            advance_next_spec(pm0.position(), pm0.up_len(), pm0.ctx_len(), false).0,
        ),
    ensures
        advance_next_spec(pm0.position(), pm0.up_len(), pm0.ctx_len(), false).1
            == (pm0.from_current_spec().len() > 1),
        advance_next_spec(pm0.position(), pm0.up_len(), pm0.ctx_len(), false).1
            ==> pm1.from_current_spec() == pm0.from_current_spec().drop_first(),
{
    let p = pm0.position();
    let u = pm0.up_len();
    let n = pm0.ctx_len();
    let ups = pm0.up_next_queue().tracks_view();
    let f0 = pm0.from_current_spec();
    let f1 = pm1.from_current_spec();
    if p.in_up_next {
        if p.up_cur + 1 < u {
            assert(pm0.up_tail(p.up_cur).drop_first() =~= pm0.up_tail(p.up_cur + 1));
            assert(f1 =~= f0.drop_first());
        } else if n > 0 && !p.context_finished {
            assert(pm0.up_tail(p.up_cur) =~= seq![ups[p.up_cur]]);
            assert(pm0.ctx_tail(p.ctx_cursor) =~= seq![pm0.ctx_track(p.ctx_cursor)] + pm0.ctx_tail(
                p.ctx_cursor + 1,
            ));
            assert(f1 =~= f0.drop_first());
        } else {
            assert(pm0.up_tail(p.up_cur) =~= seq![ups[p.up_cur]]);
            if n == 0 {
                assert(pm0.ctx_tail(p.ctx_cursor) =~= Seq::<AppTrack>::empty());
            }
            assert(f0.len() == 1);
        }
    } else if n > 0 {
        let c = p.ctx_cursor;
        let tail = pm0.ctx_tail(c + 1);
        if c + 1 < n {
            assert(tail =~= seq![pm0.ctx_track(c + 1)] + pm0.ctx_tail(c + 2));
            assert(f1 =~= f0.drop_first());
        } else {
            assert(tail =~= Seq::<AppTrack>::empty());
            match up_next_next_spec(p, u) {
                Some(k) => {
                    assert(f0 =~= seq![pm0.ctx_track(c)] + pm0.up_tail(k));
                    assert(f1 =~= pm0.up_tail(k) + Seq::<AppTrack>::empty());
                    assert(f1 =~= f0.drop_first());
                },
                None => {
                    assert(f0 =~= seq![pm0.ctx_track(c)]);
                },
            }
        }
    }
}


/// Within the context, a step back from any track but the first goes to the
/// track played just before it, whatever the loop state: the context cursor
/// moves down by exactly one and playback stays in the context.
pub proof fn law_previous_steps_back_one(p: Position, up_len: nat, ctx_len: nat, ls: LoopState)
    requires
        !p.in_up_next,
        0 < p.ctx_cursor < ctx_len,
    ensures
        advance_spec(p, up_len, ctx_len, ls, AdvanceReason::Previous).1 == AdvanceOutcome::Moved,
        !advance_spec(p, up_len, ctx_len, ls, AdvanceReason::Previous).0.in_up_next,
        advance_spec(p, up_len, ctx_len, ls, AdvanceReason::Previous).0.ctx_cursor == p.ctx_cursor - 1,
{
}

/// A skip followed by a step back returns to the same track: within
/// up-next, and within the context when no up-next track is waiting to play
/// after the current one (`up_next_next_spec` gives none).
pub proof fn law_previous_undoes_skip(p: Position, up_len: nat, ctx_len: nat, wrap: bool)
    requires
        (p.in_up_next && 0 <= p.up_cur && p.up_cur + 1 < up_len) || (!p.in_up_next && 0 <= p.ctx_cursor
            && p.ctx_cursor + 1 < ctx_len && up_next_next_spec(p, up_len) is None),
    ensures
        ({
            let (q, moved) = advance_next_spec(p, up_len, ctx_len, wrap);
            let (r, back) = advance_prev_spec(q, up_len, ctx_len, wrap);
            &&& moved
            &&& back
            &&& r.in_up_next == p.in_up_next
            &&& r.up_cur == p.up_cur
            &&& r.ctx_cursor == p.ctx_cursor
        }),
{
}

/// Once the context has played through, every context track counts as
/// played and none as still to come.
pub proof fn law_finished_context_all_played(p: Position, up_len: nat, ctx_len: nat, g: int)
    requires
        p.context_finished,
        0 <= p.ctx_cursor < ctx_len,
        up_len + ctx_len <= usize::MAX,
        up_len <= g < up_len + ctx_len,
    ensures
        played_ctx_spec(p, up_len, ctx_len).contains(g as usize),
        !upcoming_ctx_spec(p, up_len, ctx_len).contains(g as usize),
{
    lemma_index_range_contains(up_len as int, (up_len + ctx_len) as int, g);
}

/// Once the context has played through while up-next plays on, steps
/// forward without wrapping never reach a context track again: playback
/// stays in up-next with the context finished.
pub proof fn law_finished_context_not_reached_again(p: Position, up_len: nat, ctx_len: nat)
    requires
        synced(p, up_len, ctx_len),
        p.in_up_next,
        p.context_finished,
    ensures
        advance_next_spec(p, up_len, ctx_len, false).0.in_up_next,
        advance_next_spec(p, up_len, ctx_len, false).0.context_finished,
{
}


/// With the queue looping, stepping back from the first context track goes
/// to the last context track, and so does stepping back from the first
/// up-next track; skipping from the last context track, with no up-next
/// track waiting, goes to the first context track.
pub proof fn law_looping_queue_wraps(p: Position, up_len: nat, ctx_len: nat, reason: AdvanceReason)
    requires
        ctx_len > 0,
        synced(p, up_len, ctx_len),
        reason != AdvanceReason::Natural,
    ensures
        ({
            let (q, outcome) = advance_spec(p, up_len, ctx_len, LoopState::LoopingQueue, reason);
            &&& reason == AdvanceReason::Previous && ((!p.in_up_next && p.ctx_cursor == 0) || (p.in_up_next
                && p.up_cur == 0)) ==> outcome == AdvanceOutcome::Moved && !q.in_up_next && q.ctx_cursor
                == ctx_len - 1
            &&& reason == AdvanceReason::Skip && !p.in_up_next && p.ctx_cursor == ctx_len - 1
                && up_next_next_spec(p, up_len) is None ==> outcome == AdvanceOutcome::Moved
                && !q.in_up_next && q.ctx_cursor == 0
        }),
{
}

/// Without the queue looping, stepping back from the first context track
/// returns to up-next only when up-next has started playing (and holds
/// tracks); otherwise nothing changes.
pub proof fn law_previous_at_context_start(p: Position, up_len: nat, ctx_len: nat, ls: LoopState)
    requires
        ctx_len > 0,
        !p.in_up_next,
        p.ctx_cursor == 0,
        ls != LoopState::LoopingQueue,
    ensures
        ({
            let (q, outcome) = advance_spec(p, up_len, ctx_len, ls, AdvanceReason::Previous);
            &&& p.up_next_started && up_len > 0 ==> outcome == AdvanceOutcome::Moved && q.in_up_next
                && q.up_cur == p.up_cur
            &&& !(p.up_next_started && up_len > 0) ==> outcome == AdvanceOutcome::NoChange && q == p
        }),
{
}


/// Whatever is in either part of a joined list is in the list.
proof fn lemma_concat_contains(a: Seq<usize>, b: Seq<usize>, x: usize)
    requires
        a.contains(x) || b.contains(x),
    ensures
        (a + b).contains(x),
{
    if a.contains(x) {
        let i = choose|i: int| 0 <= i < a.len() && a[i] == x;
        assert((a + b)[i] == x);
    } else {
        let i = choose|i: int| 0 <= i < b.len() && b[i] == x;
        assert((a + b)[a.len() + i] == x);
    }
}

/// A skip moves onto a track that was listed as still to come, and the
/// track it leaves is listed as played afterwards.
pub proof fn law_skip_plays_an_upcoming_track(pm0: PlaybackManager, pm1: PlaybackManager)
    requires
        pm0.wf(),
        advance_next_spec(pm0.position(), pm0.up_len(), pm0.ctx_len(), false).1,
        pm1.moved_to(&pm0, advance_next_spec(pm0.position(), pm0.up_len(), pm0.ctx_len(), false).0),
    ensures
        pm0.current_global_spec() is Some,
        pm1.current_global_spec() is Some,
        (upcoming_up_spec(pm0.position(), pm0.up_len()) + upcoming_ctx_spec(
            pm0.position(),
            pm0.up_len(),
            pm0.ctx_len(),
        )).contains(pm1.current_global_spec().unwrap() as usize),
        (played_up_spec(pm1.position(), pm1.up_len()) + played_ctx_spec(
            pm1.position(),
            pm1.up_len(),
            pm1.ctx_len(),
        )).contains(pm0.current_global_spec().unwrap() as usize),
{
    let p = pm0.position();
    let q = pm1.position();
    let u = pm0.up_len() as int;
    let n = pm0.ctx_len() as int;
    assert(pm1.up_len() == u && pm1.ctx_len() == n);
    let c0 = pm0.current_global_spec().unwrap();
    let g1 = pm1.current_global_spec().unwrap();
    let uu = upcoming_up_spec(p, pm0.up_len());
    let uc = upcoming_ctx_spec(p, pm0.up_len(), pm0.ctx_len());
    let pu = played_up_spec(q, pm1.up_len());
    let pc = played_ctx_spec(q, pm1.up_len(), pm1.ctx_len());
    lemma_index_range_contains(p.up_cur + 1, u, g1);
    lemma_index_range_contains(0, u, g1);
    lemma_index_range_contains(u + p.ctx_cursor, u + n, g1);
    lemma_index_range_contains(u + p.ctx_cursor + 1, u + n, g1);
    lemma_index_range_contains(0, q.up_cur, c0);
    lemma_index_range_contains(0, q.up_cur + 1, c0);
    lemma_index_range_contains(u, u + n, c0);
    lemma_index_range_contains(u, u + q.ctx_cursor, c0);
    if uu.contains(g1 as usize) || uc.contains(g1 as usize) {
        lemma_concat_contains(uu, uc, g1 as usize);
    }
    if pu.contains(c0 as usize) || pc.contains(c0 as usize) {
        lemma_concat_contains(pu, pc, c0 as usize);
    }
}

} // verus!
