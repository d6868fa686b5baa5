//! Track queue storage and playback ordering (linear or shuffled).
use vstd::prelude::*;
use crate::perm::{
    identity, is_inverse, is_perm, lemma_identity_is_perm, lemma_insert_perm, lemma_inverse_lookup,
    lemma_multiset_of_identity_is_perm, lemma_perm_contains, lemma_perm_position_unique,
    lemma_remove_perm, lemma_swap_perm,
};
use crate::random::shuffle_in_place;
use crate::track::AppTrack;

verus! {

/// Whether shuffle is enabled and available for a queue.
#[derive(Clone, Copy, Debug, PartialEq, Eq, Structural)]
pub enum ShuffleState {
    /// Shuffle is enabled and order is randomized.
    Enabled,
    /// Shuffle is disabled but could be enabled.
    Disabled,
    /// Shuffle is not available (e.g. empty queue, or queue not shufflable).
    Unavailable,
}

/// Playback capability + state.
/// - `Linear`: not shufflable.
/// - `Shuffle`: shufflable; when enabled, maintains a permutation + cursor.
#[derive(Debug)]
pub enum PlaybackMode {
    /// Fixed linear order.
    Linear,
    /// Shuffled order with cursor tracking the playback position.
    Shuffle {
        /// Current shuffle state.
        state: ShuffleState,
        /// Playback permutation (track indices).
        order: Vec<usize>,
        /// Inverse mapping: inv[track_idx] = position in `order`.
        inv: Vec<usize>,
        /// Cursor in playback order (index into `order`).
        cursor: usize,
    },
}

/// Queue of tracks with optional shuffle ordering.
#[derive(Debug)]
pub struct TrackQueue {
    /// Stored tracks in insertion order.
    tracks: Vec<AppTrack>,
    /// Current track index (index into `tracks`).
    current_idx: usize,
    /// Playback ordering and state.
    mode: PlaybackMode,
}

/// Cursor over playback order indices.
pub enum OrderIter<'a> {
    /// Linear indices `next..end`.
    Linear { next: usize, end: usize },
    /// Shuffled indices, read from `order` starting at `pos`.
    Shuffled { order: &'a [usize], pos: usize },
}

/// `p` is where `cur` first stands in `order` (or the end, when it is not
/// there).
pub open spec fn is_first_position(order: Seq<usize>, cur: usize, p: int) -> bool {
    &&& 0 <= p <= order.len()
    &&& forall|j: int| 0 <= j < p ==> order[j] != cur
    &&& (p == order.len() || order[p] == cur)
}

/// A drawn playback order with the first occurrence of `cur` swapped with
/// the front entry (unchanged when `cur` does not occur).
pub open spec fn keep_first_spec(order: Seq<usize>, cur: usize) -> Seq<usize> {
    let p = choose|p: int| is_first_position(order, cur, p);
    if p < order.len() {
        order.update(0, order[p]).update(p, order[0])
    } else {
        order
    }
}

/// Every order has a first position of `cur` (its end when `cur` is absent).
proof fn lemma_first_position_exists(order: Seq<usize>, cur: usize)
    ensures
        exists|p: int| is_first_position(order, cur, p),
    decreases order.len(),
{
    if order.len() == 0 {
        assert(is_first_position(order, cur, 0));
    } else if order[0] == cur {
        assert(is_first_position(order, cur, 0));
    } else {
        let rest = order.drop_first();
        lemma_first_position_exists(rest, cur);
        let q = choose|q: int| is_first_position(rest, cur, q);
        assert forall|j: int| 0 <= j < q + 1 implies order[j] != cur by {
            if j > 0 {
                assert(order[j] == rest[j - 1]);
            }
        }
        if q < rest.len() {
            assert(order[q + 1] == rest[q]);
        }
        assert(is_first_position(order, cur, q + 1));
    }
}

/// Puts track `cur` at the front of a drawn playback order by swapping it
/// with the entry there, so that the current track keeps playing first.
pub fn keep_first(order: Vec<usize>, cur: usize) -> (r: Vec<usize>)
    ensures
        r@ == keep_first_spec(order@, cur),
{
    let mut order = order;
    let ghost start = order@;
    let len: usize = order.len();
    let mut p: usize = 0;
    while p < len && order[p] != cur
        invariant
            p <= len,
            order@ == start,
            len == start.len(),
            forall|j: int| 0 <= j < p ==> start[j] != cur,
        decreases len - p,
    {
        p += 1;
    }
    proof {
        let c = choose|q: int| is_first_position(start, cur, q);
        assert(is_first_position(start, cur, p as int));
        if c < p {
            assert(start[c] == cur);
        } else if p < c {
            assert(start[p as int] == cur);
        }
        assert(c == p);
    }
    if p < len {
        let a: usize = order[0];
        let b: usize = order[p];
        order.set(0, b);
        order.set(p, a);
    }
    order
}

/// The shape every well-formed queue has, stated over its abstract view:
/// `n` tracks, the current track index `cur`, whether the queue can shuffle,
/// its shuffle state, its playback order and the cursor into that order.
pub open spec fn queue_shape(
    n: nat,
    cur: int,
    shufflable: bool,
    state: ShuffleState,
    order: Seq<usize>,
    cursor: int,
) -> bool {
    &&& n <= usize::MAX
    &&& (n == 0 ==> cur == 0 && cursor == 0)
    &&& (n > 0 ==> 0 <= cur < n && 0 <= cursor < n && order[cursor] == cur)
    &&& is_perm(order, n)
    &&& (!shufflable ==> state == ShuffleState::Unavailable)
    &&& (shufflable ==> (state == ShuffleState::Unavailable <==> n == 0))
    &&& (state != ShuffleState::Enabled ==> order == identity(n) && cursor == cur)
}

/// The shuffle state once the tracks of a queue have changed: unavailable for
/// a linear or empty queue, otherwise enabled if it was enabled and disabled
/// if not.
pub open spec fn settled_state(shufflable: bool, prior: ShuffleState, n: nat) -> ShuffleState {
    if !shufflable || n == 0 {
        ShuffleState::Unavailable
    } else if prior == ShuffleState::Enabled {
        ShuffleState::Enabled
    } else {
        ShuffleState::Disabled
    }
}

/// A playback order after `count` tracks are inserted at track index `at`:
/// indices at or after `at` move up by `count`, and the new indices
/// `at..at + count` follow at the end, so the existing shuffle stays stable.
pub open spec fn order_after_insert(order: Seq<usize>, at: nat, count: nat) -> Seq<usize> {
    order.map_values(|t: usize| if t >= at { (t + count) as usize } else { t }) + Seq::new(
        count,
        |i: int| (at + i) as usize,
    )
}

/// A playback order after the track at index `idx` is removed: its entry
/// leaves the order and indices above `idx` move down by one.
pub open spec fn order_after_remove(order: Seq<usize>, idx: nat) -> Seq<usize> {
    order.remove(order.index_of(idx as usize)).map_values(
        |t: usize| if t > idx { (t - 1) as usize } else { t },
    )
}

/// The tracks after `incoming` are spliced in at index `at`.
pub open spec fn spliced(tracks: Seq<AppTrack>, at: int, incoming: Seq<AppTrack>) -> Seq<
    AppTrack,
> {
    tracks.subrange(0, at) + incoming + tracks.subrange(at, tracks.len() as int)
}

/// The current index after the tracks change: kept when still in range,
/// otherwise the last index (or `0` for no tracks).
pub open spec fn clamp_index(cur: int, n: nat) -> int {
    if n == 0 {
        0
    } else if cur < n {
        cur
    } else {
        n - 1
    }
}

/// Where "after the current track" is: right behind the current track, or
/// the start of an empty queue.
pub open spec fn position_after_current(n: nat, cur: int) -> nat {
    if n == 0 {
        0
    } else {
        (cur + 1) as nat
    }
}

/// The views of two queues agree.
pub open spec fn same_view(a: TrackQueue, b: TrackQueue) -> bool {
    &&& a.tracks_view() == b.tracks_view()
    &&& a.current() == b.current()
    &&& a.shufflable() == b.shufflable()
    &&& a.state() == b.state()
    &&& a.order() == b.order()
    &&& a.cursor() == b.cursor()
}

/// `new` is `old` with `incoming` inserted at track index `min(idx, len)`:
/// the current track stays current, shuffle availability settles, and an
/// enabled shuffle keeps its order with the new tracks played last.
pub open spec fn inserted_at(old: TrackQueue, new: TrackQueue, idx: nat, incoming: Seq<AppTrack>) -> bool {
    let n = old.tracks_view().len();
    let k: nat = if idx < n {
        idx
    } else {
        n
    };
    let count = incoming.len();
    if count == 0 {
        same_view(new, old)
    } else {
        &&& new.tracks_view() == spliced(old.tracks_view(), k as int, incoming)
        &&& new.current() == (if n == 0 {
            0
        } else if old.current() >= k {
            old.current() + count
        } else {
            old.current()
        })
        &&& new.shufflable() == old.shufflable()
        &&& new.state() == settled_state(old.shufflable(), old.state(), n + count)
        &&& new.state() == ShuffleState::Enabled ==> new.order() == order_after_insert(
            old.order(),
            k,
            count,
        ) && new.cursor() == old.cursor()
    }
}

/// `new` is `old` with the track at index `idx < len` removed: a current
/// track after `idx` keeps being current, a removed current track hands over
/// to the track that slides into its place (or the new last track), shuffle
/// availability settles, and an enabled shuffle keeps its order without the
/// removed entry.
pub open spec fn removed_at(old: TrackQueue, new: TrackQueue, idx: nat) -> bool {
    let n = old.tracks_view().len();
    let c = old.current();
    &&& new.tracks_view() == old.tracks_view().remove(idx as int)
    &&& new.current() == (if c > idx {
        c - 1
    } else if c >= n - 1 {
        clamp_index(c, (n - 1) as nat)
    } else {
        c
    })
    &&& new.shufflable() == old.shufflable()
    &&& new.state() == settled_state(old.shufflable(), old.state(), (n - 1) as nat)
    &&& new.state() == ShuffleState::Enabled ==> new.order() == order_after_remove(old.order(), idx)
}

/// One step forward in playback order: to the next position, or (when
/// wrapping) from the last position to the first; otherwise nothing changes
/// and `None` comes back. The tracks and the order are kept.
pub open spec fn stepped_forward(old: TrackQueue, new: TrackQueue, wrap: bool, r: Option<usize>) -> bool {
    let n: nat = old.tracks_view().len();
    let p: int = old.cursor();
    &&& new.wf()
    &&& new.tracks_view() == old.tracks_view()
    &&& new.shufflable() == old.shufflable()
    &&& new.state() == old.state()
    &&& new.order() == old.order()
    &&& if n > 0 && p + 1 < n {
        &&& new.cursor() == p + 1
        &&& new.current() == old.order()[p + 1]
        &&& r == Some(new.current() as usize)
    } else if n > 0 && wrap {
        &&& new.cursor() == 0
        &&& new.current() == old.order()[0]
        &&& r == Some(new.current() as usize)
    } else {
        &&& r is None
        &&& new == old
    }
}

/// One step back in playback order: to the previous position, or (when
/// wrapping) from the first position to the last; otherwise nothing changes
/// and `None` comes back. The tracks and the order are kept.
pub open spec fn stepped_back(old: TrackQueue, new: TrackQueue, wrap: bool, r: Option<usize>) -> bool {
    let n: nat = old.tracks_view().len();
    let p: int = old.cursor();
    &&& new.wf()
    &&& new.tracks_view() == old.tracks_view()
    &&& new.shufflable() == old.shufflable()
    &&& new.state() == old.state()
    &&& new.order() == old.order()
    &&& if n > 0 && p > 0 {
        &&& new.cursor() == p - 1
        &&& new.current() == old.order()[p - 1]
        &&& r == Some(new.current() as usize)
    } else if n > 0 && wrap {
        &&& new.cursor() == n - 1
        &&& new.current() == old.order()[n - 1]
        &&& r == Some(new.current() as usize)
    } else {
        &&& r is None
        &&& new == old
    }
}

impl<'a> OrderIter<'a> {
    /// The indices this cursor has still to give out, in order.
    pub closed spec fn remaining(&self) -> Seq<usize> {
        match self {
            OrderIter::Linear { next, end } => if *next <= *end {
                Seq::new((*end - *next) as nat, |i: int| (*next + i) as usize)
            } else {
                Seq::empty()
            },
            OrderIter::Shuffled { order, pos } => if *pos <= order@.len() {
                order@.skip(*pos as int)
            } else {
                Seq::empty()
            },
        }
    }

    /// Return the next playback index.
    pub fn next(&mut self) -> (res: Option<usize>)
        ensures
            old(self).remaining().len() == 0 ==> res is None && final(self).remaining() == old(
                self,
            ).remaining(),
            old(self).remaining().len() > 0 ==> res == Some(old(self).remaining()[0])
                && final(self).remaining() == old(self).remaining().drop_first(),
    {
        match *self {
            OrderIter::Linear { next, end } => {
                if next < end {
                    *self = OrderIter::Linear { next: next + 1, end };
                    proof {
                        let before = Seq::new((end - next) as nat, |i: int| (next + i) as usize);
                        let after = Seq::new(
                            (end - (next + 1)) as nat,
                            |i: int| ((next + 1) + i) as usize,
                        );
                        assert(after =~= before.drop_first());
                    }
                    Some(next)
                } else {
                    None
                }
            },
            OrderIter::Shuffled { order, pos } => {
                if pos < order.len() {
                    let v = order[pos];
                    *self = OrderIter::Shuffled { order, pos: pos + 1 };
                    proof {
                        assert(order@.skip(pos + 1) =~= order@.skip(pos as int).drop_first());
                    }
                    Some(v)
                } else {
                    None
                }
            },
        }
    }
}

impl TrackQueue {
    /// The stored tracks, in insertion order.
    pub closed spec fn tracks_view(&self) -> Seq<AppTrack> {
        self.tracks@
    }

    /// The current track index.
    pub closed spec fn current(&self) -> int {
        self.current_idx as int
    }

    /// Whether the queue can shuffle at all.
    pub closed spec fn shufflable(&self) -> bool {
        self.mode is Shuffle
    }

    /// The shuffle state; a linear queue reports `Unavailable`.
    pub closed spec fn state(&self) -> ShuffleState {
        match self.mode {
            PlaybackMode::Linear => ShuffleState::Unavailable,
            PlaybackMode::Shuffle { state, .. } => state,
        }
    }

    /// The playback order: the shuffle permutation when shuffle is enabled,
    /// the identity order otherwise.
    pub closed spec fn order(&self) -> Seq<usize> {
        match self.mode {
            PlaybackMode::Shuffle { state: ShuffleState::Enabled, order, .. } => order@,
            _ => identity(self.tracks@.len()),
        }
    }

    /// The position of the current track in the playback order.
    pub closed spec fn cursor(&self) -> int {
        match self.mode {
            PlaybackMode::Shuffle { state: ShuffleState::Enabled, cursor, .. } => cursor as int,
            _ => self.current_idx as int,
        }
    }

    /// The stored bookkeeping is consistent: the inverse mapping matches the
    /// permutation, and no permutation is kept while shuffle is off.
    pub closed spec fn inner_wf(&self) -> bool {
        match self.mode {
            PlaybackMode::Linear => true,
            PlaybackMode::Shuffle { state, order, inv, cursor } => match state {
                ShuffleState::Enabled => is_inverse(order@, inv@),
                _ => order@.len() == 0 && inv@.len() == 0 && cursor == 0,
            },
        }
    }

    /// Well-formedness: the bookkeeping is consistent and the abstract view
    /// has the shape of `queue_shape`.
    pub open spec fn wf(&self) -> bool {
        &&& self.inner_wf()
        &&& queue_shape(
            self.tracks_view().len(),
            self.current(),
            self.shufflable(),
            self.state(),
            self.order(),
            self.cursor(),
        )
    }

    /// Create an empty linear (non-shufflable) queue.
    pub fn new_linear() -> (q: Self)
        ensures
            q.wf(),
            q.tracks_view().len() == 0,
            !q.shufflable(),
    {
        Self { tracks: Vec::new(), current_idx: 0, mode: PlaybackMode::Linear }
    }

    /// Create an empty shufflable queue (shuffle unavailable until tracks exist).
    pub fn new_shufflable() -> (q: Self)
        ensures
            q.wf(),
            q.tracks_view().len() == 0,
            q.shufflable(),
    {
        let q = Self {
            tracks: Vec::new(),
            current_idx: 0,
            mode: PlaybackMode::Shuffle {
                state: ShuffleState::Unavailable,
                order: Vec::new(),
                inv: Vec::new(),
                cursor: 0,
            },
        };
        proof {
            lemma_identity_is_perm(0);
        }
        q
    }

    /// Return the number of tracks in the queue.
    pub fn len(&self) -> (n: usize)
        ensures
            n == self.tracks_view().len(),
    {
        self.tracks.len()
    }

    /// Return true if the queue has no tracks.
    pub fn is_empty(&self) -> (b: bool)
        ensures
            b == (self.tracks_view().len() == 0),
    {
        self.tracks.is_empty()
    }

    /// Return all tracks in insertion order.
    pub fn tracks(&self) -> (s: &[AppTrack])
        ensures
            s@ == self.tracks_view(),
    {
        self.tracks.as_slice()
    }

    /// Return the current track index (in insertion order).
    pub fn current_track_index(&self) -> (r: Option<usize>)
        ensures
            r == (if self.current() < self.tracks_view().len() {
                Some(self.current() as usize)
            } else {
                None::<usize>
            }),
    {
        if self.current_idx < self.tracks.len() {
            Some(self.current_idx)
        } else {
            None
        }
    }

    /// Return the current track.
    pub fn current_track(&self) -> (r: Option<&AppTrack>)
        ensures
            r == (if self.current() < self.tracks_view().len() {
                Some(&self.tracks_view()[self.current()])
            } else {
                None::<&AppTrack>
            }),
    {
        self.track_at(self.current_idx)
    }

    /// Return the track at the given index.
    pub fn track_at(&self, idx: usize) -> (r: Option<&AppTrack>)
        ensures
            r == (if idx < self.tracks_view().len() {
                Some(&self.tracks_view()[idx as int])
            } else {
                None::<&AppTrack>
            }),
    {
        if idx < self.tracks.len() {
            Some(&self.tracks[idx])
        } else {
            None
        }
    }

    /// Current index in *playback order* (linear index or shuffle cursor).
    pub fn current_playback_index(&self) -> (r: Option<usize>)
        requires
            self.wf(),
        ensures
            r == (if self.tracks_view().len() == 0 {
                None::<usize>
            } else {
                Some(self.cursor() as usize)
            }),
    {
        if self.tracks.is_empty() || self.current_idx >= self.tracks.len() {
            return None;
        }
        match &self.mode {
            PlaybackMode::Linear => Some(self.current_idx),
            PlaybackMode::Shuffle { state, cursor, .. } => match state {
                ShuffleState::Enabled => Some(*cursor),
                ShuffleState::Disabled | ShuffleState::Unavailable => Some(self.current_idx),
            },
        }
    }

    /// Iterate indices in playback order.
    pub fn playback_order_indices(&self) -> (it: OrderIter<'_>)
        requires
            self.wf(),
        ensures
            it.remaining() == self.order(),
    {
        match &self.mode {
            PlaybackMode::Linear => {
                let it = OrderIter::Linear { next: 0, end: self.tracks.len() };
                proof {
                    assert(it.remaining() =~= self.order());
                }
                it
            },
            PlaybackMode::Shuffle { state, order, .. } => {
                if *state == ShuffleState::Enabled && !order.is_empty() {
                    let it = OrderIter::Shuffled { order: order.as_slice(), pos: 0 };
                    proof {
                        assert(order@.skip(0) =~= order@);
                    }
                    it
                } else {
                    let it = OrderIter::Linear { next: 0, end: self.tracks.len() };
                    proof {
                        assert(it.remaining() =~= self.order());
                    }
                    it
                }
            },
        }
    }

    /// Select current track by *track index*.
    pub fn set_current_track_index(&mut self, idx: usize)
        requires
            old(self).wf(),
        ensures
            final(self).wf(),
            idx >= old(self).tracks_view().len() ==> *final(self) == *old(self),
            idx < old(self).tracks_view().len() ==> {
                &&& final(self).tracks_view() == old(self).tracks_view()
                &&& final(self).current() == idx
                &&& final(self).shufflable() == old(self).shufflable()
                &&& final(self).state() == old(self).state()
                &&& final(self).order() == old(self).order()
            },
    {
        if idx >= self.tracks.len() {
            return;
        }
        let ghost n = self.tracks@.len();
        self.current_idx = idx;
        let mut mode = PlaybackMode::Linear;
        core::mem::swap(&mut mode, &mut self.mode);
        match mode {
            PlaybackMode::Shuffle { state: ShuffleState::Enabled, order, inv, cursor: _ } => {
                proof {
                    lemma_inverse_lookup(order@, inv@, n, idx);
                }
                // inv is guaranteed valid by invariants
                let cursor: usize = inv[self.current_idx];
                self.mode = PlaybackMode::Shuffle { state: ShuffleState::Enabled, order, inv, cursor };
            },
            other => {
                self.mode = other;
            },
        }
    }

    /// Select current track by *playback index* (linear index or shuffle cursor).
    pub fn set_current_playback_index(&mut self, playback_idx: usize)
        requires
            old(self).wf(),
        ensures
            final(self).wf(),
            playback_idx >= old(self).tracks_view().len() ==> *final(self) == *old(self),
            playback_idx < old(self).tracks_view().len() ==> {
                &&& final(self).tracks_view() == old(self).tracks_view()
                &&& final(self).cursor() == playback_idx
                &&& final(self).current() == old(self).order()[playback_idx as int]
                &&& final(self).shufflable() == old(self).shufflable()
                &&& final(self).state() == old(self).state()
                &&& final(self).order() == old(self).order()
            },
    {
        if self.tracks.is_empty() {
            return;
        }
        let mut mode = PlaybackMode::Linear;
        core::mem::swap(&mut mode, &mut self.mode);
        match mode {
            PlaybackMode::Linear => {
                self.mode = PlaybackMode::Linear;
                if playback_idx < self.tracks.len() {
                    self.current_idx = playback_idx;
                }
            },
            PlaybackMode::Shuffle { state, order, inv, cursor } => {
                if state == ShuffleState::Enabled && playback_idx < order.len() {
                    self.current_idx = order[playback_idx];
                    self.mode = PlaybackMode::Shuffle { state, order, inv, cursor: playback_idx };
                } else {
                    self.mode = PlaybackMode::Shuffle { state, order, inv, cursor };
                    if playback_idx < self.tracks.len() {
                        // When shuffle isn't active, treat as linear selection.
                        self.current_idx = playback_idx;
                    }
                }
            },
        }
    }

    /// Rebuild inverse mapping from an order array.
    fn rebuild_inverse_from_order(inv: &mut Vec<usize>, order: &[usize])
        requires
            is_perm(order@, order@.len()),
        ensures
            is_inverse(order@, final(inv)@),
    {
        inv.clear();
        inv.resize(order.len(), 0);
        let n: usize = order.len();
        let mut i: usize = 0;
        while i < n
            invariant
                n == order@.len(),
                is_perm(order@, n as nat),
                inv@.len() == n,
                forall|j: int| 0 <= j < i ==> #[trigger] inv@[order@[j] as int] == j,
            decreases n - i,
        {
            let track_idx: usize = order[i];
            inv[track_idx] = i;
            i += 1;
        }
    }

    /// Advance a linear index, optionally wrapping.
    fn advance_linear_idx(current_idx: &mut usize, len: usize, wrap: bool) -> (r: Option<usize>)
        requires
            len == 0 || *old(current_idx) < len,
        ensures
            len == 0 ==> r is None && *final(current_idx) == *old(current_idx),
            len > 0 && *old(current_idx) + 1 < len ==> r == Some((*old(current_idx) + 1) as usize)
                && *final(current_idx) == *old(current_idx) + 1,
            len > 0 && *old(current_idx) + 1 >= len && wrap ==> r == Some(0usize)
                && *final(current_idx) == 0,
            len > 0 && *old(current_idx) + 1 >= len && !wrap ==> r is None && *final(current_idx)
                == *old(current_idx),
    {
        if len == 0 {
            return None;
        }
        if *current_idx + 1 < len {
            *current_idx += 1;
            Some(*current_idx)
        } else if wrap {
            *current_idx = 0;
            Some(*current_idx)
        } else {
            None
        }
    }

    /// Retreat a linear index, optionally wrapping.
    fn retreat_linear_idx(current_idx: &mut usize, len: usize, wrap: bool) -> (r: Option<usize>)
        requires
            len == 0 || *old(current_idx) < len,
        ensures
            len == 0 ==> r is None && *final(current_idx) == *old(current_idx),
            len > 0 && *old(current_idx) > 0 ==> r == Some((*old(current_idx) - 1) as usize)
                && *final(current_idx) == *old(current_idx) - 1,
            len > 0 && *old(current_idx) == 0 && wrap ==> r == Some((len - 1) as usize)
                && *final(current_idx) == len - 1,
            len > 0 && *old(current_idx) == 0 && !wrap ==> r is None && *final(current_idx)
                == *old(current_idx),
    {
        if len == 0 {
            return None;
        }
        if *current_idx > 0 {
            *current_idx -= 1;
            Some(*current_idx)
        } else if wrap {
            *current_idx = len - 1;
            Some(*current_idx)
        } else {
            None
        }
    }

    /// Advance to the next track, optionally wrapping to the start.
    pub fn next(&mut self, wrap: bool) -> (r: Option<usize>)
        requires
            old(self).wf(),
        ensures
            stepped_forward(*old(self), *final(self), wrap, r),
    {
        let len: usize = self.tracks.len();
        if len == 0 {
            return None;
        }
        let mut mode = PlaybackMode::Linear;
        core::mem::swap(&mut mode, &mut self.mode);
        match mode {
            PlaybackMode::Linear => {
                self.mode = PlaybackMode::Linear;
                Self::advance_linear_idx(&mut self.current_idx, len, wrap)
            },
            PlaybackMode::Shuffle { state, order, inv, cursor } => {
                if state == ShuffleState::Enabled && !order.is_empty() {
                    if cursor + 1 < order.len() {
                        let cursor: usize = cursor + 1;
                        self.current_idx = order[cursor];
                        self.mode = PlaybackMode::Shuffle { state, order, inv, cursor };
                        Some(self.current_idx)
                    } else if wrap {
                        let cursor: usize = 0;
                        self.current_idx = order[cursor];
                        self.mode = PlaybackMode::Shuffle { state, order, inv, cursor };
                        Some(self.current_idx)
                    } else {
                        self.mode = PlaybackMode::Shuffle { state, order, inv, cursor };
                        None
                    }
                } else {
                    self.mode = PlaybackMode::Shuffle { state, order, inv, cursor };
                    // behave linearly when shuffle is disabled/unavailable
                    Self::advance_linear_idx(&mut self.current_idx, len, wrap)
                }
            },
        }
    }

    /// Move to the previous track, optionally wrapping to the end.
    pub fn prev(&mut self, wrap: bool) -> (r: Option<usize>)
        requires
            old(self).wf(),
        ensures
            stepped_back(*old(self), *final(self), wrap, r),
    {
        let len: usize = self.tracks.len();
        if len == 0 {
            return None;
        }
        let mut mode = PlaybackMode::Linear;
        core::mem::swap(&mut mode, &mut self.mode);
        match mode {
            PlaybackMode::Linear => {
                self.mode = PlaybackMode::Linear;
                Self::retreat_linear_idx(&mut self.current_idx, len, wrap)
            },
            PlaybackMode::Shuffle { state, order, inv, cursor } => {
                if state == ShuffleState::Enabled && !order.is_empty() {
                    if cursor > 0 {
                        let cursor: usize = cursor - 1;
                        self.current_idx = order[cursor];
                        self.mode = PlaybackMode::Shuffle { state, order, inv, cursor };
                        Some(self.current_idx)
                    } else if wrap {
                        let cursor: usize = order.len() - 1;
                        self.current_idx = order[cursor];
                        self.mode = PlaybackMode::Shuffle { state, order, inv, cursor };
                        Some(self.current_idx)
                    } else {
                        self.mode = PlaybackMode::Shuffle { state, order, inv, cursor };
                        None
                    }
                } else {
                    self.mode = PlaybackMode::Shuffle { state, order, inv, cursor };
                    // behave linearly when shuffle is disabled/unavailable
                    Self::retreat_linear_idx(&mut self.current_idx, len, wrap)
                }
            },
        }
    }

    /// Return the current shuffle state.
    pub fn shuffle_state(&self) -> (s: ShuffleState)
        ensures
            s == self.state(),
    {
        match &self.mode {
            PlaybackMode::Linear => ShuffleState::Unavailable,
            PlaybackMode::Shuffle { state, .. } => *state,
        }
    }

    /// Return true if shuffle is enabled.
    pub fn is_shuffle_enabled(&self) -> (b: bool)
        ensures
            b == (self.state() == ShuffleState::Enabled),
    {
        match &self.mode {
            PlaybackMode::Shuffle { state: ShuffleState::Enabled, .. } => true,
            _ => false,
        }
    }

    /// Replace the shuffle state of a shufflable queue, keeping everything else.
    fn set_shuffle_state(&mut self, new_state: ShuffleState)
        requires
            old(self).shufflable(),
        ensures
            final(self).tracks@ == old(self).tracks@,
            final(self).current_idx == old(self).current_idx,
            match (final(self).mode, old(self).mode) {
                (
                    PlaybackMode::Shuffle { state: s1, order: o1, inv: i1, cursor: c1 },
                    PlaybackMode::Shuffle { state: s0, order: o0, inv: i0, cursor: c0 },
                ) => s1 == new_state && o1@ == o0@ && i1@ == i0@ && c1 == c0,
                _ => false,
            },
    {
        let mut mode = PlaybackMode::Linear;
        core::mem::swap(&mut mode, &mut self.mode);
        match mode {
            PlaybackMode::Shuffle { state: _, order, inv, cursor } => {
                self.mode = PlaybackMode::Shuffle { state: new_state, order, inv, cursor };
            },
            PlaybackMode::Linear => {
                self.mode = PlaybackMode::Linear;
            },
        }
    }

    /// Rebuild a shuffled order while keeping the current track first.
    fn rebuild_shuffle_keep_current_front(&mut self)
        requires
            old(self).shufflable(),
        ensures
            final(self).wf(),
            final(self).tracks_view() == old(self).tracks_view(),
            final(self).shufflable(),
            final(self).current() == clamp_index(old(self).current(), old(self).tracks_view().len()),
            old(self).tracks_view().len() == 0 ==> final(self).state() == ShuffleState::Unavailable,
            old(self).tracks_view().len() > 0 ==> final(self).state() == ShuffleState::Enabled
                && final(self).cursor() == 0,
    {
        let len: usize = self.tracks.len();
        let cur: usize = if self.current_idx < len {
            self.current_idx
        } else if len > 0 {
            len - 1
        } else {
            0
        };
        let mut mode = PlaybackMode::Linear;
        core::mem::swap(&mut mode, &mut self.mode);
        let (mut order, mut inv) = match mode {
            PlaybackMode::Shuffle { state: _, order, inv, cursor: _ } => (order, inv),
            PlaybackMode::Linear => {
                self.mode = PlaybackMode::Linear;
                return;
            },
        };
        if len == 0 {
            order.clear();
            inv.clear();
            self.mode = PlaybackMode::Shuffle {
                state: ShuffleState::Unavailable,
                order,
                inv,
                cursor: 0,
            };
            self.current_idx = 0;
            proof {
                lemma_identity_is_perm(0);
                assert(order@ =~= identity(0));
            }
            return;
        }
        let mut new_order: Vec<usize> = Vec::new();
        let mut i: usize = 0;
        while i < len
            invariant
                i <= len,
                new_order@ == identity(i as nat),
            decreases len - i,
        {
            new_order.push(i);
            i += 1;
            proof {
                assert(new_order@ =~= identity(i as nat));
            }
        }
        if len > 1 {
            shuffle_in_place(&mut new_order);
        }
        proof {
            lemma_multiset_of_identity_is_perm(new_order@, len as nat);
            lemma_perm_contains(new_order@, len as nat, cur);
        }
        // Keep current track at front for stable playback.
        let ghost drawn = new_order@;
        let new_order = keep_first(new_order, cur);
        proof {
            lemma_first_position_exists(drawn, cur);
            let p = choose|p: int| is_first_position(drawn, cur, p);
            assert(is_first_position(drawn, cur, p));
            if p == len {
                let k = choose|k: int| 0 <= k < drawn.len() && drawn[k] == cur;
                assert(drawn[k] != cur);
            }
            lemma_swap_perm(drawn, len as nat, 0, p);
        }
        order = new_order;
        Self::rebuild_inverse_from_order(&mut inv, order.as_slice());
        self.current_idx = order[0];
        self.mode = PlaybackMode::Shuffle { state: ShuffleState::Enabled, order, inv, cursor: 0 };
    }

    /// Ensure ordering state is valid after track changes.
    fn sync_mode_after_tracks_changed(&mut self)
        ensures
            final(self).wf(),
            final(self).tracks_view() == old(self).tracks_view(),
            final(self).shufflable() == old(self).shufflable(),
            final(self).current() == clamp_index(old(self).current(), old(self).tracks_view().len()),
            final(self).state() == settled_state(
                old(self).shufflable(),
                old(self).state(),
                old(self).tracks_view().len(),
            ),
            final(self).state() == ShuffleState::Enabled ==> final(self).cursor() == 0,
    {
        let len: usize = self.tracks.len();
        let mut mode = PlaybackMode::Linear;
        core::mem::swap(&mut mode, &mut self.mode);
        match mode {
            PlaybackMode::Linear => {
                self.mode = PlaybackMode::Linear;
                // Keep cursor valid in linear mode.
                if len == 0 {
                    self.current_idx = 0;
                } else if self.current_idx >= len {
                    self.current_idx = len - 1;
                }
                proof {
                    lemma_identity_is_perm(len as nat);
                }
            },
            PlaybackMode::Shuffle { state, mut order, mut inv, cursor } => {
                if len == 0 {
                    order.clear();
                    inv.clear();
                    self.mode = PlaybackMode::Shuffle {
                        state: ShuffleState::Unavailable,
                        order,
                        inv,
                        cursor: 0,
                    };
                    self.current_idx = 0;
                    proof {
                        lemma_identity_is_perm(0);
                    }
                    return;
                }
                if self.current_idx >= len {
                    self.current_idx = len - 1;
                }
                let state = if state == ShuffleState::Unavailable {
                    ShuffleState::Disabled
                } else {
                    state
                };
                match state {
                    ShuffleState::Enabled => {
                        self.mode = PlaybackMode::Shuffle { state, order, inv, cursor };
                        self.rebuild_shuffle_keep_current_front();
                    },
                    ShuffleState::Disabled => {
                        order.clear();
                        inv.clear();
                        self.mode = PlaybackMode::Shuffle { state, order, inv, cursor: 0 };
                        proof {
                            lemma_identity_is_perm(len as nat);
                        }
                    },
                    ShuffleState::Unavailable => {
                        // handled above
                        self.mode = PlaybackMode::Shuffle { state, order, inv, cursor };
                    },
                }
            },
        }
    }

    /// Remove all tracks and reset state.
    pub fn clear(&mut self)
        requires
            old(self).wf(),
        ensures
            final(self).wf(),
            final(self).tracks_view().len() == 0,
            final(self).shufflable() == old(self).shufflable(),
            final(self).state() == ShuffleState::Unavailable,
    {
        self.tracks.clear();
        self.current_idx = 0;
        self.sync_mode_after_tracks_changed();
    }

    /// Replace all tracks and reset state.
    pub fn set_tracks(&mut self, tracks: Vec<AppTrack>)
        requires
            old(self).wf(),
        ensures
            final(self).wf(),
            final(self).tracks_view() == tracks@,
            final(self).current() == 0,
            final(self).shufflable() == old(self).shufflable(),
            final(self).state() == settled_state(old(self).shufflable(), old(self).state(), tracks@.len()),
            final(self).state() == ShuffleState::Enabled ==> final(self).cursor() == 0,
    {
        self.tracks = tracks;
        self.current_idx = 0;
        self.sync_mode_after_tracks_changed();
    }

    /// Shift every entry of `order` that is at least `at` up by `count`.
    fn shift_up(order: &mut Vec<usize>, at: usize, count: usize)
        requires
            forall|i: int| 0 <= i < old(order)@.len() ==> old(order)@[i] + count <= usize::MAX,
        ensures
            final(order)@ == old(order)@.map_values(
                |t: usize| if t >= at { (t + count) as usize } else { t },
            ),
    {
        let ghost start = order@;
        let mut j: usize = 0;
        while j < order.len()
            invariant
                j <= order@.len(),
                order@.len() == start.len(),
                forall|i: int| 0 <= i < start.len() ==> start[i] + count <= usize::MAX,
                forall|i: int|
                    0 <= i < j ==> order@[i] == (if start[i] >= at {
                        (start[i] + count) as usize
                    } else {
                        start[i]
                    }),
                forall|i: int| j <= i < start.len() ==> order@[i] == start[i],
            decreases order@.len() - j,
        {
            assert(order@[j as int] == start[j as int]);
            if order[j] >= at {
                order[j] = order[j] + count;
            }
            j += 1;
        }
        proof {
            assert(order@ =~= start.map_values(
                |t: usize| if t >= at { (t + count) as usize } else { t },
            ));
        }
    }

    /// Append the indices `at..at + count` to `order`.
    fn append_range(order: &mut Vec<usize>, at: usize, count: usize)
        requires
            at + count <= usize::MAX,
        ensures
            final(order)@ == old(order)@ + Seq::new(count as nat, |i: int| (at + i) as usize),
    {
        let ghost start = order@;
        let mut i: usize = 0;
        while i < count
            invariant
                i <= count,
                at + count <= usize::MAX,
                order@ == start + Seq::new(i as nat, |k: int| (at + k) as usize),
            decreases count - i,
        {
            order.push(at + i);
            i += 1;
            proof {
                assert(order@ =~= start + Seq::new(i as nat, |k: int| (at + k) as usize));
            }
        }
    }

    /// Bring a shufflable mode up to date after `count > 0` tracks were
    /// inserted at `insert_idx` (the tracks and the current index are already
    /// updated).
    fn sync_mode_after_insert(&mut self, insert_idx: usize, count: usize, Ghost(old_q): Ghost<TrackQueue>)
        requires
            old_q.wf(),
            count > 0,
            old(self).tracks@.len() == old_q.tracks_view().len() + count,
            insert_idx <= old_q.tracks_view().len(),
            old(self).current_idx == (if old_q.tracks_view().len() == 0 {
                0
            } else if old_q.current() >= insert_idx {
                old_q.current() + count
            } else {
                old_q.current()
            }),
            old(self).mode == old_q.mode,
        ensures
            final(self).wf(),
            final(self).tracks == old(self).tracks,
            final(self).current_idx == old(self).current_idx,
            final(self).shufflable() == old_q.shufflable(),
            final(self).state() == settled_state(
                old_q.shufflable(),
                old_q.state(),
                old(self).tracks@.len(),
            ),
            final(self).state() == ShuffleState::Enabled ==> final(self).order() == order_after_insert(
                old_q.order(),
                insert_idx as nat,
                count as nat,
            ) && final(self).cursor() == old_q.cursor(),
    {
        let new_len: usize = self.tracks.len();
        let ghost n = old_q.tracks_view().len();
        let mut mode = PlaybackMode::Linear;
        core::mem::swap(&mut mode, &mut self.mode);
        match mode {
            PlaybackMode::Linear => {
                self.mode = PlaybackMode::Linear;
                proof {
                    lemma_identity_is_perm(new_len as nat);
                }
            },
            PlaybackMode::Shuffle { state, mut order, mut inv, mut cursor } => {
                let mut state = state;
                if self.tracks.is_empty() {
                    order.clear();
                    inv.clear();
                    cursor = 0;
                    state = ShuffleState::Unavailable;
                } else if state == ShuffleState::Unavailable {
                    state = ShuffleState::Disabled;
                }
                if state == ShuffleState::Enabled {
                    let ghost old_order = order@;
                    // Shift indices >= insert_idx by count.
                    Self::shift_up(&mut order, insert_idx, count);
                    // Append inserted indices in order to keep shuffle stable.
                    Self::append_range(&mut order, insert_idx, count);
                    proof {
                        lemma_insert_perm(old_order, n, insert_idx as nat, count as nat);
                        assert(order@ =~= order_after_insert(old_order, insert_idx as nat, count as nat));
                        let shifted = old_order.map_values(
                            |t: usize| if t >= insert_idx { (t + count) as usize } else { t },
                        );
                        assert(order@[cursor as int] == shifted[cursor as int]);
                    }
                    Self::rebuild_inverse_from_order(&mut inv, order.as_slice());
                    cursor = inv[self.current_idx];
                } else {
                    order.clear();
                    inv.clear();
                    cursor = 0;
                    proof {
                        lemma_identity_is_perm(new_len as nat);
                    }
                }
                self.mode = PlaybackMode::Shuffle { state, order, inv, cursor };
            },
        }
    }

    /// Append tracks at the back of the queue.
    pub fn extend_back(&mut self, tracks: Vec<AppTrack>)
        requires
            old(self).wf(),
        ensures
            final(self).wf(),
            inserted_at(*old(self), *final(self), old(self).tracks_view().len(), tracks@),
    {
        let start: usize = self.tracks.len();
        let mut incoming = tracks;
        self.tracks.append(&mut incoming);
        if self.tracks.len() == start {
            proof {
                assert(self.tracks@ =~= old(self).tracks@);
            }
            return;
        }
        let count: usize = self.tracks.len() - start;
        proof {
            assert(self.tracks@ =~= spliced(old(self).tracks@, start as int, tracks@));
        }
        self.sync_mode_after_insert(start, count, Ghost(*old(self)));
    }

    /// Append a single track at the end.
    pub fn push_back(&mut self, track: AppTrack)
        requires
            old(self).wf(),
        ensures
            final(self).wf(),
            inserted_at(*old(self), *final(self), old(self).tracks_view().len(), seq![track]),
    {
        let v = vec![track];
        proof {
            assert(v@ =~= seq![track]);
        }
        self.extend_back(v);
    }

    /// Insert a single track at the given index.
    /// If more tracks must be inserted, prefer insert_many_at().
    pub fn insert_one_at(&mut self, idx: usize, track: AppTrack)
        requires
            old(self).wf(),
        ensures
            final(self).wf(),
            inserted_at(*old(self), *final(self), idx as nat, seq![track]),
    {
        let len_before: usize = self.tracks.len();
        let insert_idx: usize = if idx < len_before {
            idx
        } else {
            len_before
        };
        self.tracks.insert(insert_idx, track);
        // adjust current track index
        if self.current_idx < len_before && self.current_idx >= insert_idx {
            self.current_idx += 1;
        }
        proof {
            assert(self.tracks@ =~= spliced(old(self).tracks@, insert_idx as int, seq![track]));
        }
        self.sync_mode_after_insert(insert_idx, 1, Ghost(*old(self)));
    }

    /// Insert many tracks at the given position.
    pub fn insert_many_at(&mut self, idx: usize, tracks: Vec<AppTrack>)
        requires
            old(self).wf(),
        ensures
            final(self).wf(),
            inserted_at(*old(self), *final(self), idx as nat, tracks@),
    {
        let mut incoming = tracks;
        if incoming.is_empty() {
            return;
        }
        let len_before: usize = self.tracks.len();
        let insert_idx: usize = if idx < len_before {
            idx
        } else {
            len_before
        };
        let count: usize = incoming.len();
        let mut tail = self.tracks.split_off(insert_idx);
        self.tracks.append(&mut incoming);
        self.tracks.append(&mut tail);
        let new_len: usize = self.tracks.len();
        assert(new_len == len_before + count);
        // adjust current track index
        if len_before == 0 {
            self.current_idx = 0;
        } else if self.current_idx >= insert_idx {
            self.current_idx += count;
        }
        proof {
            assert(self.tracks@ =~= spliced(old(self).tracks@, insert_idx as int, tracks@));
        }
        self.sync_mode_after_insert(insert_idx, count, Ghost(*old(self)));
    }

    /// Insert a single track after the current track.
    /// If more then one track must be inserted prefer insert_many_after_current()
    pub fn insert_one_after_current(&mut self, track: AppTrack)
        requires
            old(self).wf(),
        ensures
            final(self).wf(),
            inserted_at(
                *old(self),
                *final(self),
                position_after_current(old(self).tracks_view().len(), old(self).current()),
                seq![track],
            ),
    {
        let v = vec![track];
        proof {
            assert(v@ =~= seq![track]);
        }
        self.insert_many_after_current(v);
    }

    /// Insert many tracks after the current track.
    pub fn insert_many_after_current(&mut self, tracks: Vec<AppTrack>)
        requires
            old(self).wf(),
        ensures
            final(self).wf(),
            inserted_at(
                *old(self),
                *final(self),
                position_after_current(old(self).tracks_view().len(), old(self).current()),
                tracks@,
            ),
    {
        let len: usize = self.tracks.len();
        let insert_idx: usize = if len == 0 {
            0
        } else {
            let cur: usize = if self.current_idx < len - 1 {
                self.current_idx
            } else {
                len - 1
            };
            if cur + 1 < len {
                cur + 1
            } else {
                len
            }
        };
        self.insert_many_at(insert_idx, tracks);
    }

    /// Remove the track at the given index and return it.
    pub fn remove_at(&mut self, idx: usize) -> (removed: Option<AppTrack>)
        requires
            old(self).wf(),
        ensures
            final(self).wf(),
            idx >= old(self).tracks_view().len() ==> removed is None && *final(self) == *old(self),
            idx < old(self).tracks_view().len() ==> removed == Some(old(self).tracks_view()[idx as int])
                && removed_at(*old(self), *final(self), idx as nat),
    {
        if idx >= self.tracks.len() {
            return None;
        }
        let ghost n = self.tracks@.len();
        let removed = self.tracks.remove(idx);
        let new_len: usize = self.tracks.len();
        // adjust current track index
        if self.current_idx > idx {
            self.current_idx -= 1;
        } else if self.current_idx >= new_len {
            self.current_idx = if new_len > 0 {
                new_len - 1
            } else {
                0
            };
        }
        let mut mode = PlaybackMode::Linear;
        core::mem::swap(&mut mode, &mut self.mode);
        match mode {
            PlaybackMode::Linear => {
                self.mode = PlaybackMode::Linear;
                proof {
                    lemma_identity_is_perm(new_len as nat);
                }
            },
            PlaybackMode::Shuffle { state, mut order, mut inv, mut cursor } => {
                let mut state = state;
                if self.tracks.is_empty() {
                    order.clear();
                    inv.clear();
                    cursor = 0;
                    state = ShuffleState::Unavailable;
                    proof {
                        lemma_identity_is_perm(0);
                    }
                } else if state == ShuffleState::Unavailable {
                    state = ShuffleState::Disabled;
                    order.clear();
                    inv.clear();
                    cursor = 0;
                    proof {
                        lemma_identity_is_perm(new_len as nat);
                    }
                } else if state == ShuffleState::Enabled {
                    let ghost old_order = order@;
                    proof {
                        lemma_inverse_lookup(order@, inv@, n, idx);
                    }
                    // Remove idx from order (O(1) locate via inv)
                    let pos_in_order: usize = inv[idx];
                    if pos_in_order < order.len() && order[pos_in_order] == idx {
                        order.remove(pos_in_order);
                    } else {
                        // fallback if desynced
                        let mut p: usize = 0;
                        while p < order.len() && order[p] != idx
                            invariant
                                p <= order@.len(),
                            decreases order@.len() - p,
                        {
                            p += 1;
                        }
                        if p < order.len() {
                            order.remove(p);
                        }
                    }
                    proof {
                        let q = old_order.index_of(idx);
                        assert(old_order.contains(idx));
                        assert(old_order[q] == idx);
                        assert(q == pos_in_order);
                        lemma_remove_perm(old_order, n, pos_in_order as int);
                    }
                    // Shift indices > idx down by 1
                    let ghost before_shift = order@;
                    let mut j: usize = 0;
                    while j < order.len()
                        invariant
                            j <= order@.len(),
                            order@.len() == before_shift.len(),
                            forall|i: int|
                                0 <= i < j ==> order@[i] == (if before_shift[i] > idx {
                                    (before_shift[i] - 1) as usize
                                } else {
                                    before_shift[i]
                                }),
                            forall|i: int| j <= i < before_shift.len() ==> order@[i] == before_shift[i],
                        decreases order@.len() - j,
                    {
                        if order[j] > idx {
                            order[j] = order[j] - 1;
                        }
                        j += 1;
                    }
                    proof {
                        assert(order@ =~= order_after_remove(old_order, idx as nat));
                    }
                    Self::rebuild_inverse_from_order(&mut inv, order.as_slice());
                    proof {
                        lemma_inverse_lookup(order@, inv@, new_len as nat, self.current_idx);
                    }
                    // Re-anchor cursor to current track.
                    cursor = inv[self.current_idx];
                } else {
                    // Disabled: do not maintain permutation
                    order.clear();
                    inv.clear();
                    cursor = 0;
                    proof {
                        lemma_identity_is_perm(new_len as nat);
                    }
                }
                self.mode = PlaybackMode::Shuffle { state, order, inv, cursor };
            },
        }
        Some(removed)
    }

    /// Enable shuffle; keeps the current track at the front of the playback order.
    pub fn enable_shuffle(&mut self)
        requires
            old(self).wf(),
        ensures
            final(self).wf(),
            final(self).tracks_view() == old(self).tracks_view(),
            final(self).current() == old(self).current(),
            final(self).shufflable() == old(self).shufflable(),
            old(self).shufflable() && old(self).tracks_view().len() > 0 ==> final(self).state()
                == ShuffleState::Enabled && final(self).cursor() == 0 && final(self).order()[0]
                == old(self).current(),
            !(old(self).shufflable() && old(self).tracks_view().len() > 0) ==> same_view(
                *final(self),
                *old(self),
            ),
    {
        let len: usize = self.tracks.len();
        if matches!(self.mode, PlaybackMode::Linear) {
            return;
        }
        if len == 0 {
            self.set_shuffle_state(ShuffleState::Unavailable);
            self.sync_mode_after_tracks_changed();
            return;
        }
        self.set_shuffle_state(ShuffleState::Enabled);
        self.rebuild_shuffle_keep_current_front();
    }

    /// Disable shuffle and revert to linear playback order.
    pub fn disable_shuffle(&mut self)
        requires
            old(self).wf(),
        ensures
            final(self).wf(),
            final(self).tracks_view() == old(self).tracks_view(),
            final(self).current() == old(self).current(),
            final(self).shufflable() == old(self).shufflable(),
            old(self).shufflable() ==> final(self).state() == (if old(self).tracks_view().len() == 0 {
                ShuffleState::Unavailable
            } else {
                ShuffleState::Disabled
            }),
            final(self).order() == identity(old(self).tracks_view().len()),
            !old(self).shufflable() ==> *final(self) == *old(self),
    {
        let len: usize = self.tracks.len();
        let mut mode = PlaybackMode::Linear;
        core::mem::swap(&mut mode, &mut self.mode);
        match mode {
            PlaybackMode::Shuffle { state: _, mut order, mut inv, cursor: _ } => {
                let state = if len == 0 {
                    ShuffleState::Unavailable
                } else {
                    ShuffleState::Disabled
                };
                order.clear();
                inv.clear();
                self.mode = PlaybackMode::Shuffle { state, order, inv, cursor: 0 };
                proof {
                    lemma_identity_is_perm(len as nat);
                }
            },
            PlaybackMode::Linear => {
                self.mode = PlaybackMode::Linear;
            },
        }
    }
}


/// Stepping forward and then back, without wrapping, returns to the track the
/// queue started on, with nothing else changed.
pub proof fn law_next_then_prev_returns(
    q0: TrackQueue,
    q1: TrackQueue,
    q2: TrackQueue,
    r1: Option<usize>,
    r2: Option<usize>,
)
    requires
        q0.wf(),
        stepped_forward(q0, q1, false, r1),
        r1 is Some,
        stepped_back(q1, q2, false, r2),
    ensures
        r2 == Some(q0.current() as usize),
        same_view(q2, q0),
{
}

/// Inserting one track and then removing the track at the index it went to
/// leaves the queue as it was: the same tracks, the same current track and,
/// with shuffle on, the same playback order and position.
pub proof fn law_insert_then_remove_restores(
    q0: TrackQueue,
    q1: TrackQueue,
    q2: TrackQueue,
    idx: nat,
    t: AppTrack,
)
    requires
        q0.wf(),
        q1.wf(),
        q2.wf(),
        inserted_at(q0, q1, idx, seq![t]),
        removed_at(q1, q2, if idx < q0.tracks_view().len() { idx } else { q0.tracks_view().len() }),
    ensures
        same_view(q2, q0),
{
    let n = q0.tracks_view().len();
    let k: nat = if idx < n { idx } else { n };
    let o = q0.order();
    assert(q2.tracks_view() =~= q0.tracks_view()) by {
        assert(q1.tracks_view() == spliced(q0.tracks_view(), k as int, seq![t]));
    }
    if q2.state() == ShuffleState::Enabled {
        let o1 = order_after_insert(o, k, 1);
        let mapped = o.map_values(|x: usize| if x >= k { (x + 1) as usize } else { x });
        assert(o1.len() == n + 1);
        assert(o1[n as int] == k);
        assert forall|i: int| 0 <= i < n implies o1[i] != k by {
            assert(o1[i] == mapped[i]);
        }
        let j = o1.index_of(k as usize);
        assert(o1.contains(k as usize)) by {
            assert(o1[n as int] == k);
        }
        assert(j == n);
        assert(o1.remove(j) =~= mapped);
        assert(order_after_remove(o1, k) =~= o) by {
            assert forall|i: int| 0 <= i < n implies #[trigger] order_after_remove(o1, k)[i] == o[i] by {
                assert(mapped[i] == (if o[i] >= k { (o[i] + 1) as usize } else { o[i] }));
            }
        }
        assert(q2.cursor() == q0.cursor()) by {
            lemma_perm_position_unique(q2.order(), n, q2.cursor(), q0.cursor());
        }
    }
}

} // verus!
