//! Shuffling a plain play queue while keeping the current track first.
use vstd::prelude::*;
use crate::random::shuffle_in_place;
use crate::track::AppTrack;

verus! {

broadcast use {vstd::seq_lib::to_multiset_remove, vstd::seq_lib::to_multiset_insert};

/// Shuffles `queue` and moves the current track (at `queue_pos`) to the
/// front, which becomes the new position. Queues of at most one track are
/// left alone.
pub fn shuffle_queue(queue: &mut Vec<AppTrack>, queue_pos: &mut usize)
    requires
        old(queue).len() > 1 ==> *old(queue_pos) < old(queue).len(),
    ensures
        old(queue).len() <= 1 ==> final(queue)@ == old(queue)@ && *final(queue_pos) == *old(
            queue_pos,
        ),
        old(queue).len() > 1 ==> {
            &&& final(queue)@.len() == old(queue)@.len()
            &&& final(queue)@[0] == old(queue)@[*old(queue_pos) as int]
            &&& final(queue)@.drop_first().to_multiset() == old(queue)@.remove(
                *old(queue_pos) as int,
            ).to_multiset()
            &&& final(queue)@.to_multiset() == old(queue)@.to_multiset()
            &&& *final(queue_pos) == 0
        },
{
    if queue.len() <= 1 {
        return;
    }
    let ghost start = queue@;
    let pos: usize = *queue_pos;
    let current = queue.remove(pos);
    let ghost rest = queue@;
    shuffle_in_place(queue);
    let ghost shuffled = queue@;
    proof {
        broadcast use vstd::seq_lib::to_multiset_len;
        assert(shuffled.len() == shuffled.to_multiset().len());
        assert(rest.len() == rest.to_multiset().len());
    }
    queue.insert(0, current);
    *queue_pos = 0;
    proof {
        assert(queue@.drop_first() =~= shuffled);
        assert(queue@ =~= shuffled.insert(0, current));
        broadcast use vstd::multiset::group_multiset_axioms;
        assert(start.to_multiset().count(current) > 0) by {
            broadcast use vstd::seq_lib::to_multiset_contains;
            assert(start[pos as int] == current);
            assert(start.contains(current));
        }
        assert(queue@.to_multiset() =~= start.to_multiset());
    }
}

} // verus!
