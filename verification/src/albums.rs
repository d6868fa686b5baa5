//! The tracks of an album page, in track-number order.
use vstd::prelude::*;

verus! {

/// A track as an album page lists it.
#[derive(Clone, Debug)]
pub struct AlbumTrack {
    pub name: String,
    pub file_path: String,
    pub track_number: u32,
    pub disc_number: u32,
}

impl AlbumTrack {
    /// A copy of this track.
    pub fn duplicate(&self) -> (r: AlbumTrack)
        ensures
            r == *self,
    {
        AlbumTrack {
            name: self.name.clone(),
            file_path: self.file_path.clone(),
            track_number: self.track_number,
            disc_number: self.disc_number,
        }
    }
}

/// Track numbers never go down along the list.
pub open spec fn sorted_by_number(s: Seq<AlbumTrack>) -> bool {
    forall|i: int, j: int| 0 <= i < j < s.len() ==> s[i].track_number <= s[j].track_number
}

/// Whether a track carries number `k`.
pub open spec fn numbered(k: u32) -> spec_fn(AlbumTrack) -> bool {
    |t: AlbumTrack| t.track_number == k
}

/// For every track number, the tracks carrying it come in the same order in
/// both lists (so the lists hold the same tracks).
pub open spec fn same_order_per_number(a: Seq<AlbumTrack>, b: Seq<AlbumTrack>) -> bool {
    forall|k: u32| #[trigger] a.filter(numbered(k)) == b.filter(numbered(k))
}

/// A list none of whose elements satisfies `pred` filters to nothing.
proof fn lemma_filter_none(s: Seq<AlbumTrack>, pred: spec_fn(AlbumTrack) -> bool)
    requires
        forall|i: int| 0 <= i < s.len() ==> !pred(s[i]),
    ensures
        s.filter(pred) == Seq::<AlbumTrack>::empty(),
    decreases s.len(),
{
    reveal_with_fuel(Seq::filter, 1);
    if s.len() > 0 {
        lemma_filter_none(s.drop_last(), pred);
    }
}

/// Inserting `x` into a sorted list right after every track numbered at most
/// like it adds `x` at the end of its number's tracks and leaves the other
/// numbers' tracks alone.
proof fn lemma_insert_filters(s: Seq<AlbumTrack>, pos: int, x: AlbumTrack, k: u32)
    requires
        0 <= pos <= s.len(),
        forall|i: int| 0 <= i < pos ==> s[i].track_number <= x.track_number,
        forall|i: int| pos <= i < s.len() ==> s[i].track_number > x.track_number,
    ensures
        s.insert(pos, x).filter(numbered(k)) == if x.track_number == k {
            s.filter(numbered(k)).push(x)
        } else {
            s.filter(numbered(k))
        },
{
    reveal_with_fuel(Seq::filter, 2);
    let pred = numbered(k);
    let a = s.take(pos);
    let b = s.skip(pos);
    assert(s =~= a + b);
    assert(s.insert(pos, x) =~= a + seq![x] + b);
    Seq::filter_distributes_over_add(a, b, pred);
    Seq::filter_distributes_over_add(a + seq![x], b, pred);
    Seq::filter_distributes_over_add(a, seq![x], pred);
    assert(seq![x].drop_last() =~= Seq::<AlbumTrack>::empty());
    if x.track_number == k {
        lemma_filter_none(b, pred);
        assert(s.filter(pred) =~= a.filter(pred));
        assert(seq![x].filter(pred) =~= seq![x]);
    } else {
        assert(seq![x].filter(pred) =~= Seq::<AlbumTrack>::empty());
    }
}

/// Orders album tracks by track number, keeping tracks with the same number
/// in the order they came in.
pub fn sort_by_track_number(tracks: &Vec<AlbumTrack>) -> (out: Vec<AlbumTrack>)
    ensures
        sorted_by_number(out@),
        same_order_per_number(out@, tracks@),
        out@.len() == tracks@.len(),
{
    let mut out: Vec<AlbumTrack> = Vec::new();
    let mut i: usize = 0;
    proof {
        assert forall|k: u32| #[trigger] out@.filter(numbered(k)) == tracks@.take(0).filter(
            numbered(k),
        ) by {
            reveal_with_fuel(Seq::filter, 1);
            assert(tracks@.take(0) =~= Seq::<AlbumTrack>::empty());
        }
    }
    while i < tracks.len()
        invariant
            i <= tracks@.len(),
            out@.len() == i,
            sorted_by_number(out@),
            forall|k: u32| #[trigger] out@.filter(numbered(k)) == tracks@.take(i as int).filter(
                numbered(k),
            ),
        decreases tracks@.len() - i,
    {
        let x = tracks[i].duplicate();
        let mut pos: usize = 0;
        while pos < out.len() && out[pos].track_number <= x.track_number
            invariant
                pos <= out@.len(),
                forall|j: int| 0 <= j < pos ==> out@[j].track_number <= x.track_number,
            decreases out@.len() - pos,
        {
            pos += 1;
        }
        let ghost before = out@;
        proof {
            assert forall|j: int| pos <= j < before.len() implies before[j].track_number
                > x.track_number by {
                if pos < before.len() {
                    assert(before[pos as int].track_number > x.track_number);
                }
            }
        }
        out.insert(pos, x);
        proof {
            assert(tracks@.take(i + 1).drop_last() =~= tracks@.take(i as int));
            assert forall|k: u32| #[trigger] out@.filter(numbered(k)) == tracks@.take(i + 1).filter(
                numbered(k),
            ) by {
                lemma_insert_filters(before, pos as int, x, k);
                reveal_with_fuel(Seq::filter, 1);
            }
        }
        i += 1;
    }
    proof {
        assert(tracks@.take(i as int) =~= tracks@);
    }
    out
}

} // verus!
