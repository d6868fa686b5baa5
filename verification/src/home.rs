//! The numbered track lists of the home page: history, up next, and the rest
//! of the context.
use vstd::prelude::*;
use crate::numtext::{decimal_text, u64_text};
use crate::playback::PlaybackManager;
use crate::text::push_str;

verus! {

/// One row of a numbered list: its label (`n. title`) and the unified index
/// of the track it stands for.
#[derive(Clone, Debug)]
pub struct ListEntry {
    pub label: String,
    pub global_index: usize,
}

/// The label of the `n`-th row for a track titled `title`.
pub open spec fn entry_label(n: nat, title: Seq<char>) -> Seq<char> {
    decimal_text(n) + ". "@ + title
}

/// The rows for the unified indices `indices`, numbered from one in list
/// order; an index with no track is counted but gets no row.
pub open spec fn list_entries_spec(pm: PlaybackManager, indices: Seq<usize>) -> Seq<(Seq<char>, usize)>
    decreases indices.len(),
{
    if indices.len() == 0 {
        Seq::empty()
    } else {
        let rest = list_entries_spec(pm, indices.drop_last());
        let g = indices.last();
        match pm.global_track(g as int) {
            Some(t) => rest.push((entry_label(indices.len(), t.title@), g)),
            None => rest,
        }
    }
}

/// The label and index of each row.
pub open spec fn entry_views(entries: Seq<ListEntry>) -> Seq<(Seq<char>, usize)> {
    entries.map_values(|e: ListEntry| (e.label@, e.global_index))
}

/// Builds the numbered rows for a list of unified indices.
pub fn list_entries(pm: &PlaybackManager, indices: &Vec<usize>) -> (entries: Vec<ListEntry>)
    requires
        pm.wf(),
    ensures
        entry_views(entries@) == list_entries_spec(*pm, indices@),
{
    let mut entries: Vec<ListEntry> = Vec::new();
    let mut i: usize = 0;
    proof {
        assert(entry_views(entries@) =~= Seq::<(Seq<char>, usize)>::empty());
        assert(indices@.take(0) =~= Seq::<usize>::empty());
    }
    while i < indices.len()
        invariant
            pm.wf(),
            i <= indices@.len(),
            entry_views(entries@) == list_entries_spec(*pm, indices@.take(i as int)),
        decreases indices@.len() - i,
    {
        let g = indices[i];
        let ghost before = entries@;
        proof {
            assert(indices@.take(i + 1).drop_last() =~= indices@.take(i as int));
            assert(indices@.take(i + 1).last() == g);
        }
        if let Some(track) = pm.track_by_global_index(g) {
            let mut label = u64_text((i + 1) as u64);
            push_str(&mut label, ". ");
            push_str(&mut label, track.title.as_str());
            entries.push(ListEntry { label, global_index: g });
            proof {
                assert(entry_views(entries@) =~= entry_views(before).push(
                    (entry_label((i + 1) as nat, track.title@), g),
                ));
            }
        }
        i += 1;
    }
    proof {
        assert(indices@.take(i as int) =~= indices@);
    }
    entries
}

} // verus!
