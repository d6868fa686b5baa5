//! Permutations of `0..n` stored as sequences of indices, and the facts about
//! them that the shuffled playback order relies on.
use vstd::prelude::*;
use vstd::set_lib::*;

verus! {

/// `s` lists every index of `0..n` exactly once.
pub open spec fn is_perm(s: Seq<usize>, n: nat) -> bool {
    &&& s.len() == n
    &&& forall|i: int| 0 <= i < n ==> (#[trigger] s[i]) < n
    &&& s.no_duplicates()
}

/// The identity order `0, 1, ..., n - 1`.
pub open spec fn identity(n: nat) -> Seq<usize> {
    Seq::new(n, |i: int| i as usize)
}

/// `inv` is the inverse of `order`: `inv[order[i]] == i` for every position `i`.
pub open spec fn is_inverse(order: Seq<usize>, inv: Seq<usize>) -> bool {
    &&& inv.len() == order.len()
    &&& forall|i: int| 0 <= i < order.len() ==> #[trigger] inv[order[i] as int] == i
}

/// The identity order is a permutation.
pub proof fn lemma_identity_is_perm(n: nat)
    requires
        n <= usize::MAX,
    ensures
        is_perm(identity(n), n),
{
    let id = identity(n);
    assert forall|i: int, j: int|
        0 <= i < id.len() && 0 <= j < id.len() && i != j implies id[i] != id[j] by {}
}

/// A permutation of `0..n` contains every index below `n` (pigeonhole).
pub proof fn lemma_perm_contains(s: Seq<usize>, n: nat, t: usize)
    requires
        is_perm(s, n),
        t < n,
    ensures
        s.contains(t),
{
    let si = s.map_values(|x: usize| x as int);
    assert(si.no_duplicates()) by {
        assert forall|i: int, j: int|
            0 <= i < si.len() && 0 <= j < si.len() && i != j implies si[i] != si[j] by {
            assert(s[i] != s[j]);
        }
    }
    si.unique_seq_to_set();
    lemma_int_range(0, n as int);
    assert(si.to_set().subset_of(set_int_range(0, n as int))) by {
        assert forall|x: int| si.to_set().contains(x) implies set_int_range(0, n as int).contains(
            x,
        ) by {
            let k = choose|k: int| 0 <= k < si.len() && si[k] == x;
            assert(s[k] < n);
        }
    }
    lemma_subset_equality(si.to_set(), set_int_range(0, n as int));
    assert(set_int_range(0, n as int).contains(t as int));
    assert(si.to_set().contains(t as int));
    let k = choose|k: int| 0 <= k < si.len() && si[k] == t as int;
    assert(s[k] == t);
}

/// Looking up an index in the inverse gives back its position in the order.
pub proof fn lemma_inverse_lookup(order: Seq<usize>, inv: Seq<usize>, n: nat, t: usize)
    requires
        is_perm(order, n),
        is_inverse(order, inv),
        t < n,
    ensures
        inv[t as int] < n,
        order[inv[t as int] as int] == t,
{
    lemma_perm_contains(order, n, t);
    let k = choose|k: int| 0 <= k < order.len() && order[k] == t;
    assert(inv[order[k] as int] == k);
}

/// Positions in a permutation are unique: the index found at position `p`
/// is found nowhere else.
pub proof fn lemma_perm_position_unique(order: Seq<usize>, n: nat, p: int, q: int)
    requires
        is_perm(order, n),
        0 <= p < n,
        0 <= q < n,
        order[p] == order[q],
    ensures
        p == q,
{
}

/// A sequence with the same elements (as a multiset) as the identity order is
/// a permutation.
pub proof fn lemma_multiset_of_identity_is_perm(s: Seq<usize>, n: nat)
    requires
        n <= usize::MAX,
        s.to_multiset() == identity(n).to_multiset(),
    ensures
        is_perm(s, n),
{
    broadcast use vstd::seq_lib::group_to_multiset_ensures;

    let id = identity(n);
    lemma_identity_is_perm(n);
    id.lemma_multiset_has_no_duplicates();
    assert(s.len() == n) by {
        assert(s.to_multiset().len() == id.to_multiset().len());
    }
    assert forall|x: usize| s.to_multiset().contains(x) implies s.to_multiset().count(x)
        == 1 by {
        assert(id.to_multiset().contains(x));
    }
    s.lemma_multiset_has_no_duplicates_conv();
    assert forall|i: int| 0 <= i < n implies (#[trigger] s[i]) < n by {
        assert(s.contains(s[i]));
        assert(s.to_multiset().count(s[i]) > 0);
        assert(id.to_multiset().count(s[i]) > 0);
        assert(id.contains(s[i]));
    }
}

/// Swapping two positions of a permutation gives a permutation.
pub proof fn lemma_swap_perm(s: Seq<usize>, n: nat, a: int, b: int)
    requires
        is_perm(s, n),
        0 <= a < n,
        0 <= b < n,
    ensures
        is_perm(s.update(a, s[b]).update(b, s[a]), n),
{
    let t = s.update(a, s[b]).update(b, s[a]);
    assert forall|i: int, j: int|
        0 <= i < t.len() && 0 <= j < t.len() && i != j implies t[i] != t[j] by {
        let si = if i == b {
            a
        } else if i == a {
            b
        } else {
            i
        };
        let sj = if j == b {
            a
        } else if j == a {
            b
        } else {
            j
        };
        assert(t[i] == s[si]);
        assert(t[j] == s[sj]);
    }
}

/// The order after `count` new indices are inserted at `at` (see
/// `queue::order_after_insert`) is again a permutation.
pub proof fn lemma_insert_perm(order: Seq<usize>, n: nat, at: nat, count: nat)
    requires
        is_perm(order, n),
        at <= n,
        n + count <= usize::MAX,
    ensures
        is_perm(
            order.map_values(|t: usize| if t >= at { (t + count) as usize } else { t })
                + Seq::new(count, |i: int| (at + i) as usize),
            n + count,
        ),
{
    let shifted = order.map_values(|t: usize| if t >= at { (t + count) as usize } else { t });
    let fresh = Seq::new(count, |i: int| (at + i) as usize);
    let r = shifted + fresh;
    assert forall|i: int| 0 <= i < n + count implies (#[trigger] r[i]) < n + count by {
        if i < n {
            assert(r[i] == shifted[i]);
            assert(order[i] < n);
        } else {
            assert(r[i] == fresh[i - n]);
        }
    }
    assert forall|i: int, j: int|
        0 <= i < r.len() && 0 <= j < r.len() && i != j implies r[i] != r[j] by {
        if i < n && j < n {
            assert(order[i] != order[j]);
            assert(r[i] == shifted[i]);
            assert(r[j] == shifted[j]);
        } else if i < n {
            assert(r[i] == shifted[i]);
            assert(r[j] == fresh[j - n]);
        } else if j < n {
            assert(r[j] == shifted[j]);
            assert(r[i] == fresh[i - n]);
        } else {
            assert(r[i] == fresh[i - n]);
            assert(r[j] == fresh[j - n]);
        }
    }
}

/// Removing index `idx` from a permutation of `0..n` and closing the gap gives
/// a permutation of `0..n - 1`.
pub proof fn lemma_remove_perm(order: Seq<usize>, n: nat, p: int)
    requires
        is_perm(order, n),
        0 <= p < n,
    ensures
        is_perm(
            order.remove(p).map_values(
                |t: usize| if t > order[p] { (t - 1) as usize } else { t },
            ),
            (n - 1) as nat,
        ),
{
    let idx = order[p];
    let rem = order.remove(p);
    let r = rem.map_values(|t: usize| if t > idx { (t - 1) as usize } else { t });
    assert forall|i: int| 0 <= i < rem.len() implies rem[i] != idx && rem[i] < n by {
        if i < p {
            assert(rem[i] == order[i]);
        } else {
            assert(rem[i] == order[i + 1]);
        }
    }
    assert forall|i: int| 0 <= i < n - 1 implies (#[trigger] r[i]) < n - 1 by {
        assert(rem[i] != idx && rem[i] < n);
    }
    assert forall|i: int, j: int|
        0 <= i < r.len() && 0 <= j < r.len() && i != j implies r[i] != r[j] by {
        let oi = if i < p {
            i
        } else {
            i + 1
        };
        let oj = if j < p {
            j
        } else {
            j + 1
        };
        assert(rem[i] == order[oi]);
        assert(rem[j] == order[oj]);
        assert(order[oi] != order[oj]);
        assert(rem[i] != idx && rem[j] != idx);
    }
}

} // verus!
