//! Which of several hits is the nearest.
//!
//! The candidates come one per object, in the order of the objects; an object
//! that the ray misses has none. Distances are compared in the total order of
//! their scalars. Where two candidates are equally near, the earlier one wins.

use vstd::prelude::*;
use crate::geometry::Hit;

verus! {

/// `index` holds a hit that no other candidate undercuts and that no earlier
/// candidate equals in distance.
pub open spec fn is_nearest(candidates: Seq<Option<Hit>>, index: int) -> bool {
    &&& 0 <= index < candidates.len()
    &&& candidates[index] is Some
    &&& forall|j: int|
        0 <= j < candidates.len() && (#[trigger] candidates[j]) is Some
            ==> candidates[index]->0.toi.total_key() <= candidates[j]->0.toi.total_key()
    &&& forall|j: int|
        0 <= j < index && (#[trigger] candidates[j]) is Some
            ==> candidates[index]->0.toi.total_key() < candidates[j]->0.toi.total_key()
}

/// No object was hit.
pub open spec fn all_missed(candidates: Seq<Option<Hit>>) -> bool {
    forall|j: int| 0 <= j < candidates.len() ==> (#[trigger] candidates[j]) is None
}

/// The nearest hit with the index of its object, or none if every object was missed.
pub open spec fn nearest(candidates: Seq<Option<Hit>>) -> Option<(int, Hit)> {
    if exists|i: int| is_nearest(candidates, i) {
        let i = choose|i: int| is_nearest(candidates, i);
        Some((i, candidates[i]->0))
    } else {
        None
    }
}

/// The sequence with the entries at `a` and `b` exchanged.
pub open spec fn swapped<T>(s: Seq<T>, a: int, b: int) -> Seq<T> {
    s.update(a, s[b]).update(b, s[a])
}

/// Where the entry at `i` stands after the entries at `a` and `b` were exchanged.
pub open spec fn swapped_index(i: int, a: int, b: int) -> int {
    if i == a {
        b
    } else if i == b {
        a
    } else {
        i
    }
}

/// At most one index holds the nearest hit.
pub proof fn lemma_nearest_unique(candidates: Seq<Option<Hit>>, i: int, j: int)
    requires
        is_nearest(candidates, i),
        is_nearest(candidates, j),
    ensures
        i == j,
{
    if i < j {
        assert(candidates[i] is Some);
    } else if j < i {
        assert(candidates[j] is Some);
    }
}

/// Unless every object was missed, some index holds the nearest hit.
pub proof fn lemma_nearest_exists(candidates: Seq<Option<Hit>>)
    ensures
        all_missed(candidates) || exists|i: int| is_nearest(candidates, i),
    decreases candidates.len(),
{
    if candidates.len() > 0 {
        let front = candidates.drop_last();
        let last = candidates.len() - 1;
        lemma_nearest_exists(front);
        assert(forall|j: int| 0 <= j < last ==> front[j] == candidates[j]);
        if all_missed(front) {
            if candidates[last] is Some {
                assert forall|j: int|
                    0 <= j < candidates.len() && (#[trigger] candidates[j]) is Some implies
                    j == last by {
                    if j < last {
                        assert(front[j] is None);
                    }
                }
                assert(is_nearest(candidates, last));
            } else {
                assert forall|j: int| 0 <= j < candidates.len() implies
                    (#[trigger] candidates[j]) is None by {
                    if j < last {
                        assert(front[j] is None);
                    }
                }
            }
        } else {
            let i = choose|i: int| is_nearest(front, i);
            let best = front[i]->0.toi.total_key();
            assert(candidates[i] == front[i]);
            if candidates[last] is Some && candidates[last]->0.toi.total_key() < best {
                assert forall|j: int| 0 <= j < last && (#[trigger] candidates[j]) is Some implies
                    candidates[last]->0.toi.total_key() < candidates[j]->0.toi.total_key() by {
                    assert(front[j] is Some);
                }
                assert(is_nearest(candidates, last));
            } else {
                assert forall|j: int|
                    0 <= j < candidates.len() && (#[trigger] candidates[j]) is Some implies
                    best <= candidates[j]->0.toi.total_key() by {
                    if j < last {
                        assert(front[j] is Some);
                    }
                }
                assert forall|j: int| 0 <= j < i && (#[trigger] candidates[j]) is Some implies
                    best < candidates[j]->0.toi.total_key() by {
                    assert(front[j] is Some);
                }
                assert(is_nearest(candidates, i));
            }
        }
    }
}

/// What `nearest` returns: the one index that holds the nearest hit, with
/// that hit, or nothing exactly when every object was missed.
pub proof fn lemma_nearest_characterised(candidates: Seq<Option<Hit>>)
    ensures
        match nearest(candidates) {
            Some((i, hit)) => is_nearest(candidates, i) && candidates[i] == Some(hit),
            None => all_missed(candidates),
        },
{
    lemma_nearest_exists(candidates);
    if all_missed(candidates) {
        assert forall|i: int| !is_nearest(candidates, i) by {
            if 0 <= i < candidates.len() {
                assert(candidates[i] is None);
            }
        }
    }
}

/// An index that holds the nearest hit is the one that `nearest` returns.
pub proof fn lemma_nearest_found(candidates: Seq<Option<Hit>>, i: int)
    requires
        is_nearest(candidates, i),
    ensures
        nearest(candidates) == Some((i, candidates[i]->0)),
{
    let chosen = choose|k: int| is_nearest(candidates, k);
    lemma_nearest_unique(candidates, i, chosen);
}

/// No other candidate is exactly as far away as the one at `index`.
pub open spec fn is_alone_at_distance(candidates: Seq<Option<Hit>>, index: int) -> bool {
    forall|j: int|
        0 <= j < candidates.len() && j != index && (#[trigger] candidates[j]) is Some
            ==> candidates[j]->0.toi != candidates[index]->0.toi
}

/// Exchanging two objects does not change how far the nearest hit is, nor
/// whether there is one. Where no other candidate is exactly as near, the same
/// object wins, at its new place, with the same hit.
pub proof fn lemma_nearest_after_swap(candidates: Seq<Option<Hit>>, a: int, b: int)
    requires
        0 <= a < candidates.len(),
        0 <= b < candidates.len(),
    ensures
        match (nearest(candidates), nearest(swapped(candidates, a, b))) {
            (None, None) => true,
            (Some((i, hit)), Some((k, found))) => {
                &&& found.toi == hit.toi
                &&& is_alone_at_distance(candidates, i) ==> k == swapped_index(i, a, b) && found
                    == hit
            },
            _ => false,
        },
{
    let other = swapped(candidates, a, b);
    lemma_nearest_characterised(candidates);
    lemma_nearest_characterised(other);
    assert(forall|j: int|
        0 <= j < candidates.len() ==> #[trigger] other[j] == candidates[swapped_index(j, a, b)]);
    match nearest(candidates) {
        None => {
            assert forall|j: int| 0 <= j < other.len() implies (#[trigger] other[j]) is None by {
                assert(candidates[swapped_index(j, a, b)] is None);
            }
            match nearest(other) {
                Some((k, found)) => {
                    assert(other[k] is None);
                },
                None => {},
            }
        },
        Some((i, hit)) => {
            let i2 = swapped_index(i, a, b);
            assert(other[i2] == candidates[i]);
            assert(other[i2] is Some);
            match nearest(other) {
                None => {
                    assert(other[i2] is None);
                },
                Some((k, found)) => {
                    let k2 = swapped_index(k, a, b);
                    assert(candidates[k2] == other[k]);
                    assert(candidates[k2] is Some);
                    assert(hit.toi.total_key() <= found.toi.total_key());
                    assert(found.toi.total_key() <= hit.toi.total_key());
                    crate::scalar::lemma_total_key_injective(hit.toi, found.toi);
                    if is_alone_at_distance(candidates, i) {
                        if k2 != i {
                            assert(candidates[k2]->0.toi != hit.toi);
                        }
                        assert(k == i2);
                    }
                },
            }
        },
    }
}

} // verus!
