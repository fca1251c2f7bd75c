//! Nearest-hit search: a linear scan over what one ray reports for each
//! object of the scene.

use vstd::prelude::*;
use crate::scalar::{is_greater_than_zero, is_nearer, is_positive, lemma_order_of_bits};

verus! {

/// The surface a ray sees first.
#[derive(Clone, Copy, Debug, PartialEq, Eq, Structural)]
pub struct Hit {
    /// The distance from the ray's origin to the surface: the pattern of a
    /// number greater than zero.
    pub distance: u64,
    /// Position of the object in the scene's geometry sequence.
    pub object: usize,
}

/// What a ray reports for one object, reduced to a distance in front of its
/// origin: a report that is absent, or whose pattern is zero, negative or no
/// number, is a miss.
pub open spec fn in_front(report: Option<u64>) -> Option<u64> {
    match report {
        Some(bits) => if is_positive(bits) {
            Some(bits)
        } else {
            None
        },
        None => None,
    }
}

/// Reduces a report to a distance in front of the ray's origin.
pub fn distance_in_front(report: Option<u64>) -> (distance: Option<u64>)
    ensures
        distance == in_front(report),
{
    match report {
        Some(bits) => if is_greater_than_zero(bits) {
            Some(bits)
        } else {
            None
        },
        None => None,
    }
}

/// `hit` is the result of scanning `reports` front to back and replacing the
/// current best only by a strictly smaller distance: it names an object that
/// the ray meets in front of its origin, no object is nearer, and every
/// object before it in scan order is strictly farther.
pub open spec fn is_nearest(reports: Seq<Option<u64>>, hit: Hit) -> bool {
    &&& 0 <= hit.object < reports.len()
    &&& in_front(reports[hit.object as int]) == Some(hit.distance)
    &&& forall|k: int|
        0 <= k < reports.len() && in_front(#[trigger] reports[k]) is Some ==> hit.distance
            <= in_front(reports[k]).unwrap()
    &&& forall|k: int|
        0 <= k < hit.object && in_front(#[trigger] reports[k]) is Some ==> hit.distance
            < in_front(reports[k]).unwrap()
}

/// The ray meets none of the objects in front of its origin.
pub open spec fn all_miss(reports: Seq<Option<u64>>) -> bool {
    forall|k: int| 0 <= k < reports.len() ==> in_front(#[trigger] reports[k]) is None
}

/// The nearest hit of a ray, as a value: `None` when the ray meets nothing.
pub open spec fn nearest(reports: Seq<Option<u64>>) -> Option<Hit>
    decreases reports.len(),
{
    if reports.len() == 0 {
        None
    } else {
        let last = reports.len() - 1;
        let before = nearest(reports.drop_last());
        match (before, in_front(reports[last])) {
            (Some(best), Some(d)) => if d < best.distance {
                Some(Hit { distance: d, object: last as usize })
            } else {
                Some(best)
            },
            (Some(best), None) => Some(best),
            (None, Some(d)) => Some(Hit { distance: d, object: last as usize }),
            (None, None) => None,
        }
    }
}

/// `nearest` is the one hit that `is_nearest` describes, and `None` exactly
/// when every object is missed.
pub proof fn lemma_nearest(reports: Seq<Option<u64>>)
    requires
        reports.len() <= usize::MAX,
    ensures
        nearest(reports) is None <==> all_miss(reports),
        nearest(reports) matches Some(hit) ==> is_nearest(reports, hit),
        forall|hit: Hit| is_nearest(reports, hit) ==> nearest(reports) == Some(hit),
    decreases reports.len(),
{
    if reports.len() > 0 {
        let last = reports.len() - 1;
        let front = reports.drop_last();
        lemma_nearest(front);
        assert forall|k: int| 0 <= k < front.len() implies front[k] == reports[k] by {}
        match nearest(reports) {
            Some(hit) => {
                assert(is_nearest(reports, hit)) by {
                    assert forall|k: int|
                        0 <= k < reports.len() && in_front(#[trigger] reports[k]) is Some implies hit.distance
                        <= in_front(reports[k]).unwrap() by {
                        if k < last {
                            assert(in_front(front[k]) is Some);
                        }
                    }
                    assert forall|k: int|
                        0 <= k < hit.object && in_front(#[trigger] reports[k]) is Some implies hit.distance
                        < in_front(reports[k]).unwrap() by {
                        if k < last {
                            assert(in_front(front[k]) is Some);
                        }
                    }
                }
            },
            None => {
                assert forall|k: int| 0 <= k < reports.len() implies in_front(
                    #[trigger] reports[k],
                ) is None by {
                    if k < last {
                        assert(in_front(front[k]) is None);
                    }
                }
            },
        }
        if all_miss(reports) {
            assert(in_front(reports[last]) is None);
            assert forall|k: int| 0 <= k < front.len() implies in_front(#[trigger] front[k]) is None by {
                assert(in_front(reports[k]) is None);
            }
        }
        assert forall|hit: Hit| is_nearest(reports, hit) implies nearest(reports) == Some(hit) by {
            lemma_nearest_unique(reports, hit, nearest(reports));
        }
    } else {
        assert forall|hit: Hit| is_nearest(reports, hit) implies nearest(reports) == Some(hit) by {}
    }
}

proof fn lemma_nearest_unique(reports: Seq<Option<u64>>, hit: Hit, found: Option<Hit>)
    requires
        is_nearest(reports, hit),
        found is None <==> all_miss(reports),
        found matches Some(other) ==> is_nearest(reports, other),
    ensures
        found == Some(hit),
{
    assert(in_front(reports[hit.object as int]) is Some);
    let other = found.unwrap();
    assert(in_front(reports[other.object as int]) is Some);
    if other.object < hit.object {
        assert(hit.distance < in_front(reports[other.object as int]).unwrap());
    } else if hit.object < other.object {
        assert(other.distance < in_front(reports[hit.object as int]).unwrap());
    }
}

/// The nearest hit is nearest as a number: its distance is greater than
/// zero, no object that the ray meets in front of its origin is at a smaller
/// distance, and every such object before it in scan order is at a greater
/// one.
pub proof fn lemma_nearest_in_numbers(reports: Seq<Option<u64>>, hit: Hit, k: int)
    requires
        is_nearest(reports, hit),
        0 <= k < reports.len(),
        in_front(reports[k]) is Some,
    ensures
        is_positive(hit.distance),
        !is_nearer(in_front(reports[k]).unwrap(), hit.distance),
        k < hit.object ==> is_nearer(hit.distance, in_front(reports[k]).unwrap()),
{
    assert(in_front(reports[hit.object as int]) is Some);
    lemma_order_of_bits(in_front(reports[k]).unwrap(), hit.distance);
    lemma_order_of_bits(hit.distance, in_front(reports[k]).unwrap());
}

/// Scans what one ray reports, one entry per object in scene order: the
/// distance at which the ray meets the object, or `None` where it does not.
/// Returns the nearest hit in front of the ray's origin; a distance that is
/// zero, negative or no number does not count. Of several objects at the
/// same smallest distance the first in scene order wins.
pub fn nearest_intersection(reports: &Vec<Option<u64>>) -> (found: Option<Hit>)
    ensures
        found == nearest(reports@),
        found is None <==> all_miss(reports@),
        found matches Some(hit) ==> is_nearest(reports@, hit),
{
    let mut best: Option<Hit> = None;
    let mut idx: usize = 0;
    while idx < reports.len()
        invariant
            idx <= reports.len(),
            best == nearest(reports@.take(idx as int)),
        decreases reports.len() - idx,
    {
        proof {
            assert(reports@.take(idx + 1).drop_last() =~= reports@.take(idx as int));
        }
        match distance_in_front(reports[idx]) {
            Some(d) => {
                let replace = match best {
                    Some(current) => d < current.distance,
                    None => true,
                };
                if replace {
                    best = Some(Hit { distance: d, object: idx });
                }
            },
            None => {},
        }
        idx += 1;
    }
    proof {
        assert(reports@.take(idx as int) =~= reports@);
        lemma_nearest(reports@);
    }
    best
}

} // verus!
