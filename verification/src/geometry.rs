//! The intersection rules of the surfaces: which of the candidate distances
//! along a ray, if any, is the hit.
//!
//! The candidates are worked out by the caller; what is decided here is
//! decided by comparing them.

use vstd::prelude::*;
use crate::hit::{distance_in_front, in_front};
use crate::scalar::{
    abs, absolute, is_below_zero, is_greater_than_zero, is_less_than_zero, is_nan, is_nearer,
    is_positive, is_zero, lemma_order_of_bits,
};

verus! {

/// The pattern of 1e-4: a ray whose direction has a smaller component along
/// a plane's normal runs parallel to the plane.
pub const HIT_EPS: u64 = 0x3f1a_36e2_eb1c_432d;

/// The distance at which a ray hits a sphere, given the discriminant of the
/// quadratic and its two roots, the smaller first: nothing for a
/// discriminant less than zero; else the smaller root if it is in front of
/// the ray's origin; else the larger root if that is; else nothing.
pub open spec fn sphere_distance(discriminant: u64, near_root: u64, far_root: u64) -> Option<u64> {
    if is_below_zero(discriminant) {
        None
    } else if is_positive(near_root) {
        Some(near_root)
    } else {
        in_front(Some(far_root))
    }
}

/// Picks the hit of a ray on a sphere from the roots of the quadratic
/// `|O + tD - C|^2 = r^2`: `near_root` is `(-b - sqrt(discriminant)) / 2a`,
/// `far_root` is `(-b + sqrt(discriminant)) / 2a`. The closest root in front
/// of the ray's origin wins; a root behind it is never reported.
pub fn sphere_hit(discriminant: u64, near_root: u64, far_root: u64) -> (distance: Option<u64>)
    ensures
        distance == sphere_distance(discriminant, near_root, far_root),
{
    if is_less_than_zero(discriminant) {
        None
    } else if is_greater_than_zero(near_root) {
        Some(near_root)
    } else {
        distance_in_front(Some(far_root))
    }
}

/// The ray runs parallel to the plane: the size of `denominator`, the ray's
/// direction along the plane's normal, is a number smaller than `HIT_EPS`.
pub open spec fn is_parallel(denominator: u64) -> bool {
    !is_nan(denominator) && absolute(denominator) < HIT_EPS
}

/// The distance at which a ray hits a plane, given the ray's direction
/// along the plane's normal and the quotient `((P - O) . N) / (D . N)`:
/// nothing for a parallel ray, else the quotient if it is in front of the
/// ray's origin.
pub open spec fn plane_distance(denominator: u64, quotient: u64) -> Option<u64> {
    if is_parallel(denominator) {
        None
    } else {
        in_front(Some(quotient))
    }
}

/// Picks the hit of a ray on a plane. A ray that runs parallel to the plane
/// within `HIT_EPS` hits nothing, wherever the plane lies; any other ray hits
/// at `quotient` if that is in front of its origin.
pub fn plane_hit(denominator: u64, quotient: u64) -> (distance: Option<u64>)
    ensures
        distance == plane_distance(denominator, quotient),
{
    let size: u64 = abs(denominator);
    if size < HIT_EPS {
        None
    } else {
        distance_in_front(Some(quotient))
    }
}

/// What a surface reports is a number greater than zero: a hit is never at
/// or behind the ray's origin.
pub proof fn lemma_hits_are_in_front(
    discriminant: u64,
    near_root: u64,
    far_root: u64,
    denominator: u64,
    quotient: u64,
)
    ensures
        sphere_distance(discriminant, near_root, far_root) matches Some(d) ==> is_positive(d),
        plane_distance(denominator, quotient) matches Some(d) ==> is_positive(d),
{
}

/// The closest root in front of the ray's origin wins. Where the
/// discriminant is not less than zero and the smaller root is in front, the
/// smaller root is the hit, also for a tangent ray, whose discriminant is
/// zero and whose two roots are the same; where only the larger root is in
/// front, that is the hit; where neither is, there is none. So, the roots
/// being given the smaller first, no root in front of the origin is nearer
/// than the hit.
pub proof fn lemma_closest_root_wins(discriminant: u64, near_root: u64, far_root: u64)
    requires
        !is_below_zero(discriminant),
    ensures
        is_positive(near_root) ==> sphere_distance(discriminant, near_root, far_root) == Some(
            near_root,
        ),
        !is_positive(near_root) && is_positive(far_root) ==> sphere_distance(
            discriminant,
            near_root,
            far_root,
        ) == Some(far_root),
        !is_positive(near_root) && !is_positive(far_root) ==> sphere_distance(
            discriminant,
            near_root,
            far_root,
        ) is None,
        is_positive(near_root) && is_positive(far_root) && !is_nearer(far_root, near_root) ==> ({
            &&& sphere_distance(discriminant, near_root, far_root) matches Some(hit)
            &&& !is_nearer(near_root, hit)
            &&& !is_nearer(far_root, hit)
        }),
{
    if is_positive(near_root) {
        lemma_order_of_bits(near_root, near_root);
    }
}

/// A ray at right angles to a plane's normal hits nothing, whatever the
/// quotient, and so wherever the plane lies. And the guard is the comparison
/// of numbers: a ray is parallel exactly when the size of the denominator,
/// as a number, is smaller than 1e-4.
pub proof fn lemma_parallel_guard(denominator: u64, quotient: u64)
    ensures
        is_zero(denominator) ==> plane_distance(denominator, quotient) is None,
        is_parallel(denominator) ==> plane_distance(denominator, quotient) is None,
        !is_nan(denominator) ==> (is_parallel(denominator) <==> is_nearer(
            absolute(denominator),
            HIT_EPS,
        )),
        is_nan(denominator) ==> !is_parallel(denominator),
{
    if !is_nan(denominator) {
        lemma_order_of_bits(absolute(denominator), HIT_EPS);
    }
}

} // verus!
