//! The random-number source behind movement scheduling and spawning.

use vstd::prelude::*;

verus! {

/// Relies on rand::random_range over the inclusive range `lo..=hi`: the
/// sample is drawn from the given range, so it lies between the two bounds;
/// with `lo <= hi` the range is non-empty and the call does not panic.
#[verifier::external_body]
pub(crate) fn random_in_range(lo: i64, hi: i64) -> (r: i64)
    requires
        lo <= hi,
    ensures
        lo <= r <= hi,
{
    rand::random_range(lo..=hi)
}

} // verus!
