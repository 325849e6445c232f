//! The one source of randomness: a uniform draw from a range.
use vstd::prelude::*;

verus! {

/// Relies on `rand::Rng::gen_range` over `rand::thread_rng`: a draw from
/// `lo..hi`, which panics only on an empty range; the contract rules that
/// out. Nothing more is promised of the value than its bounds.
#[verifier::external_body]
pub(crate) fn rand_range(lo: i64, hi: i64) -> (r: i64)
    requires
        lo < hi,
    ensures
        lo <= r < hi,
{
    rand::Rng::gen_range(&mut rand::thread_rng(), lo..hi)
}

} // verus!
