//! Random draws (from `rand`): nothing is promised of the value drawn beyond
//! the range it is drawn from.
use vstd::prelude::*;

verus! {

/// A uniformly drawn index below `len` (`rand::thread_rng().gen_range(0..len)`).
#[verifier::external_body]
pub(crate) fn random_index(len: usize) -> (r: usize)
    requires
        len > 0,
    ensures
        r < len,
{
    rand::Rng::gen_range(&mut rand::thread_rng(), 0..len)
}

/// A uniformly drawn value from `lo` to `hi` inclusive
/// (`rand::thread_rng().gen_range(lo..=hi)`).
#[verifier::external_body]
pub(crate) fn random_between(lo: i64, hi: i64) -> (r: i64)
    requires
        lo <= hi,
    ensures
        lo <= r <= hi,
{
    rand::Rng::gen_range(&mut rand::thread_rng(), lo..=hi)
}

} // verus!
