//! The wall clock.
use vstd::prelude::*;

verus! {

/// Relies on std's SystemTime::elapsed, called on UNIX_EPOCH: the whole seconds
/// since the epoch, 0 for a clock set before it. The clock may read anything,
/// so nothing is promised of the value.
#[verifier::external_body]
pub(crate) fn now_secs() -> (r: u64) {
    std::time::UNIX_EPOCH.elapsed().map_or(0, |d| d.as_secs())
}

} // verus!
