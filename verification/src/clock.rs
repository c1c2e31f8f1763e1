//! The wall-clock time source, behind a single trusted call.

use vstd::prelude::*;

verus! {

/// Relies on chrono's `Utc::now`, read as `timestamp()`: the current
/// wall-clock time in whole seconds since the Unix epoch. Nothing is
/// assumed of the reading; every caller states what holds of any value.
#[verifier::external_body]
pub(crate) fn now_seconds() -> i64 {
    chrono::Utc::now().timestamp()
}

} // verus!
