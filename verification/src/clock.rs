//! The wall clock, read at the request's edge.

use vstd::prelude::*;

verus! {

/// Relies on chrono's Utc::now and its rendering; nothing is promised of
/// the clock's value.
#[verifier::external_body]
pub fn utc_now_string() -> String {
    chrono::Utc::now().to_string()
}

} // verus!
