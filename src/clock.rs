//! The wall clock.

use vstd::prelude::*;

verus! {

/// Relies on chrono's `Local::now()` formatted with `"%Y-%m-%d %H:%M:%S"`:
/// the local date and time as text. It depends on the moment of the call,
/// so nothing is stated about it.
#[verifier::external_body]
pub(crate) fn local_timestamp() -> (r: String) {
    chrono::Local::now().format("%Y-%m-%d %H:%M:%S").to_string()
}

} // verus!
