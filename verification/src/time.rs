//! Wall-clock time stamps, carried through the aggregation logic as opaque values.

use std::time::SystemTime;
use vstd::prelude::*;

verus! {

#[verifier::external_type_specification]
#[verifier::external_body]
pub struct ExSystemTime(SystemTime);

/// Reads the wall clock (`std::time::SystemTime::now`). Nothing is promised
/// of the time it returns: it depends on the machine's clock.
#[verifier::external_body]
pub fn now() -> (t: SystemTime) {
    SystemTime::now()
}

} // verus!
