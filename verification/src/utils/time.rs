use std::time::{SystemTime, UNIX_EPOCH};
use vstd::prelude::*;

use crate::shared::types::Timestamp;

verus! {

/// `SystemTime::now`, measured from `UNIX_EPOCH` and read in milliseconds:
/// the wall clock. Nothing is promised of the value.
#[verifier::external_body]
pub fn now() -> (t: Timestamp) {
    SystemTime::now().duration_since(UNIX_EPOCH).unwrap().as_millis() as Timestamp
}

} // verus!
