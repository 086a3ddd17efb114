use vstd::prelude::*;

verus! {

/// `uuid::Uuid::new_v4`, read through `Uuid::as_u128`: a fresh random
/// identifier. Its value is left open; what holds of every outcome is that
/// it carries the version-4 nibble and the `10` variant bits.
#[verifier::external_body]
pub(crate) fn new_v4_id() -> (id: u128)
    ensures
        (id >> 76u128) & 0xfu128 == 4,
        (id >> 62u128) & 0x3u128 == 2,
{
    uuid::Uuid::new_v4().as_u128()
}

/// `chrono::Utc::now`, read through `DateTime::timestamp_millis`: the wall
/// clock in milliseconds since the Unix epoch. Nothing is promised of it.
#[verifier::external_body]
pub(crate) fn now_millis() -> (t: i64) {
    chrono::Utc::now().timestamp_millis()
}

} // verus!
