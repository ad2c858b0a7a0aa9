use vstd::prelude::*;

verus! {

/// Trusted: a fresh identifier from `uuid::Uuid::now_v7()`, as its 128-bit value.
/// It depends on the clock and on chance; nothing is claimed of it.
#[verifier::external_body]
pub(crate) fn new_id() -> (id: u128) {
    uuid::Uuid::now_v7().as_u128()
}

/// Trusted: the current instant from `time::OffsetDateTime::now_utc()`, in
/// nanoseconds since the Unix epoch. Nothing is claimed of the value.
#[verifier::external_body]
pub(crate) fn now_nanos() -> (t: i128) {
    time::OffsetDateTime::now_utc().unix_timestamp_nanos()
}

} // verus!
