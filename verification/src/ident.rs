//! Event identifiers: 128-bit values whose high bits hold the time.

use vstd::prelude::*;

verus! {

/// The version field of an identifier in UUID layout.
pub open spec fn version_of(id: u128) -> u128 {
    (id >> 76) & 0xf
}

/// The variant field of an identifier in UUID layout.
pub open spec fn variant_of(id: u128) -> u128 {
    (id >> 62) & 0x3
}

/// The milliseconds since the epoch that a time-ordered identifier starts
/// with.
pub open spec fn millis_of(id: u128) -> u128 {
    id >> 80
}

/// A time-ordered identifier: version 7 in the RFC 4122 variant.
pub open spec fn is_time_ordered(id: u128) -> bool {
    version_of(id) == 7 && variant_of(id) == 2
}

/// Identifiers sort by their time: one with an earlier millisecond is the
/// smaller number, whatever the rest of its bits.
pub proof fn lemma_order_follows_time(a: u128, b: u128)
    requires
        millis_of(a) < millis_of(b),
    ensures
        a < b,
{
    assert(a < b) by (bit_vector)
        requires
            (a >> 80) < (b >> 80),
    ;
}

/// Where the identifier of an event comes from.
#[derive(Debug, Clone, Copy, PartialEq, Eq, Structural)]
pub enum IdOrigin {
    /// The service makes a fresh one.
    Generated,
    /// The caller supplies it, and may supply it again.
    Supplied(u128),
}

/// Calls `uuid::Uuid::now_v7` and hands out the value as `as_u128` gives it.
///
/// Trusted: the value has version 7 and the RFC 4122 variant. Nothing else is
/// said of it: it depends on the clock and on random bits. The call panics
/// where the system clock stands before 1970, which no argument decides.
#[verifier::external_body]
pub(crate) fn uuid_now_v7() -> (id: u128)
    ensures
        is_time_ordered(id),
{
    uuid::Uuid::now_v7().as_u128()
}

/// A fresh time-ordered identifier. Never fails.
pub fn new_id() -> (id: u128)
    ensures
        is_time_ordered(id),
{
    uuid_now_v7()
}

/// The identifier for an event of the given origin: the supplied one as it
/// is, else a fresh one.
pub fn resolve_id(origin: IdOrigin) -> (id: u128)
    ensures
        (match origin {
            IdOrigin::Supplied(given) => id == given,
            IdOrigin::Generated => is_time_ordered(id),
        }),
{
    match origin {
        IdOrigin::Supplied(given) => given,
        IdOrigin::Generated => new_id(),
    }
}

/// The milliseconds since the epoch in the high 48 bits of an identifier.
pub fn unix_millis(id: u128) -> (ms: u64)
    ensures
        ms == millis_of(id),
        ms < 0x1_0000_0000_0000,
{
    let high: u128 = id >> 80;
    assert(high < 0x1_0000_0000_0000) by (bit_vector)
        requires
            high == id >> 80,
    ;
    high as u64
}

} // verus!
