//! Identifiers of tracks, clips and notes.
//!
//! Track and clip identifiers are UUIDs, held here as their 128-bit value.

use vstd::prelude::*;

verus! {

/// Identifier of a clip (the 128-bit value of a UUID).
#[derive(Debug, Clone, Copy, PartialEq, Eq, Hash, Structural)]
pub struct ClipId(pub u128);

/// Identifier of a track (the 128-bit value of a UUID).
#[derive(Debug, Clone, Copy, PartialEq, Eq, Hash, Structural)]
pub struct TrackId(pub u128);

/// The 128-bit value of the UUID made of two 64-bit halves.
pub open spec fn u64_pair_value(high: u64, low: u64) -> int {
    high * 0x1_0000_0000_0000_0000 + low
}

/// Calls `uuid::Uuid::from_u64_pair` and reads the UUID back with
/// `Uuid::as_u128`. The uuid source builds the value as
/// `(high << 64) | low` in big-endian byte order, and `as_u128` reads the
/// same bytes big-endian, so the result is `high * 2^64 + low`.
#[verifier::external_body]
fn uuid_from_u64_pair(high: u64, low: u64) -> (r: u128)
    ensures
        r == u64_pair_value(high, low),
{
    uuid::Uuid::from_u64_pair(high, low).as_u128()
}

/// The 128-bit value carries the marks of a random (version 4) UUID: the
/// version field (bits 76 to 79) holds 4 and the variant field (bits 62
/// and 63) holds binary 10.
pub open spec fn is_v4_uuid(v: u128) -> bool {
    v & 0xF000_C000_0000_0000_0000u128 == 0x4000_8000_0000_0000_0000u128
}

/// Calls `uuid::Uuid::new_v4` and returns its 128-bit value. The uuid
/// source masks random bits and sets the version and variant fields, so
/// only those fields are stated; the other bits come from the random source.
#[verifier::external_body]
fn uuid_new_v4() -> (r: u128)
    ensures
        is_v4_uuid(r),
{
    uuid::Uuid::new_v4().as_u128()
}

/// Deterministic identifier `n` (high half zero), stable across runs.
pub fn demo_uuid(n: u64) -> (r: u128)
    ensures
        r == n,
{
    uuid_from_u64_pair(0, n)
}

impl ClipId {
    /// A fresh random clip identifier.
    pub fn new() -> (r: ClipId)
        ensures
            is_v4_uuid(r.0),
    {
        ClipId(uuid_new_v4())
    }
}

impl TrackId {
    /// A fresh random track identifier.
    pub fn new() -> (r: TrackId)
        ensures
            is_v4_uuid(r.0),
    {
        TrackId(uuid_new_v4())
    }
}

} // verus!
