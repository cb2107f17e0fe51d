//! Instants and the lifetime of a one-time password.

use vstd::prelude::*;

verus! {

/// A point in time: `secs` whole seconds since 1970-01-01 00:00:00 UTC and
/// `nanos` nanoseconds past that second.
#[derive(Clone, Copy, Debug)]
pub struct Timestamp {
    pub secs: i64,
    pub nanos: u32,
}

/// How long a one-time password stays valid, in seconds.
pub const OTP_LIFETIME_SECS: i64 = 60;

/// Nanoseconds in a second.
pub const NANOS_PER_SEC: i64 = 1_000_000_000;

/// The nanoseconds from `earlier` to `later`; negative where `later` comes
/// first.
pub open spec fn nanos_between(earlier: Timestamp, later: Timestamp) -> int {
    (later.secs - earlier.secs) * NANOS_PER_SEC + (later.nanos - earlier.nanos)
}

/// A password created at `created` is too old at `now`: more than the
/// lifetime has passed. At exactly the lifetime it is still valid.
pub open spec fn expired(created: Timestamp, now: Timestamp) -> bool {
    nanos_between(created, now) > OTP_LIFETIME_SECS * NANOS_PER_SEC
}

/// Tells whether a password created at `created` is too old at `now`.
pub fn is_expired(created: Timestamp, now: Timestamp) -> (r: bool)
    ensures
        r == expired(created, now),
{
    let secs: i128 = now.secs as i128 - created.secs as i128;
    let nanos: i128 = now.nanos as i128 - created.nanos as i128;
    let elapsed: i128 = secs * 1_000_000_000 + nanos;
    elapsed > 60_000_000_000
}

} // verus!
