//! The clock reading that makes each client identifier unique.

use vstd::prelude::*;
use crate::text::{hex16, hex_padded16};

verus! {

/// `std::time::UNIX_EPOCH.elapsed()`: the time since the Unix epoch, or nothing
/// when the system clock stands before it. Nothing is claimed of the duration:
/// it is a reading of the clock.
#[verifier::external_body]
fn elapsed_since_epoch() -> (d: Option<std::time::Duration>) {
    std::time::UNIX_EPOCH.elapsed().ok()
}

/// `std::time::Duration::as_nanos`: the whole nanoseconds of a duration.
/// Nothing is claimed, as the duration itself is opaque here.
#[verifier::external_body]
fn duration_as_nanos(d: &std::time::Duration) -> (n: u128) {
    d.as_nanos()
}

/// The nanoseconds since the Unix epoch as sixteen or more lower-case hex
/// digits. A system clock that stands before the epoch has no such count and
/// reads as zero, so a text always comes back.
pub fn rand_hex() -> (r: Option<String>)
    ensures
        r is Some,
        r matches Some(s) ==> exists|t: u128| s@ == #[trigger] hex_padded16(t as nat),
{
    match elapsed_since_epoch() {
        Some(d) => {
            let t: u128 = duration_as_nanos(&d);
            let s = hex16(t);
            assert(s@ == hex_padded16(t as nat));
            Some(s)
        },
        None => {
            let s = hex16(0);
            assert(s@ == hex_padded16(0u128 as nat));
            Some(s)
        },
    }
}

} // verus!
