//! Unix timestamps from clock readings.
//!
//! This crate reads no clock: where the time matters, the caller passes it
//! in, taken from whatever clock its platform has.

use vstd::prelude::*;

verus! {

/// Turns a clock reading (whole seconds since the Unix epoch, or `None` for
/// a clock that reads earlier than the epoch) into a Unix timestamp: a
/// reading before the epoch counts as the epoch, one beyond `i64::MAX`
/// seconds as `i64::MAX`.
pub fn timestamp_from_reading(reading: Option<u64>) -> (r: i64)
    ensures
        r == match reading {
            Some(s) => if s <= i64::MAX { s as int } else { i64::MAX as int },
            None => 0,
        },
        0 <= r,
{
    match reading {
        Some(s) => if s <= 0x7fff_ffff_ffff_ffffu64 {
            s as i64
        } else {
            i64::MAX
        },
        None => 0,
    }
}

} // verus!
