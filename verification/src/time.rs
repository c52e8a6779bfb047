//! The offset of local time from UTC, in hours and minutes, for display.
use vstd::prelude::*;

verus! {

/// An offset from UTC in seconds is less than a day, either way.
pub open spec fn is_offset(seconds: int) -> bool {
    -86_400 < seconds < 86_400
}

/// The whole hours of an offset of `seconds`, rounded toward zero.
pub open spec fn offset_hours(seconds: int) -> int {
    if seconds >= 0 {
        seconds / 3600
    } else {
        -((-seconds) / 3600)
    }
}

/// The whole minutes of an offset of `seconds` beyond its whole hours,
/// rounded toward zero; they have the sign of the offset.
pub open spec fn offset_minutes(seconds: int) -> int {
    if seconds >= 0 {
        (seconds % 3600) / 60
    } else {
        -(((-seconds) % 3600) / 60)
    }
}

/// Calls `chrono::Local::now`, and on the result `offset` and
/// `local_minus_utc`. The value depends on the clock and the time zone of
/// the machine; all that is claimed is the range that `chrono::FixedOffset`
/// keeps: less than a day, either way.
#[verifier::external_body]
fn local_minus_utc() -> (seconds: i32)
    ensures
        is_offset(seconds as int),
{
    chrono::Local::now().offset().local_minus_utc()
}

/// Splits an offset in seconds into hours and minutes.
pub fn split_offset(seconds: i32) -> (parts: (i32, i32))
    ensures
        parts.0 == offset_hours(seconds as int),
        parts.1 == offset_minutes(seconds as int),
{
    (seconds / 3600, (seconds % 3600) / 60)
}

/// The offset of local time from UTC at this moment, in hours and minutes.
/// Whatever the clock and the time zone, the parts are those of an offset
/// of less than a day: at most 23 hours and 59 minutes, both with the sign
/// of the offset.
pub fn get_local_offset() -> (parts: (i32, i32))
    ensures
        exists|seconds: int|
            is_offset(seconds) && parts.0 == #[trigger] offset_hours(seconds) && parts.1
                == offset_minutes(seconds),
        -23 <= parts.0 <= 23,
        -59 <= parts.1 <= 59,
        parts.0 < 0 ==> parts.1 <= 0,
        parts.0 > 0 ==> parts.1 >= 0,
{
    let seconds = local_minus_utc();
    split_offset(seconds)
}

} // verus!
