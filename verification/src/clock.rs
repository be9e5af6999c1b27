//! The clock: the one place where the library reads the outside world.
//! Collection operations take the reading as an argument, so tests can
//! freeze time.

use vstd::prelude::*;
use crate::types::{Timestamp, valid_ymd, valid_ymd_exec};

verus! {

/// Relies on `chrono::Local::now` and its calendar accessors: the
/// month, day, hour, minute and second of a local time are always in
/// their calendar ranges; the year is handed back as it is.
#[verifier::external_body]
fn local_now_parts() -> (r: (i32, u32, u32, u32, u32, u32))
    ensures
        1 <= r.1 <= 12,
        1 <= r.2 <= 31,
        r.3 <= 23,
        r.4 <= 59,
        r.5 <= 59,
{
    let n = chrono::Local::now();
    (
        chrono::Datelike::year(&n),
        chrono::Datelike::month(&n),
        chrono::Datelike::day(&n),
        chrono::Timelike::hour(&n),
        chrono::Timelike::minute(&n),
        chrono::Timelike::second(&n),
    )
}

/// The timestamp a raw clock reading clamps to: a year outside the
/// four digits the format carries is clamped to the nearest end, and a
/// day the clamped year cannot hold falls back to a day every month
/// has.
pub open spec fn clamped_timestamp(y: int, mo: u32, d: u32, h: u32, mi: u32, s: u32)
    -> Timestamp {
    let year = if y < 0 { 0u32 } else if y > 9999 { 9999u32 } else { y as u32 };
    if valid_ymd(year as int, mo as int, d as int) {
        Timestamp { year, month: mo, day: d, hour: h, minute: mi, second: s }
    } else {
        Timestamp { year, month: mo, day: if d > 28 { 28u32 } else { d }, hour: h, minute: mi,
            second: s }
    }
}

/// Clamps raw clock parts to a well-formed timestamp, exactly as
/// `clamped_timestamp` says.
pub fn timestamp_from_parts(y: i32, mo: u32, d: u32, h: u32, mi: u32, s: u32) -> (r: Timestamp)
    requires
        1 <= mo <= 12,
        1 <= d <= 31,
        h <= 23,
        mi <= 59,
        s <= 59,
    ensures
        r == clamped_timestamp(y as int, mo, d, h, mi, s),
        r.wf(),
{
    let year: u32 = if y < 0 { 0 } else if y > 9999 { 9999 } else { y as u32 };
    if valid_ymd_exec(year, mo, d) {
        Timestamp { year, month: mo, day: d, hour: h, minute: mi, second: s }
    } else {
        let day: u32 = if d > 28 { 28 } else { d };
        Timestamp { year, month: mo, day, hour: h, minute: mi, second: s }
    }
}

/// The current local time as a well-formed timestamp; nothing more can
/// be said of a clock reading.
pub fn clock_now() -> (r: Timestamp)
    ensures
        r.wf(),
{
    let (y, mo, d, h, mi, s) = local_now_parts();
    timestamp_from_parts(y, mo, d, h, mi, s)
}

} // verus!
