//! The system clock, and UTC times written out by `chrono`.

use std::fmt::Write;
use vstd::prelude::*;

verus! {

#[verifier::external_type_specification]
#[verifier::external_body]
pub struct ExSystemTime(std::time::SystemTime);

/// `std::time::SystemTime::now`: the current time. Nothing is stated of it.
#[verifier::external_body]
fn system_now() -> (r: std::time::SystemTime) {
    std::time::SystemTime::now()
}

/// `SystemTime::duration_since(UNIX_EPOCH)`: the time since the Unix epoch,
/// or `None` when the time lies before it. Nothing is stated of the value.
#[verifier::external_body]
fn since_epoch(t: &std::time::SystemTime) -> (r: Option<std::time::Duration>) {
    t.duration_since(std::time::UNIX_EPOCH).ok()
}

/// `UNIX_EPOCH.duration_since(t)`: how long before the Unix epoch the time
/// lies, or `None` when it does not lie before it. Nothing is stated of the
/// value.
#[verifier::external_body]
fn until_epoch(t: &std::time::SystemTime) -> (r: Option<std::time::Duration>) {
    std::time::UNIX_EPOCH.duration_since(*t).ok()
}

/// `Duration::as_secs`: the whole seconds of a duration.
#[verifier::external_body]
fn whole_seconds(d: &std::time::Duration) -> (r: u64) {
    d.as_secs()
}

/// `Duration::subsec_nanos`: the nanoseconds beyond the whole seconds.
#[verifier::external_body]
fn sub_second_nanos(d: &std::time::Duration) -> (r: u32) {
    d.subsec_nanos()
}

/// The seconds of a time that lies `secs` seconds and `nanos` nanoseconds
/// before the Unix epoch, rounded down (towards the past).
pub open spec fn seconds_before_epoch(secs: u64, nanos: u32) -> int {
    -(secs as int) - if nanos > 0 { 1int } else { 0int }
}

/// The seconds since the Unix epoch, rounded down, of a clock reading that
/// lies `secs` seconds and `nanos` nanoseconds after the epoch (or before
/// it, when `before_epoch`); `None` when that does not fit in an `i64`.
pub open spec fn timestamp_from_spec(before_epoch: bool, secs: u64, nanos: u32) -> Option<i64> {
    if !before_epoch {
        if secs <= i64::MAX {
            Some(secs as i64)
        } else {
            None
        }
    } else if secs < i64::MAX {
        Some(seconds_before_epoch(secs, nanos) as i64)
    } else {
        None
    }
}

/// The seconds since the Unix epoch of a clock reading, rounded down.
pub fn timestamp_from(before_epoch: bool, secs: u64, nanos: u32) -> (r: Option<i64>)
    ensures
        r == timestamp_from_spec(before_epoch, secs, nanos),
{
    if !before_epoch {
        if secs <= 0x7fff_ffff_ffff_ffffu64 {
            Some(secs as i64)
        } else {
            None
        }
    } else if secs < 0x7fff_ffff_ffff_ffffu64 {
        let v = 0i64 - (secs as i64) - if nanos > 0 { 1i64 } else { 0i64 };
        assert(v == seconds_before_epoch(secs, nanos));
        Some(v)
    } else {
        None
    }
}

/// The current time in whole seconds since the Unix epoch, rounded down
/// (negative before the epoch), or `None` when it lies beyond what an
/// `i64` holds: `timestamp_from` of the clock's reading.
pub fn unix_timestamp() -> (r: Option<i64>)
    ensures
        exists|before_epoch: bool, secs: u64, nanos: u32| r == #[trigger] timestamp_from_spec(
            before_epoch,
            secs,
            nanos,
        ),
{
    let now = system_now();
    match since_epoch(&now) {
        Some(d) => {
            let s = whole_seconds(&d);
            let n = sub_second_nanos(&d);
            timestamp_from(false, s, n)
        },
        None => match until_epoch(&now) {
            Some(d) => {
                let s = whole_seconds(&d);
                let n = sub_second_nanos(&d);
                timestamp_from(true, s, n)
            },
            None => {
                assert(timestamp_from_spec(false, u64::MAX, 0) is None);
                None
            },
        },
    }
}

/// What `chrono` writes for the UTC time `secs` seconds after the Unix
/// epoch under a strftime pattern; `None` when the seconds lie outside
/// `chrono`'s range or the pattern is not valid.
pub uninterp spec fn utc_text(secs: i64, pattern: Seq<char>) -> Option<Seq<char>>;

/// `chrono::DateTime::from_timestamp(secs, 0)` written with `format(pattern)`.
/// The text depends on the seconds and the pattern alone (UTC, no locale),
/// so the result is named.
#[verifier::external_body]
pub(crate) fn format_utc(secs: i64, pattern: &str) -> (r: Option<String>)
    ensures
        match r {
            Some(t) => utc_text(secs, pattern@) == Some(t@),
            None => utc_text(secs, pattern@) is None,
        },
{
    let t = chrono::DateTime::from_timestamp(secs, 0)?;
    let mut out = String::new();
    match write!(out, "{}", t.format(pattern)) {
        Ok(()) => Some(out),
        Err(_) => None,
    }
}

} // verus!
