//! Clock reading and local-time rendering. The clock itself and the
//! Europe/Rome calendar arithmetic are outside calls; everything
//! computed from their results is verified.
use vstd::prelude::*;

use chrono::TimeZone;

verus! {

#[verifier::external_type_specification]
#[verifier::external_body]
pub struct ExSystemTime(std::time::SystemTime);

/// Relies on std's `SystemTime::now`: the wall clock reading itself,
/// of which nothing can be promised.
pub assume_specification[ std::time::SystemTime::now ]() -> std::time::SystemTime;

/// Relies on std's `SystemTime::duration_since` against the Unix epoch:
/// whole seconds and the nanoseconds within the second; a clock before
/// the epoch reads as zero. The nanoseconds of a duration are below one
/// billion.
#[verifier::external_body]
fn duration_since_epoch(t: std::time::SystemTime) -> (r: (u64, u32))
    ensures
        r.1 < 1000000000,
{
    match t.duration_since(std::time::UNIX_EPOCH) {
        Ok(d) => (d.as_secs(), d.subsec_nanos()),
        Err(_) => (0, 0),
    }
}

/// The milliseconds a clock reading of whole seconds plus nanoseconds
/// amounts to, stopping at the largest representable value.
pub open spec fn millis_of(secs: u64, nanos: u32) -> u64 {
    if secs > (u64::MAX as int - 999) / 1000 {
        u64::MAX
    } else {
        (secs * 1000 + nanos as int / 1000000) as u64
    }
}

/// Milliseconds since the Unix epoch, by the machine's clock.
pub fn current_time_millis() -> (r: u64)
    ensures
        exists|secs: u64, nanos: u32| nanos < 1000000000 && r == millis_of(secs, nanos),
{
    let t = std::time::SystemTime::now();
    let (secs, nanos) = duration_since_epoch(t);
    let r = if secs > (u64::MAX - 999) / 1000 {
        u64::MAX
    } else {
        secs * 1000 + (nanos / 1000000) as u64
    };
    proof {
        assert(r == millis_of(secs, nanos));
    }
    r
}

/// The "%d-%m-%Y %H:%M" rendering, in the Europe/Rome time zone, of a
/// count of seconds since the Unix epoch — or nothing, when the count
/// lies outside the representable calendar. A function of the seconds
/// value alone.
pub uninterp spec fn rome_stamp(secs: i64) -> Option<Seq<char>>;

/// Relies on chrono's `DateTime::from_timestamp` and chrono-tz's
/// Europe/Rome table: the rendered local time depends on the seconds
/// value alone, both being fixed calendar arithmetic.
#[verifier::external_body]
pub fn rome_datetime_text(secs: i64) -> (r: Option<String>)
    ensures
        match r {
            Some(t) => rome_stamp(secs) == Some(t@),
            None => rome_stamp(secs) is None,
        },
{
    let utc = chrono::DateTime::from_timestamp(secs, 0)?;
    let local = chrono_tz::Europe::Rome.from_utc_datetime(&utc.naive_utc());
    Some(local.format("%d-%m-%Y %H:%M").to_string())
}

/// Seconds from milliseconds, rounding toward zero as the platform's
/// integer division does.
pub open spec fn millis_to_secs(ms: int) -> int {
    if ms >= 0 {
        ms / 1000
    } else {
        -((-ms) / 1000)
    }
}

/// Whole seconds of a count of epoch milliseconds.
pub fn epoch_millis_to_secs(ms: i64) -> (r: i64)
    ensures
        r == millis_to_secs(ms as int),
{
    if ms >= 0 {
        let q = (ms as u64) / 1000;
        q as i64
    } else if ms == i64::MIN {
        -9223372036854775
    } else {
        let q = ((-ms) as u64) / 1000;
        -(q as i64)
    }
}

} // verus!
