//! The current time: the system clock, read as chrono reads it.

use vstd::prelude::*;

verus! {

#[verifier::external_type_specification]
#[verifier::external_body]
pub struct ExSystemTime(std::time::SystemTime);

/// std's `SystemTime::now`: the system clock's current time. It depends on
/// the clock alone, so nothing is stated of it.
#[verifier::external_body]
fn system_now() -> std::time::SystemTime {
    std::time::SystemTime::now()
}

/// std's `SystemTime::duration_since(UNIX_EPOCH)`: the whole seconds and the
/// nanoseconds of the rest since the Unix epoch, or `None` for a time before
/// it. Stated: the nanoseconds are below one second.
#[verifier::external_body]
fn since_epoch(t: &std::time::SystemTime) -> (r: Option<(u64, u32)>)
    ensures
        r matches Some((_, n)) ==> n < 1_000_000_000,
{
    match t.duration_since(std::time::UNIX_EPOCH) {
        Ok(d) => Some((d.as_secs(), d.subsec_nanos())),
        Err(_) => None,
    }
}

/// chrono's `DateTime::<Utc>::from_timestamp(secs, nanos)` and its
/// `timestamp()`: the instant `secs` seconds after the epoch and its seconds,
/// or `None` where chrono cannot represent it. Stated: the seconds read back
/// are `secs`, and an instant after the epoch and well within chrono's range
/// of dates (up to the year 262142), with nanoseconds below one second, is
/// represented.
#[verifier::external_body]
fn utc_timestamp(secs: i64, nanos: u32) -> (r: Option<i64>)
    ensures
        r matches Some(v) ==> v == secs,
        0 <= secs < 8_000_000_000_000 && nanos < 1_000_000_000 ==> r == Some(secs),
{
    match chrono::DateTime::from_timestamp(secs, nanos) {
        Some(d) => Some(d.timestamp()),
        None => None,
    }
}

/// The seconds since the Unix epoch, made a chrono instant and read back, from
/// what the system clock gave (`None`: a clock before the epoch): `None` where
/// the clock was before the epoch or the seconds do not fit an `i64`, the
/// seconds themselves where chrono represents them (which it does for any time
/// up to the year 262142), never anything else.
pub fn timestamp_since_epoch(since: Option<(u64, u32)>) -> (r: Option<i64>)
    ensures
        since is None ==> r is None,
        since matches Some((s, _)) ==> (s > i64::MAX ==> r is None),
        since matches Some((s, n)) ==> (s < 8_000_000_000_000 && n < 1_000_000_000 ==> r == Some(s as i64)),
        r matches Some(v) ==> (since matches Some((s, _)) && v == s),
{
    match since {
        None => None,
        Some((secs, nanos)) => {
            if secs > i64::MAX as u64 {
                None
            } else {
                utc_timestamp(secs as i64, nanos)
            }
        },
    }
}

/// The current time in seconds since the Unix epoch, as chrono's
/// `Utc::now().timestamp()` computes it (the system clock's time since the
/// epoch, made a chrono instant), or `None` where that computation would
/// panic: a clock before the epoch, or a time chrono cannot represent.  What
/// is done with the clock's reading is `timestamp_since_epoch`.
pub fn now_timestamp() -> (r: Option<i64>)
    ensures
        r matches Some(v) ==> v >= 0,
{
    timestamp_since_epoch(since_epoch(&system_now()))
}

} // verus!
