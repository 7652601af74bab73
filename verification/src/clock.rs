//! Time: monotonic instants from the standard library, and the wall-clock
//! time in UTC from `chrono`.

use vstd::prelude::*;

verus! {

/// `std::time::Instant`, a point of monotonic time. Verus sees nothing
/// inside it; the library only carries it to measure elapsed time.
#[verifier::external_type_specification]
#[verifier::external_body]
pub struct ExInstant(std::time::Instant);

/// Calls `std::time::Instant::now`. Nothing is stated of the result: it is
/// the moment of the call.
#[verifier::external_body]
pub(crate) fn now() -> std::time::Instant {
    std::time::Instant::now()
}

/// Calls `std::time::Instant::elapsed` and returns the time elapsed since
/// `start` in nanoseconds, truncated to 64 bits. Nothing is stated of the
/// value: it depends on when the call is made.
#[verifier::external_body]
pub(crate) fn elapsed_nanos(start: &std::time::Instant) -> u64 {
    start.elapsed().as_nanos() as u64
}

/// The text that `std::time::Duration`'s `Debug` impl gives for a duration
/// of `nanos` nanoseconds, such as `1.5s` or `250ms`.
pub uninterp spec fn duration_debug_text(nanos: u64) -> Seq<char>;

/// Formats `std::time::Duration::from_nanos(nanos)` with its `Debug` impl.
#[verifier::external_body]
pub(crate) fn duration_debug(nanos: u64) -> (s: String)
    ensures
        s@ == duration_debug_text(nanos),
{
    format!("{:?}", std::time::Duration::from_nanos(nanos))
}

/// `std::time::SystemTime`, a reading of the system clock.
#[verifier::external_type_specification]
#[verifier::external_body]
pub struct ExSystemTime(std::time::SystemTime);

/// Calls `std::time::SystemTime::now`. Nothing is stated of the result: it
/// is the clock's reading at the moment of the call.
#[verifier::external_body]
pub(crate) fn system_now() -> std::time::SystemTime {
    std::time::SystemTime::now()
}

/// Calls `std::time::SystemTime::duration_since` with the Unix epoch and
/// returns the duration as whole seconds and the nanoseconds past them, or
/// `None` when `t` lies before the epoch. Only that the nanoseconds stay
/// below a second is stated.
#[verifier::external_body]
pub(crate) fn since_unix_epoch(t: &std::time::SystemTime) -> (r: Option<(u64, u32)>)
    ensures
        r matches Some((_, nanos)) ==> nanos < 1_000_000_000,
{
    match t.duration_since(std::time::UNIX_EPOCH) {
        Ok(d) => Some((d.as_secs(), d.subsec_nanos())),
        Err(_) => None,
    }
}

/// The RFC 3339 text that `chrono` gives for the instant `secs` seconds and
/// `nanos` nanoseconds after the Unix epoch, in UTC.
pub uninterp spec fn rfc3339_text(secs: i64, nanos: u32) -> Seq<char>;

/// Builds the instant with `chrono::DateTime::from_timestamp` and renders it
/// with `chrono::DateTime::to_rfc3339`, as in
/// `2024-05-01T12:00:00.123456789+00:00`. `from_timestamp` gives `None` for
/// an instant outside chrono's range of dates; which instants those are is
/// not stated.
#[verifier::external_body]
pub(crate) fn rfc3339_at(secs: i64, nanos: u32) -> (r: Option<String>)
    ensures
        r matches Some(s) ==> s@ == rfc3339_text(secs, nanos),
{
    match chrono::DateTime::from_timestamp(secs, nanos) {
        Some(t) => Some(t.to_rfc3339()),
        None => None,
    }
}

/// The Unix epoch in RFC 3339 form.
pub open spec fn epoch_rfc3339() -> Seq<char> {
    "1970-01-01T00:00:00+00:00"@
}

/// The current time in UTC in RFC 3339 form: the system clock's reading,
/// or the epoch when the clock reads before it or past the dates that
/// `chrono` represents.
pub fn utc_now_rfc3339() -> (s: String)
    ensures
        (exists|secs: i64, nanos: u32| s@ == rfc3339_text(secs, nanos)) || s@ == epoch_rfc3339(),
{
    let (secs, nanos) = match since_unix_epoch(&system_now()) {
        Some(reading) => reading,
        None => (0, 0),
    };
    if secs <= i64::MAX as u64 {
        match rfc3339_at(secs as i64, nanos) {
            Some(s) => {
                return s;
            },
            None => {},
        }
    }
    "1970-01-01T00:00:00+00:00".to_owned()
}

} // verus!
