use vstd::prelude::*;

verus! {

/// Relies on `SystemTime::now` / `duration_since` for the clock read and on
/// chrono's `DateTime::from_timestamp` and `DateTime::to_rfc3339` for the
/// formatting: the current time as an RFC 3339 string. Every failure path —
/// a clock before the Unix epoch, or one past chrono's representable range —
/// returns `None`; nothing here panics. The result depends on the system
/// clock, so nothing is stated of it.
#[verifier::external_body]
pub(crate) fn now_rfc3339() -> Option<String> {
    let elapsed = std::time::SystemTime::now()
        .duration_since(std::time::UNIX_EPOCH)
        .ok()?;
    let secs = i64::try_from(elapsed.as_secs()).ok()?;
    let now = chrono::DateTime::<chrono::Utc>::from_timestamp(secs, elapsed.subsec_nanos())?;
    Some(now.to_rfc3339())
}

/// Relies on `SystemTime::now` / `duration_since` for the clock read and on
/// chrono's `DateTime::from_timestamp`, `TimeDelta::try_seconds`,
/// `DateTime::checked_add_signed` and `DateTime::to_rfc3339`: the current
/// time shifted by `seconds`, as an RFC 3339 string. `None` when the clock
/// cannot be read or the shift or the shifted time is outside chrono's
/// representable range; nothing here panics.
#[verifier::external_body]
pub(crate) fn now_with_offset_rfc3339(seconds: i64) -> Option<String> {
    let elapsed = std::time::SystemTime::now()
        .duration_since(std::time::UNIX_EPOCH)
        .ok()?;
    let secs = i64::try_from(elapsed.as_secs()).ok()?;
    let now = chrono::DateTime::<chrono::Utc>::from_timestamp(secs, elapsed.subsec_nanos())?;
    let delta = chrono::TimeDelta::try_seconds(seconds)?;
    Some(now.checked_add_signed(delta)?.to_rfc3339())
}

} // verus!
