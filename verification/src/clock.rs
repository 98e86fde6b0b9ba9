//! Wall-clock readings and identifier generation.
//!
//! Timestamps are carried through the crate as signed milliseconds since the
//! Unix epoch. Every reading is clamped into `TS_BOUND` so that later calendar
//! conversions are always in range and differences never overflow.

use vstd::prelude::*;

verus! {

/// Every timestamp the crate stores lies within this bound (about 253,000
/// years from the epoch), comfortably inside the range that calendar
/// conversions accept.
pub const TS_BOUND: i64 = 8_000_000_000_000_000;

/// Relies on `std::time::SystemTime::now`: the signed milliseconds between
/// the system clock and the Unix epoch, saturated into `i64`. Nothing is
/// promised of a clock reading; the caller clamps it.
#[verifier::external_body]
fn now_millis_raw() -> (r: i64)
{
    match std::time::SystemTime::now().duration_since(std::time::UNIX_EPOCH) {
        Ok(since) => i64::try_from(since.as_millis()).unwrap_or(i64::MAX),
        Err(e) => i64::try_from(e.duration().as_millis()).map(i64::saturating_neg).unwrap_or(
            i64::MIN,
        ),
    }
}

/// True of a timestamp that the rest of the crate accepts.
pub open spec fn ts_in_bound(t: i64) -> bool {
    -TS_BOUND <= t <= TS_BOUND
}

/// A stored timestamp forced into bound; malformed values degrade to the
/// epoch.
pub open spec fn clamped_ts(t: i64) -> i64 {
    if ts_in_bound(t) {
        t
    } else {
        0
    }
}

/// Read the wall clock, clamped into `TS_BOUND`.
pub fn now_millis() -> (r: i64)
    ensures
        ts_in_bound(r),
{
    let raw = now_millis_raw();
    if raw < -TS_BOUND {
        -TS_BOUND
    } else if raw > TS_BOUND {
        TS_BOUND
    } else {
        raw
    }
}

/// Relies on `uuid::Uuid::new_v4` and `Uuid::as_u128`: a freshly generated
/// random identifier. Nothing can be promised of a random value.
#[verifier::external_body]
pub fn fresh_id() -> (r: u128)
{
    uuid::Uuid::new_v4().as_u128()
}

/// What chrono renders a bounded timestamp to under a given format string.
pub uninterp spec fn fmt_millis(t: int, f: Seq<char>) -> Seq<char>;

/// Relies on chrono's `DateTime::from_timestamp_millis` and `format`: the
/// rendered text is a function of the timestamp and the format string alone.
/// Only the two date formats this crate renders are admitted; both are valid
/// format strings, so formatting cannot fail.
#[verifier::external_body]
pub fn format_timestamp(t: i64, f: &str) -> (r: String)
    requires
        ts_in_bound(t),
        f@ == "%Y-%m-%d %H:%M:%S"@ || f@ == "%H:%M:%S"@,
    ensures
        r@ == fmt_millis(t as int, f@),
{
    chrono::DateTime::<chrono::Utc>::from_timestamp_millis(t)
        .map(|dt| dt.format(f).to_string())
        .unwrap_or_default()
}

} // verus!
