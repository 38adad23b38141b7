//! Points in time, as nanoseconds since the Unix epoch (UTC).

use vstd::prelude::*;

verus! {

/// A point in time: non-leap nanoseconds since 1970-01-01 00:00:00 UTC.
///
/// Every `i64` value is a valid instant (1677-09-21 to 2262-04-11).
#[derive(Clone, Copy, Debug, PartialEq, Eq, Structural)]
pub struct Timestamp {
    pub nanos: i64,
}

impl Timestamp {
    pub fn from_nanos(nanos: i64) -> (r: Timestamp)
        ensures
            r.nanos == nanos,
    {
        Timestamp { nanos }
    }

    /// The instant as chrono renders a `DateTime<Utc>`
    /// (for example `2022-09-11 18:34:48 UTC`).
    pub fn to_text(&self) -> (r: String)
        ensures
            r@ == utc_text_of(self.nanos as int),
    {
        utc_text(self.nanos)
    }
}

/// The text that chrono's `Display` gives for the instant `nanos`
/// nanoseconds after the Unix epoch.
pub uninterp spec fn utc_text_of(nanos: int) -> Seq<char>;

/// Relies on chrono's `DateTime::from_timestamp_nanos`, which is total on
/// `i64`, and on `Display` for `DateTime<Utc>`, whose text depends on the
/// instant alone.
#[verifier::external_body]
fn utc_text(nanos: i64) -> (r: String)
    ensures
        r@ == utc_text_of(nanos as int),
{
    chrono::DateTime::from_timestamp_nanos(nanos).to_string()
}

/// Relies on std's `SystemTime::now` and `SystemTime::duration_since`, which
/// gives an error for a clock before the Unix epoch, and on chrono's
/// `TimeDelta::from_std`, `DateTime::checked_add_signed` and
/// `DateTime::timestamp_nanos_opt`, each of which reports a value out of
/// range instead of panicking. The result is the current time, or `None` when
/// the clock reads before 1970 or beyond the range of an `i64` count of
/// nanoseconds. Nothing is known of the value.
#[verifier::external_body]
pub(crate) fn now_utc() -> (r: Option<Timestamp>) {
    let since = std::time::SystemTime::now().duration_since(std::time::UNIX_EPOCH).ok()?;
    let delta = chrono::TimeDelta::from_std(since).ok()?;
    let now = chrono::DateTime::UNIX_EPOCH.checked_add_signed(delta)?;
    now.timestamp_nanos_opt().map(Timestamp::from_nanos)
}

} // verus!
