use vstd::prelude::*;

verus! {

/// First instant the wire protocol can carry: 0001-01-01T00:00:00.000Z.
pub const MIN_TS: i64 = -62135596800000;

/// Last instant the wire protocol can carry: 9999-12-31T23:59:59.999Z.
pub const MAX_TS: i64 = 253402300799999;

/// An instant, in milliseconds since the Unix epoch, that the protocol can
/// render with a four-digit year.
pub open spec fn ts_in_range(ms: i64) -> bool {
    MIN_TS <= ms <= MAX_TS
}

/// The RFC 3339 rendering of an instant: millisecond precision, `Z` offset.
pub uninterp spec fn rfc3339_of(ms: i64) -> Seq<char>;

/// Relies on chrono's `DateTime::<Utc>::from_timestamp_millis`, which yields a
/// date-time for every instant in the stated range, and on
/// `DateTime::to_rfc3339_opts`, whose rendering depends on the millisecond
/// value alone.
#[verifier::external_body]
pub(crate) fn format_rfc3339(ms: i64) -> (r: String)
    requires
        ts_in_range(ms),
    ensures
        r@ == rfc3339_of(ms),
{
    chrono::DateTime::<chrono::Utc>::from_timestamp_millis(ms)
        .unwrap()
        .to_rfc3339_opts(chrono::SecondsFormat::Millis, true)
}

/// Renders an instant, or nothing when it lies outside the range the
/// protocol can carry.
pub fn format_instant(ms: i64) -> (r: Option<String>)
    ensures
        ts_in_range(ms) ==> (r matches Some(s) && s@ == rfc3339_of(ms)),
        !ts_in_range(ms) ==> r is None,
{
    if MIN_TS <= ms && ms <= MAX_TS {
        Some(format_rfc3339(ms))
    } else {
        None
    }
}

} // verus!
