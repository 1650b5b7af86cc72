//! Points in time as text.
use crate::text::opt_text;
use vstd::prelude::*;

verus! {

/// What chrono's `to_rfc3339_opts` yields for a point in time in UTC, with a `Z`
/// and with microseconds, or with nanoseconds where `nanoseconds` says so;
/// nothing where chrono cannot represent the point.
pub uninterp spec fn rfc3339_text(secs: i64, nanos: u32, nanoseconds: bool) -> Option<Seq<char>>;

/// Calls `DateTime::<Utc>::from_timestamp` and `to_rfc3339_opts` of chrono, with
/// `SecondsFormat::Micros` or `SecondsFormat::Nanos`. The text is a function of
/// the arguments alone and is named, not restated.
#[verifier::external_body]
pub(crate) fn format_rfc3339(secs: i64, nanos: u32, nanoseconds: bool) -> (r: Option<String>)
    ensures
        opt_text(r) == rfc3339_text(secs, nanos, nanoseconds),
{
    let format = match nanoseconds {
        true => chrono::SecondsFormat::Nanos,
        false => chrono::SecondsFormat::Micros,
    };
    chrono::DateTime::<chrono::Utc>::from_timestamp(secs, nanos).map(
        |t| t.to_rfc3339_opts(format, true),
    )
}

/// What chrono's `to_rfc3339` yields for a point in time in UTC: with the offset
/// in digits, and with as many digits of a second as are needed; nothing where
/// chrono cannot represent the point.
pub uninterp spec fn rfc3339_offset_text(secs: i64, nanos: u32) -> Option<Seq<char>>;

/// Calls `DateTime::<Utc>::from_timestamp` and `to_rfc3339` of chrono. The text
/// is a function of the arguments alone and is named, not restated.
#[verifier::external_body]
pub(crate) fn format_rfc3339_offset(secs: i64, nanos: u32) -> (r: Option<String>)
    ensures
        opt_text(r) == rfc3339_offset_text(secs, nanos),
{
    chrono::DateTime::<chrono::Utc>::from_timestamp(secs, nanos).map(|t| t.to_rfc3339())
}

} // verus!
