//! The wall clock, and the texts of its readings: `std::time::SystemTime`
//! and `chrono::DateTime`.

use vstd::prelude::*;

use crate::text;

verus! {

/// `std::time::SystemTime::now` since 1970, as whole seconds and
/// nanoseconds; none when the clock is set before 1970.
#[verifier::external_body]
pub(crate) fn since_epoch() -> (r: Option<(u64, u32)>)
    ensures
        r matches Some((_, nanos)) ==> nanos < 1_000_000_000,
{
    std::time::SystemTime::now()
        .duration_since(std::time::UNIX_EPOCH)
        .ok()
        .map(|d| (d.as_secs(), d.subsec_nanos()))
}

/// A time in RFC 3339 form, in UTC; none when it is out of range.
pub uninterp spec fn rfc3339_text(secs: u64, nanos: u32) -> Option<Seq<char>>;

/// `chrono::DateTime::from_timestamp` and `to_rfc3339`: the text of a time
/// given as seconds and nanoseconds since 1970, or nothing when no calendar
/// date can be given to it. It depends on the two numbers alone.
#[verifier::external_body]
pub(crate) fn rfc3339_of(secs: u64, nanos: u32) -> (r: Option<String>)
    ensures
        text::text_opt(r) == rfc3339_text(secs, nanos),
{
    let time = i64::try_from(secs).ok().and_then(|s| chrono::DateTime::from_timestamp(s, nanos));
    time.map(|t| t.to_rfc3339())
}

/// A time in RFC 3339 form with milliseconds, in UTC; none when it is out of
/// range.
pub uninterp spec fn rfc3339_millis_text(secs: u64, nanos: u32) -> Option<Seq<char>>;

/// `chrono::DateTime::from_timestamp` and `to_rfc3339_opts` with
/// milliseconds and a `Z`: the text of a time given as seconds and
/// nanoseconds since 1970, or nothing when no calendar date can be given to
/// it. It depends on the two numbers alone.
#[verifier::external_body]
pub(crate) fn rfc3339_millis_of(secs: u64, nanos: u32) -> (r: Option<String>)
    ensures
        text::text_opt(r) == rfc3339_millis_text(secs, nanos),
{
    let time = i64::try_from(secs).ok().and_then(|s| chrono::DateTime::from_timestamp(s, nanos));
    time.map(|t| t.to_rfc3339_opts(chrono::SecondsFormat::Millis, true))
}

/// A time in a form given by `strftime` items, in UTC; none when it is out of
/// range or the form is not understood.
pub uninterp spec fn formatted_text(secs: u64, nanos: u32, form: Seq<char>) -> Option<Seq<char>>;

/// `chrono::DateTime::from_timestamp` and `format`: the text, in the given
/// form, of a time given as seconds and nanoseconds since 1970, or nothing
/// when no calendar date can be given to it or the form is not understood. It
/// depends on the two numbers and the form alone.
#[verifier::external_body]
pub(crate) fn formatted_of(secs: u64, nanos: u32, form: &str) -> (r: Option<String>)
    ensures
        text::text_opt(r) == formatted_text(secs, nanos, form@),
{
    let mut out = String::new();
    let time = i64::try_from(secs).ok().and_then(|s| chrono::DateTime::from_timestamp(s, nanos));
    time.and_then(|t| t.format(form).write_to(&mut out).ok()).map(|()| out)
}

} // verus!
