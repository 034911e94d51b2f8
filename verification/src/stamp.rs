//! Time stamps. A clock set before 1970, or beyond the calendar, reads as
//! the first moment of 1970.

use vstd::prelude::*;

use crate::outside::clock;

verus! {

/// The moment that a reading of the clock stands for, as seconds and
/// nanoseconds since 1970.
pub open spec fn moment(reading: Option<(u64, u32)>) -> (u64, u32) {
    match reading {
        Some(m) => m,
        None => (0, 0),
    }
}

fn moment_of(reading: Option<(u64, u32)>) -> (r: (u64, u32))
    ensures
        r == moment(reading),
{
    match reading {
        Some(m) => m,
        None => (0, 0),
    }
}

/// The whole seconds since 1970 that a reading of the clock stands for.
pub fn epoch_secs(reading: Option<(u64, u32)>) -> (r: u64)
    ensures
        r == moment(reading).0,
{
    moment_of(reading).0
}

/// A reading of the clock in RFC 3339 form.
pub open spec fn rfc3339(reading: Option<(u64, u32)>) -> Seq<char> {
    match clock::rfc3339_text(moment(reading).0, moment(reading).1) {
        Some(s) => s,
        None => "1970-01-01T00:00:00+00:00"@,
    }
}

/// A reading of the clock in RFC 3339 form.
pub fn rfc3339_at(reading: Option<(u64, u32)>) -> (r: String)
    ensures
        r@ == rfc3339(reading),
{
    let (secs, nanos) = moment_of(reading);
    match clock::rfc3339_of(secs, nanos) {
        Some(s) => s,
        None => "1970-01-01T00:00:00+00:00".to_owned(),
    }
}

/// The current time in RFC 3339 form.
pub fn rfc3339_now() -> (r: String)
    ensures
        exists|reading: Option<(u64, u32)>| r@ == #[trigger] rfc3339(reading),
{
    rfc3339_at(clock::since_epoch())
}

/// A reading of the clock in RFC 3339 form with milliseconds.
pub open spec fn rfc3339_millis(reading: Option<(u64, u32)>) -> Seq<char> {
    match clock::rfc3339_millis_text(moment(reading).0, moment(reading).1) {
        Some(s) => s,
        None => "1970-01-01T00:00:00.000Z"@,
    }
}

/// A reading of the clock in RFC 3339 form with milliseconds.
pub fn rfc3339_millis_at(reading: Option<(u64, u32)>) -> (r: String)
    ensures
        r@ == rfc3339_millis(reading),
{
    let (secs, nanos) = moment_of(reading);
    match clock::rfc3339_millis_of(secs, nanos) {
        Some(s) => s,
        None => "1970-01-01T00:00:00.000Z".to_owned(),
    }
}

/// The current time in RFC 3339 form with milliseconds.
pub fn rfc3339_millis_now() -> (r: String)
    ensures
        exists|reading: Option<(u64, u32)>| r@ == #[trigger] rfc3339_millis(reading),
{
    rfc3339_millis_at(clock::since_epoch())
}

/// A reading of the clock as a compact stamp.
pub open spec fn compact(reading: Option<(u64, u32)>) -> Seq<char> {
    match clock::formatted_text(moment(reading).0, moment(reading).1, "%Y%m%dT%H%M%SZ"@) {
        Some(s) => s,
        None => "19700101T000000Z"@,
    }
}

/// A reading of the clock as a compact stamp.
pub fn compact_at(reading: Option<(u64, u32)>) -> (r: String)
    ensures
        r@ == compact(reading),
{
    let (secs, nanos) = moment_of(reading);
    match clock::formatted_of(secs, nanos, "%Y%m%dT%H%M%SZ") {
        Some(s) => s,
        None => "19700101T000000Z".to_owned(),
    }
}

/// The current time as a compact stamp.
pub fn compact_now() -> (r: String)
    ensures
        exists|reading: Option<(u64, u32)>| r@ == #[trigger] compact(reading),
{
    compact_at(clock::since_epoch())
}

/// A clock that cannot be read stands at the beginning of 1970; a reading
/// stands for itself, with all its forms made from that one moment.
pub proof fn law_reading_stands_for_itself(secs: u64, nanos: u32, whole: u64)
    requires
        call_ensures(epoch_secs, (Some((secs, nanos)),), whole),
    ensures
        moment(Some((secs, nanos))) == (secs, nanos),
        moment(None) == (0u64, 0u32),
        whole == secs,
        rfc3339(None) == rfc3339(Some((0, 0))),
        rfc3339_millis(None) == rfc3339_millis(Some((0, 0))),
        compact(None) == compact(Some((0, 0))),
        clock::rfc3339_text(secs, nanos) matches Some(s) ==> rfc3339(Some((secs, nanos))) == s,
        clock::rfc3339_millis_text(secs, nanos) matches Some(s) ==> rfc3339_millis(
            Some((secs, nanos)),
        ) == s,
        clock::formatted_text(secs, nanos, "%Y%m%dT%H%M%SZ"@) matches Some(s) ==> compact(
            Some((secs, nanos)),
        ) == s,
        clock::rfc3339_text(secs, nanos) is None ==> rfc3339(Some((secs, nanos)))
            == "1970-01-01T00:00:00+00:00"@,
        clock::rfc3339_millis_text(secs, nanos) is None ==> rfc3339_millis(Some((secs, nanos)))
            == "1970-01-01T00:00:00.000Z"@,
        clock::formatted_text(secs, nanos, "%Y%m%dT%H%M%SZ"@) is None ==> compact(
            Some((secs, nanos)),
        ) == "19700101T000000Z"@,
{
}

} // verus!
