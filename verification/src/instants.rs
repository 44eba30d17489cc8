//! Instants in time and the calls into `chrono` and `uuid` that parse,
//! shift and render them.
//!
//! An instant is held as the seconds since the Unix epoch and the
//! nanoseconds within that second, exactly what a `chrono::DateTime<Utc>`
//! (or a `NaiveDateTime` read as UTC) holds; a leap second shows as
//! nanoseconds of one billion or more.

use vstd::prelude::*;

verus! {

/// A point in time: seconds since the Unix epoch plus nanoseconds.
#[derive(Clone, Copy, Debug)]
pub struct Instant {
    pub secs: i64,
    pub nanos: u32,
}

/// What `NaiveDateTime::parse_from_str(text, "%Y%m%dT%H%M%S")` returns:
/// the parsed date-time read as UTC (seconds and nanoseconds), or the text
/// of the parse error.
pub uninterp spec fn naive_datetime_parse(text: Seq<char>) -> Result<(i64, u32), Seq<char>>;

/// What `NaiveDate::parse_from_str(text, "%Y%m%d")` followed by
/// `and_hms_opt(0, 0, 0)` returns: midnight of the parsed date read as UTC
/// (or `None` when `and_hms_opt` gives none), or the text of the parse error.
pub uninterp spec fn naive_date_midnight(text: Seq<char>) -> Result<Option<(i64, u32)>, Seq<char>>;

/// What `DateTime::<Utc>::from_timestamp(secs, nanos)` followed by
/// `to_rfc3339()` returns (`None` when the instant is out of chrono's range).
pub uninterp spec fn rfc3339_text(secs: i64, nanos: u32) -> Option<Seq<char>>;

/// What `DateTime::<Utc>::from_timestamp(secs, nanos)` rendered with its
/// `Display` implementation returns (`None` when out of chrono's range).
pub uninterp spec fn display_text(secs: i64, nanos: u32) -> Option<Seq<char>>;

/// What `DateTime::<Utc>::from_timestamp(secs, nanos)` followed by
/// `checked_add_signed(TimeDelta::hours(1))` returns.
pub uninterp spec fn plus_one_hour(secs: i64, nanos: u32) -> Option<(i64, u32)>;

/// What `Uuid::new_v5(&Uuid::NAMESPACE_OID, name.as_bytes())` renders as
/// with `to_string()`.
pub uninterp spec fn oid_uuid_v5_text(name: Seq<char>) -> Seq<char>;

/// The instant of a `(seconds, nanoseconds)` pair.
pub open spec fn instant_of(p: (i64, u32)) -> Instant {
    Instant { secs: p.0, nanos: p.1 }
}

/// Calls `chrono::NaiveDateTime::parse_from_str` with the iCalendar
/// date-time format. The result is the named parse of the text; the error
/// is the parse error's message.
#[verifier::external_body]
pub(crate) fn parse_naive_datetime(text: &str) -> (r: Result<Instant, String>)
    ensures
        match r {
            Ok(t) => naive_datetime_parse(text@) == Ok::<(i64, u32), Seq<char>>((t.secs, t.nanos)),
            Err(e) => naive_datetime_parse(text@) == Err::<(i64, u32), Seq<char>>(e@),
        },
{
    match chrono::NaiveDateTime::parse_from_str(text, "%Y%m%dT%H%M%S") {
        Ok(date) => Ok(Instant {
            secs: date.and_utc().timestamp(),
            nanos: date.and_utc().timestamp_subsec_nanos(),
        }),
        Err(error) => Err(error.to_string()),
    }
}

/// Calls `chrono::NaiveDate::parse_from_str` with the iCalendar date
/// format and then `and_hms_opt(0, 0, 0)`. The result is the named value.
#[verifier::external_body]
pub(crate) fn parse_naive_date_midnight(text: &str) -> (r: Result<Option<Instant>, String>)
    ensures
        match r {
            Ok(Some(t)) => naive_date_midnight(text@) == Ok::<Option<(i64, u32)>, Seq<char>>(
                Some((t.secs, t.nanos)),
            ),
            Ok(None) => naive_date_midnight(text@) == Ok::<Option<(i64, u32)>, Seq<char>>(None),
            Err(e) => naive_date_midnight(text@) == Err::<Option<(i64, u32)>, Seq<char>>(e@),
        },
{
    match chrono::NaiveDate::parse_from_str(text, "%Y%m%d") {
        Ok(date) => match date.and_hms_opt(0, 0, 0) {
            Some(midnight) => Ok(Some(Instant {
                secs: midnight.and_utc().timestamp(),
                nanos: midnight.and_utc().timestamp_subsec_nanos(),
            })),
            None => Ok(None),
        },
        Err(error) => Err(error.to_string()),
    }
}

/// Calls `chrono::Local.from_local_datetime` on a wall-clock time (given as
/// if it were UTC) and keeps the single mapping, converted to UTC. The
/// answer depends on the machine's time zone. A mapping subtracts a
/// `FixedOffset`, which is less than a day either way, and keeps the
/// nanoseconds; that much is stated.
#[verifier::external_body]
pub(crate) fn local_to_utc(wall: Instant) -> (r: Option<Instant>)
    ensures
        r matches Some(u) ==> u.nanos == wall.nanos && wall.secs - 86400 < u.secs && u.secs
            < wall.secs + 86400,
{
    match chrono::DateTime::from_timestamp(wall.secs, wall.nanos) {
        Some(naive) => match chrono::TimeZone::from_local_datetime(&chrono::Local, &naive.naive_utc()).single() {
            Some(local) => Some(Instant {
                secs: local.timestamp(),
                nanos: local.timestamp_subsec_nanos(),
            }),
            None => None,
        },
        None => None,
    }
}

/// Calls `DateTime::<Utc>::to_rfc3339` on the instant; the result is the
/// named rendering.
#[verifier::external_body]
pub(crate) fn rfc3339(t: Instant) -> (r: Option<String>)
    ensures
        match r {
            Some(s) => rfc3339_text(t.secs, t.nanos) == Some(s@),
            None => rfc3339_text(t.secs, t.nanos) == None::<Seq<char>>,
        },
{
    match chrono::DateTime::from_timestamp(t.secs, t.nanos) {
        Some(date) => Some(date.to_rfc3339()),
        None => None,
    }
}

/// Renders the instant with `DateTime<Utc>`'s `Display`; the result is the
/// named rendering.
#[verifier::external_body]
pub(crate) fn display(t: Instant) -> (r: Option<String>)
    ensures
        match r {
            Some(s) => display_text(t.secs, t.nanos) == Some(s@),
            None => display_text(t.secs, t.nanos) == None::<Seq<char>>,
        },
{
    match chrono::DateTime::from_timestamp(t.secs, t.nanos) {
        Some(date) => Some(date.to_string()),
        None => None,
    }
}

/// Calls `DateTime::<Utc>::checked_add_signed` with one hour; the result
/// is the named value. Outside a leap second, a result is the instant
/// 3600 seconds later with the same nanoseconds.
#[verifier::external_body]
pub(crate) fn add_one_hour(t: Instant) -> (r: Option<Instant>)
    ensures
        match r {
            Some(u) => plus_one_hour(t.secs, t.nanos) == Some((u.secs, u.nanos)),
            None => plus_one_hour(t.secs, t.nanos) == None::<(i64, u32)>,
        },
        t.nanos < 1_000_000_000 ==> (r matches Some(u) ==> u.secs == t.secs + 3600 && u.nanos
            == t.nanos),
{
    match chrono::DateTime::from_timestamp(t.secs, t.nanos) {
        Some(date) => match date.checked_add_signed(chrono::TimeDelta::hours(1)) {
            Some(later) => Some(Instant {
                secs: later.timestamp(),
                nanos: later.timestamp_subsec_nanos(),
            }),
            None => None,
        },
        None => None,
    }
}

/// Calls `uuid::Uuid::new_v5` in the OID namespace on the UTF-8 bytes of
/// the name and renders the identifier with `to_string()`; the result is
/// the named value.
#[verifier::external_body]
pub(crate) fn oid_uuid_v5(name: &str) -> (r: String)
    ensures
        r@ == oid_uuid_v5_text(name@),
{
    uuid::Uuid::new_v5(&uuid::Uuid::NAMESPACE_OID, name.as_bytes()).to_string()
}

/// The instant `secs` seconds after `t` (before it, for a negative
/// count), when the seconds fit.
pub open spec fn shifted(t: Instant, secs: int) -> Option<Instant> {
    if i64::MIN <= t.secs + secs <= i64::MAX {
        Some(Instant { secs: (t.secs + secs) as i64, nanos: t.nanos })
    } else {
        None
    }
}

/// The RFC 3339 rendering of the instant `secs` seconds after `t`, when
/// it exists.
pub open spec fn rfc3339_after_text(t: Instant, secs: int) -> Option<Seq<char>> {
    match shifted(t, secs) {
        Some(u) => rfc3339_text(u.secs, u.nanos),
        None => None,
    }
}

/// Renders, in RFC 3339, the instant `secs` seconds after `t` (as adding
/// a whole number of seconds to a `DateTime<Utc>` outside a leap second
/// does).
pub fn rfc3339_after(t: Instant, secs: i64) -> (r: Option<String>)
    ensures
        match r {
            Some(s) => rfc3339_after_text(t, secs as int) == Some(s@),
            None => rfc3339_after_text(t, secs as int) is None,
        },
{
    match t.secs.checked_add(secs) {
        Some(total) => rfc3339(Instant { secs: total, nanos: t.nanos }),
        None => None,
    }
}

} // verus!
