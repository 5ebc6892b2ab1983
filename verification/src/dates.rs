//! Instants and the parsing of the many date notations found in mail
//! headers. Parsing itself is `chrono`'s; the order in which notations are
//! tried, and what stands in when none applies, is this module's.

use vstd::prelude::*;

use crate::text::{chars_of, find_first, position_of, string_of, suffix_from, trim, trim_chars};

verus! {

/// A moment in UTC: whole seconds since 1970-01-01T00:00:00Z and the
/// nanoseconds past that second (beyond a billion only inside a leap second).
#[derive(Clone, Copy, PartialEq, Eq, Debug)]
pub struct Instant {
    pub secs: i64,
    pub nanos: u32,
}

/// An optional instant as a pair of plain numbers.
pub open spec fn pair_of(r: Option<Instant>) -> Option<(i64, u32)> {
    match r {
        Some(i) => Some((i.secs, i.nanos)),
        None => None,
    }
}

/// `DateTime::parse_from_rfc3339(s)`, taken to UTC.
pub uninterp spec fn spec_parse_rfc3339(s: Seq<char>) -> Option<(i64, u32)>;

/// `DateTime::parse_from_rfc2822(s)`, taken to UTC.
pub uninterp spec fn spec_parse_rfc2822(s: Seq<char>) -> Option<(i64, u32)>;

/// `DateTime::parse_from_str(s, fmt)` (a format that carries an offset),
/// taken to UTC.
pub uninterp spec fn spec_parse_with_offset(s: Seq<char>, fmt: Seq<char>) -> Option<(i64, u32)>;

/// `NaiveDateTime::parse_from_str(s, fmt)`, read as UTC.
pub uninterp spec fn spec_parse_naive_datetime(s: Seq<char>, fmt: Seq<char>) -> Option<(i64, u32)>;

/// `NaiveDate::parse_from_str(s, fmt)`: the second at which that day starts
/// in UTC.
pub uninterp spec fn spec_parse_naive_date(s: Seq<char>, fmt: Seq<char>) -> Option<i64>;

/// `Utc.datetime_from_str(s, fmt)`.
pub uninterp spec fn spec_parse_utc(s: Seq<char>, fmt: Seq<char>) -> Option<(i64, u32)>;

/// `DateTime::<Utc>::from_timestamp(secs, nanos)` rendered by `to_rfc3339`;
/// nothing when the pair names no instant that `chrono` can represent.
pub uninterp spec fn spec_rfc3339_text(secs: i64, nanos: u32) -> Option<Seq<char>>;

/// The instant names a moment that `chrono` can represent and print.
pub open spec fn printable(p: (i64, u32)) -> bool {
    spec_rfc3339_text(p.0, p.1) is Some
}

/// Every instant that a parse yields is printable.
pub open spec fn parsed_ok(r: Option<(i64, u32)>) -> bool {
    r matches Some(p) ==> printable(p)
}

/// `DateTime::parse_from_rfc3339`, converted to UTC. A parsed instant
/// round-trips through `DateTime::from_timestamp`, as `chrono` documents.
#[verifier::external_body]
pub(crate) fn parse_rfc3339(s: &str) -> (r: Option<Instant>)
    ensures
        pair_of(r) == spec_parse_rfc3339(s@),
        parsed_ok(pair_of(r)),
{
    chrono::DateTime::parse_from_rfc3339(s).ok().map(
        |d| Instant { secs: d.timestamp(), nanos: d.timestamp_subsec_nanos() },
    )
}

/// `DateTime::parse_from_rfc2822`, converted to UTC.
#[verifier::external_body]
pub(crate) fn parse_rfc2822(s: &str) -> (r: Option<Instant>)
    ensures
        pair_of(r) == spec_parse_rfc2822(s@),
        parsed_ok(pair_of(r)),
{
    chrono::DateTime::parse_from_rfc2822(s).ok().map(
        |d| Instant { secs: d.timestamp(), nanos: d.timestamp_subsec_nanos() },
    )
}

/// `DateTime::parse_from_str`, converted to UTC.
#[verifier::external_body]
pub(crate) fn parse_with_offset(s: &str, fmt: &str) -> (r: Option<Instant>)
    ensures
        pair_of(r) == spec_parse_with_offset(s@, fmt@),
        parsed_ok(pair_of(r)),
{
    chrono::DateTime::parse_from_str(s, fmt).ok().map(
        |d| Instant { secs: d.timestamp(), nanos: d.timestamp_subsec_nanos() },
    )
}

/// `NaiveDateTime::parse_from_str`, read as UTC.
#[verifier::external_body]
pub(crate) fn parse_naive_datetime(s: &str, fmt: &str) -> (r: Option<Instant>)
    ensures
        pair_of(r) == spec_parse_naive_datetime(s@, fmt@),
        parsed_ok(pair_of(r)),
{
    chrono::NaiveDateTime::parse_from_str(s, fmt).ok().map(|d| d.and_utc()).map(
        |d| Instant { secs: d.timestamp(), nanos: d.timestamp_subsec_nanos() },
    )
}

/// The second at which `NaiveDate::MIN` (January 1, 262143 BCE) starts.
pub const FIRST_DAY_START: i64 = -8334601228800i64;

/// The second at which `NaiveDate::MAX` (December 31, 262142 CE) starts.
pub const LAST_DAY_START: i64 = 8210266790400i64;

/// `NaiveDate::parse_from_str`: the second at which the parsed day starts.
/// Every day lies between `NaiveDate::MIN` and `NaiveDate::MAX`, as
/// `chrono` documents.
#[verifier::external_body]
pub(crate) fn parse_naive_date(s: &str, fmt: &str) -> (r: Option<i64>)
    ensures
        r == spec_parse_naive_date(s@, fmt@),
        r matches Some(t) ==> printable((t, 0)) && FIRST_DAY_START <= t <= LAST_DAY_START,
{
    chrono::NaiveDate::parse_from_str(s, fmt).ok().map(
        |d| d.and_time(chrono::NaiveTime::MIN).and_utc().timestamp(),
    )
}

/// `Utc.datetime_from_str`.
#[verifier::external_body]
#[allow(deprecated)]
pub(crate) fn parse_utc(s: &str, fmt: &str) -> (r: Option<Instant>)
    ensures
        pair_of(r) == spec_parse_utc(s@, fmt@),
        parsed_ok(pair_of(r)),
{
    <chrono::Utc as chrono::TimeZone>::datetime_from_str(&chrono::Utc, s, fmt).ok().map(
        |d| Instant { secs: d.timestamp(), nanos: d.timestamp_subsec_nanos() },
    )
}

/// `DateTime::from_timestamp` followed by `to_rfc3339`.
#[verifier::external_body]
pub(crate) fn rfc3339_text(secs: i64, nanos: u32) -> (r: Option<String>)
    ensures
        r matches Some(t) ==> spec_rfc3339_text(secs, nanos) == Some(t@),
        r is None ==> spec_rfc3339_text(secs, nanos) is None,
{
    chrono::DateTime::from_timestamp(secs, nanos).map(|d| d.to_rfc3339())
}

/// `Utc::now()`. Nothing is known of the moment but that `chrono` can
/// print it.
#[verifier::external_body]
pub(crate) fn now() -> (r: Instant)
    ensures
        printable((r.secs, r.nanos)),
{
    let d = chrono::Utc::now();
    Instant { secs: d.timestamp(), nanos: d.timestamp_subsec_nanos() }
}

/// The layout of RFC 2822 without its weekday.
pub open spec fn fmt_day_month_year_offset() -> Seq<char> {
    "%d %b %Y %H:%M:%S %z"@
}

/// The layout `DD-MM-YY`.
pub open spec fn fmt_short_date() -> Seq<char> {
    "%d-%m-%y"@
}

/// The layout of RFC 2822 without offset, once `:00:00` is appended to a
/// date cut after the hour.
pub open spec fn fmt_hour_only() -> Seq<char> {
    "%a, %d %b %Y %H:%M:%S"@
}

/// The layout of the date on an MBOX `From ` line.
pub open spec fn fmt_from_line() -> Seq<char> {
    "%a %b %d %H:%M:%S %z %Y"@
}

/// RFC 2822 with the weekday and its comma cut off.
pub open spec fn after_comma_date(s: Seq<char>) -> Option<(i64, u32)> {
    match find_first(s, ',') {
        Some(k) => spec_parse_with_offset(trim(s.skip(k + 1 as int)), fmt_day_month_year_offset()),
        None => None,
    }
}

/// A `DD-MM-YY` day, at midnight.
pub open spec fn short_date(s: Seq<char>) -> Option<(i64, u32)> {
    match spec_parse_naive_date(s, fmt_short_date()) {
        Some(t) => Some((t, 0)),
        None => None,
    }
}

/// The date that a mail's header notation denotes: RFC 3339, then RFC 2822,
/// then RFC 2822 without its weekday, then `DD-MM-YY` (midnight), then a
/// date cut after the hour, then the notation of an MBOX `From ` line.
pub open spec fn mail_date(s: Seq<char>) -> Option<(i64, u32)> {
    if s.len() == 0 {
        None
    } else if spec_parse_rfc3339(s) is Some {
        spec_parse_rfc3339(s)
    } else if spec_parse_rfc2822(s) is Some {
        spec_parse_rfc2822(s)
    } else if after_comma_date(s) is Some {
        after_comma_date(s)
    } else if short_date(s) is Some {
        short_date(s)
    } else if spec_parse_naive_datetime(s + ":00:00"@, fmt_hour_only()) is Some {
        spec_parse_naive_datetime(s + ":00:00"@, fmt_hour_only())
    } else {
        spec_parse_with_offset(s, fmt_from_line())
    }
}

/// Tries, in order, the notations that `mail_date` lists.
pub fn try_parse_date(date_str: &str) -> (r: Option<Instant>)
    ensures
        pair_of(r) == mail_date(date_str@),
        parsed_ok(pair_of(r)),
{
    if date_str.is_empty() {
        return None;
    }
    let a = parse_rfc3339(date_str);
    if a.is_some() {
        return a;
    }
    let b = parse_rfc2822(date_str);
    if b.is_some() {
        return b;
    }
    let cs = chars_of(date_str);
    match position_of(cs.as_slice(), ',') {
        Some(k) => {
            proof { crate::text::lemma_find_first_bound(cs@, ','); }
            assert(k < cs.len());
            let rest = suffix_from(cs.as_slice(), k + 1);
            let t = trim_chars(rest.as_slice());
            let ts = string_of(t.as_slice());
            let c = parse_with_offset(ts.as_str(), "%d %b %Y %H:%M:%S %z");
            if c.is_some() {
                return c;
            }
        },
        None => {},
    }
    match parse_naive_date(date_str, "%d-%m-%y") {
        Some(t) => {
            return Some(Instant { secs: t, nanos: 0 });
        },
        None => {},
    }
    let mut longer = cs.clone();
    let suffix = chars_of(":00:00");
    let mut j: usize = 0;
    while j < suffix.len()
        invariant
            j <= suffix.len(),
            longer@ == cs@ + suffix@.take(j as int),
        decreases suffix.len() - j,
    {
        longer.push(suffix[j]);
        assert(suffix@.take(j + 1) == suffix@.take(j as int).push(suffix@[j as int]));
        j = j + 1;
    }
    assert(suffix@.take(suffix.len() as int) == suffix@);
    let ls = string_of(longer.as_slice());
    let d = parse_naive_datetime(ls.as_str(), "%a, %d %b %Y %H:%M:%S");
    if d.is_some() {
        return d;
    }
    parse_with_offset(date_str, "%a %b %d %H:%M:%S %z %Y")
}

/// The date a mail's notation denotes, or `fallback` when it denotes none.
pub fn parse_date_or(date_str: &str, fallback: Instant) -> (r: Instant)
    ensures
        mail_date(date_str@) matches Some(p) ==> (r.secs, r.nanos) == p,
        mail_date(date_str@) is None ==> r == fallback,
        printable((fallback.secs, fallback.nanos)) ==> printable((r.secs, r.nanos)),
{
    match try_parse_date(date_str) {
        Some(d) => d,
        None => fallback,
    }
}

/// The date a mail's notation denotes, or the present moment.
pub fn parse_date(date_str: &str) -> (r: Instant)
    ensures
        mail_date(date_str@) matches Some(p) ==> (r.secs, r.nanos) == p,
        printable((r.secs, r.nanos)),
{
    let clock = now();
    parse_date_or(date_str, clock)
}

} // verus!
