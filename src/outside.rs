//! The calls into outside crates that the feed logic makes, each with the
//! contract that the crate's source shows.
use chrono::TimeZone;
use vstd::prelude::*;

verus! {

#[verifier::external_type_specification]
#[verifier::external_body]
pub struct ExUrlParseError(url::ParseError);

#[verifier::external_type_specification]
#[verifier::external_body]
pub struct ExDurationError(humantime::DurationError);

/// The first second, counted from the epoch in local time, of the year 0.
pub const EARLIEST_LOCAL_SECS: i64 = -62167219200;

/// The last second, counted from the epoch in local time, of the year 9999.
pub const LATEST_LOCAL_SECS: i64 = 253402300799;

/// The most digits that a duration text may hold: with no more, its parts
/// add up to far less than the largest number of seconds.
pub const MAX_DURATION_DIGITS: usize = 11;

/// The number of decimal digits in `s`.
pub open spec fn digit_count(s: Seq<char>) -> nat
    decreases s.len(),
{
    if s.len() == 0 {
        0
    } else {
        digit_count(s.drop_last()) + if '0' <= s.last() && s.last() <= '9' {
            1nat
        } else {
            0nat
        }
    }
}

/// The RFC 2822 text of the instant `secs`, shown at a UTC offset of
/// `offset_minutes`.
pub uninterp spec fn rfc2822_text(secs: i64, offset_minutes: i32) -> Seq<char>;

/// The whole seconds of the duration that `s` writes, where it is one.
pub uninterp spec fn duration_secs_of(s: Seq<char>) -> Option<u64>;

/// Relies on chrono's `FixedOffset::east_opt`, which gives an offset for
/// under a day, `TimeZone::timestamp_opt`, which gives a single date for any
/// instant whose local date is in range, and `DateTime::to_rfc2822`, which
/// does not panic while the local year is within 0 to 9999.
#[verifier::external_body]
pub(crate) fn rfc2822_date(secs: i64, offset_minutes: i32) -> (r: Option<String>)
    requires
        -1440 < offset_minutes < 1440,
        EARLIEST_LOCAL_SECS <= secs + 60 * offset_minutes <= LATEST_LOCAL_SECS,
    ensures
        r is Some,
        r is Some ==> r->Some_0@ == rfc2822_text(secs, offset_minutes),
{
    chrono::FixedOffset::east_opt(offset_minutes * 60)
        .and_then(|o| o.timestamp_opt(secs, 0).single())
        .map(|d| d.to_rfc2822())
}

/// Relies on `humantime::parse_duration`, which reads a duration from the
/// text alone; the result is given in whole seconds. Each part is
/// multiplied and added with overflow checks, but the final carry of
/// nanoseconds panics where the seconds reach the largest `u64`; the digit
/// bound keeps the total well below it.
#[verifier::external_body]
pub(crate) fn parse_duration_secs(s: &str) -> (r: Result<u64, humantime::DurationError>)
    requires
        digit_count(s@) <= MAX_DURATION_DIGITS,
    ensures
        match r {
            Ok(v) => duration_secs_of(s@) == Some(v),
            Err(_) => duration_secs_of(s@) is None,
        },
{
    humantime::parse_duration(s).map(|d| d.as_secs())
}

/// The serialization of the URL that `rel` resolves to against the absolute
/// URL `base`, where both parse.
pub uninterp spec fn url_join(base: Seq<char>, rel: Seq<char>) -> Option<Seq<char>>;

/// Whether `s` parses as an absolute URL.
pub uninterp spec fn base_parses(s: Seq<char>) -> bool;

/// Relies on `url::Url::parse`, which reads an absolute URL from the text
/// alone; only whether it parses is kept.
#[verifier::external_body]
pub(crate) fn url_parses(s: &str) -> (r: Result<(), url::ParseError>)
    ensures
        r is Ok <==> base_parses(s@),
{
    url::Url::parse(s).map(|_| ())
}

/// Relies on `url::Url::join` on the URL that `base` parses to: `rel` is
/// resolved against it as a relative reference, and the result is given as
/// its serialization. Both depend on the two texts alone.
#[verifier::external_body]
pub(crate) fn join_url(base: &str, rel: &str) -> (r: Result<String, url::ParseError>)
    ensures
        match r {
            Ok(u) => url_join(base@, rel@) == Some(u@),
            Err(_) => url_join(base@, rel@) is None,
        },
{
    url::Url::parse(base).and_then(|b| b.join(rel)).map(|u| u.into())
}

} // verus!
