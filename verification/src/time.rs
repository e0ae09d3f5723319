//! Timestamps of the last deployment and how they are shown.

use vstd::prelude::*;
use crate::decimal::{decimal, u64_to_decimal};
use crate::error::TossError;
use crate::text::concat;

verus! {

/// The instant an RFC 3339 timestamp denotes, as whole seconds since the
/// Unix epoch and nanoseconds within that second, when the text parses.
pub uninterp spec fn rfc3339_instant(text: Seq<char>) -> Option<(int, int)>;

/// Parses an RFC 3339 timestamp (`OffsetDateTime::parse` with `Rfc3339`)
/// into Unix seconds and the nanoseconds within the second. Claimed: the
/// result is the named parse of the text, and the nanoseconds are below one
/// second, as the crate documents for `nanosecond()`.
#[verifier::external_body]
fn parse_rfc3339(raw: &str) -> (r: Option<(i64, u32)>)
    ensures
        r matches Some(t) ==> rfc3339_instant(raw@) == Some((t.0 as int, t.1 as int)) && t.1 < 1_000_000_000,
        r is None ==> rfc3339_instant(raw@) is None,
{
    match time::OffsetDateTime::parse(raw, &time::format_description::well_known::Rfc3339) {
        Ok(t) => Some((t.unix_timestamp(), t.nanosecond())),
        Err(_) => None,
    }
}

/// The current time (`OffsetDateTime::now_utc`) as Unix seconds and
/// nanoseconds within the second; the nanoseconds are below one second.
#[verifier::external_body]
pub(crate) fn now_instant() -> (r: (i64, u32))
    ensures
        r.1 < 1_000_000_000,
{
    let t = time::OffsetDateTime::now_utc();
    (t.unix_timestamp(), t.nanosecond())
}

/// One reading of the clock (`OffsetDateTime::now_utc`): Unix seconds,
/// nanoseconds within the second, and the reading formatted as RFC 3339
/// (`OffsetDateTime::format`), or the error text of a failed formatting.
/// Claimed: the nanoseconds are below one second, as the crate documents for
/// `nanosecond()`; and a formatted text reads back as that same instant, as
/// `format` writes the date, the time with every non-zero digit of the
/// nanoseconds, and `Z` for UTC, all of which `OffsetDateTime::parse`
/// reads back.
#[verifier::external_body]
fn clock_reading() -> (r: (i64, u32, Result<String, String>))
    ensures
        r.1 < 1_000_000_000,
        r.2 matches Ok(s) ==> rfc3339_instant(s@) == Some((r.0 as int, r.1 as int)),
{
    let t = time::OffsetDateTime::now_utc();
    (t.unix_timestamp(), t.nanosecond(), t.format(&time::format_description::well_known::Rfc3339).map_err(|e| e.to_string()))
}

/// Reads the clock: Unix seconds, nanoseconds within the second, and that
/// instant as an RFC 3339 timestamp.
pub fn now_stamp() -> (r: (i64, u32, Result<String, TossError>))
    ensures
        r.1 < 1_000_000_000,
        r.2 matches Ok(s) ==> rfc3339_instant(s@) == Some((r.0 as int, r.1 as int)),
        r.2 matches Err(TossError::Config(m)) ==> starts_with_text(m@, "failed to format timestamp: "@),
        r.2 matches Err(e) ==> e is Config,
{
    let (secs, nanos, text) = clock_reading();
    let stamp = match text {
        Ok(s) => Ok(s),
        Err(e) => {
            let m = concat("failed to format timestamp: ", e.as_str());
            assert(m@.subrange(0, "failed to format timestamp: "@.len() as int) =~= "failed to format timestamp: "@);
            Err(TossError::Config(m))
        },
    };
    (secs, nanos, stamp)
}

/// The current time as an RFC 3339 timestamp.
pub fn now_rfc3339() -> (r: Result<String, TossError>)
    ensures
        r matches Err(TossError::Config(m)) ==> starts_with_text(m@, "failed to format timestamp: "@),
        r matches Err(e) ==> e is Config,
        r matches Ok(s) ==> rfc3339_instant(s@) is Some,
{
    now_stamp().2
}

/// A timestamp shown less than a day after the instant it names is zero days
/// old: `text (0 days ago)`.
pub proof fn lemma_fresh_stamp_zero_days(text: Seq<char>, then: (int, int), now: (int, int))
    requires
        rfc3339_instant(text) == Some(then),
        0 <= (now.0 * 1_000_000_000 + now.1) - (then.0 * 1_000_000_000 + then.1) < nanos_per_day(),
    ensures
        last_tossed_text(Some(text), now) == text + " (0 days ago)"@,
{
    let diff = (now.0 * 1_000_000_000 + now.1) - (then.0 * 1_000_000_000 + then.1);
    if diff > 0 {
        assert(diff / nanos_per_day() == 0);
    }
    assert(days_between(then, now) == 0);
    assert(decimal(0) == seq!['0']);
    reveal_strlit(" (");
    reveal_strlit(" days ago)");
    reveal_strlit(" (0 days ago)");
    assert(text + " ("@ + decimal(0) + " days ago)"@ =~= text + " (0 days ago)"@);
}

/// `p` is a prefix of `s`.
pub open spec fn starts_with_text(s: Seq<char>, p: Seq<char>) -> bool {
    p.len() <= s.len() && s.subrange(0, p.len() as int) == p
}

/// Nanoseconds in a day.
pub open spec fn nanos_per_day() -> int {
    86_400_000_000_000
}

/// Whole days from `then` to `now` (each given as seconds and nanoseconds),
/// rounded toward zero, and never negative.
pub open spec fn days_between(then: (int, int), now: (int, int)) -> nat {
    let diff = (now.0 * 1_000_000_000 + now.1) - (then.0 * 1_000_000_000 + then.1);
    if diff > 0 {
        (diff / nanos_per_day()) as nat
    } else {
        0
    }
}

/// How the time of the last deployment is shown when the clock reads `now`.
pub open spec fn last_tossed_text(raw: Option<Seq<char>>, now: (int, int)) -> Seq<char> {
    match raw {
        None => "<never>"@,
        Some(text) => match rfc3339_instant(text) {
            None => text,
            Some(t) => text + " ("@ + decimal(days_between(t, now)) + " days ago)"@,
        },
    }
}

/// Shows the time of the last deployment, with its age in days when the
/// clock reads `now_secs` seconds and `now_nanos` nanoseconds.
pub fn format_last_tossed_at(raw: Option<&str>, now_secs: i64, now_nanos: u32) -> (r: String)
    requires
        now_nanos < 1_000_000_000,
    ensures
        r@ == last_tossed_text(
            match raw {
                Some(t) => Some(t@),
                None => None,
            },
            (now_secs as int, now_nanos as int),
        ),
{
    match raw {
        None => "<never>".to_string(),
        Some(text) => match parse_rfc3339(text) {
            None => text.to_string(),
            Some((ts, tn)) => {
                let now: i128 = now_secs as i128 * 1_000_000_000 + now_nanos as i128;
                let then: i128 = ts as i128 * 1_000_000_000 + tn as i128;
                let diff: i128 = now - then;
                let days: u64 = if diff > 0 {
                    (diff / 86_400_000_000_000) as u64
                } else {
                    0
                };
                let mut s = text.to_string();
                s.append(" (");
                s.append(u64_to_decimal(days).as_str());
                s.append(" days ago)");
                s
            },
        },
    }
}

/// `shown` is how the time of the last deployment `raw` is shown at some
/// reading of the clock: `<never>` without one, the text itself when it is
/// not a timestamp, else the text with its age in whole days.
pub open spec fn shows_last_tossed(raw: Option<Seq<char>>, shown: Seq<char>) -> bool {
    match raw {
        None => shown == "<never>"@,
        Some(t) => match rfc3339_instant(t) {
            None => shown == t,
            Some(_) => exists|days: nat| shown == t + " ("@ + decimal(days) + " days ago)"@,
        },
    }
}

/// Shows the time of the last deployment with its age in days.
pub fn format_last_tossed(raw: Option<&str>) -> (r: String)
    ensures
        shows_last_tossed(match raw { Some(t) => Some(t@), None => None }, r@),
{
    let (s, n) = now_instant();
    let r = format_last_tossed_at(raw, s, n);
    proof {
        if let Some(t) = raw {
            if let Some(i) = rfc3339_instant(t@) {
                let d = days_between(i, (s as int, n as int));
                assert(r@ == t@ + " ("@ + decimal(d) + " days ago)"@);
            }
        }
    }
    r
}

} // verus!
