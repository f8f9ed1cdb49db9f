//! Rendering of a commit time relative to the present moment.

use vstd::prelude::*;

verus! {

pub const WEEK_IN_SECONDS: u64 = 604800;

/// Times within this many seconds of the epoch, either way, can be written as
/// a calendar date (the calendar reaches beyond the year 250000 on both sides).
pub const DATE_RANGE_SECONDS: i64 = 8000000000000;

/// Text that `humantime` writes for a span of whole seconds (`30s`, `1h 2m`).
pub uninterp spec fn duration_words(secs: nat) -> Seq<char>;

/// Compact calendar date (`%v`, as in ` 5-Jan-2024`) of a UTC unix time.
pub uninterp spec fn calendar_date(secs: int) -> Seq<char>;

/// Relies on humantime::format_duration, shown through its `Display`: the
/// text depends on the span alone.
#[verifier::external_body]
fn format_seconds(secs: u64) -> (r: String)
    ensures
        r@ == duration_words(secs as nat),
{
    humantime::format_duration(std::time::Duration::from_secs(secs)).to_string()
}

/// Relies on chrono::DateTime::from_timestamp, which gives `None` only for a
/// day outside its calendar (years -262143 to 262142, `MIN_YEAR` and
/// `MAX_YEAR` of `naive::date`), and on the `%v` format of the result.
#[verifier::external_body]
fn format_date(secs: i64) -> (r: Option<String>)
    ensures
        -DATE_RANGE_SECONDS <= secs <= DATE_RANGE_SECONDS ==> r is Some,
        r matches Some(s) ==> s@ == calendar_date(secs as int),
{
    chrono::DateTime::from_timestamp(secs, 0).map(|d| d.format("%v").to_string())
}

pub open spec fn date_in_range(timestamp: i64) -> bool {
    -DATE_RANGE_SECONDS <= timestamp <= DATE_RANGE_SECONDS
}

pub open spec fn distance(a: int, b: int) -> nat {
    if a > b {
        (a - b) as nat
    } else {
        (b - a) as nat
    }
}

/// How `timestamp` reads when the time is `now`: a calendar date when the two
/// lie more than a week apart, else the span with `in ` before it for a time
/// still to come, or ` ago` after it otherwise.
pub open spec fn humanized(timestamp: int, now: int) -> Seq<char> {
    let d = distance(timestamp, now);
    if d > WEEK_IN_SECONDS {
        calendar_date(timestamp)
    } else if timestamp > now {
        "in "@ + duration_words(d)
    } else {
        duration_words(d) + " ago"@
    }
}

/// Renders the unix time `timestamp` as seen at the unix time `now`.
pub fn humanize(timestamp: i64, now: i64) -> (r: String)
    requires
        date_in_range(timestamp),
    ensures
        r@ == humanized(timestamp as int, now as int),
{
    let future = timestamp > now;
    let diff: u64 = if future {
        (timestamp as i128 - now as i128) as u64
    } else {
        (now as i128 - timestamp as i128) as u64
    };
    if diff > WEEK_IN_SECONDS {
        match format_date(timestamp) {
            Some(s) => s,
            None => String::new(),
        }
    } else if future {
        let words = format_seconds(diff);
        String::from_str("in ").concat(words.as_str())
    } else {
        let words = format_seconds(diff);
        words.concat(" ago")
    }
}

} // verus!
