//! Reset times of a usage period: parsing arkcli's `reset_at` and the
//! human-readable countdown shown next to each period.

use vstd::prelude::*;
use chrono::{DateTime, Utc};
use crate::text::{decimal, decimal_string};

verus! {

/// A point in time as seconds and nanoseconds since the Unix epoch, the way
/// `chrono::DateTime<Utc>` holds one (`timestamp()` and
/// `timestamp_subsec_nanos()`).
#[derive(Clone, Copy, Debug, PartialEq, Eq)]
pub struct Timestamp {
    pub secs: i64,
    pub nanos: u32,
}

/// Nanoseconds since the epoch of `t`.
pub open spec fn timestamp_nanos(t: Timestamp) -> int {
    t.secs * 1_000_000_000 + t.nanos
}

/// Integer division rounding toward zero, as `TimeDelta::num_seconds` rounds.
pub open spec fn div_toward_zero(a: int, b: int) -> int
    recommends
        b > 0,
{
    if a >= 0 { a / b } else { -((-a) / b) }
}

/// Whole seconds from `now` until the instant `reset_ms` milliseconds after
/// the epoch: `(reset - now).num_seconds()`.
pub open spec fn seconds_until(reset_ms: int, now: Timestamp) -> int {
    div_toward_zero(reset_ms * 1_000_000 - timestamp_nanos(now), 1_000_000_000)
}

/// The countdown text for a reset `secs` seconds away.
pub open spec fn countdown_text(secs: int) -> Seq<char> {
    if secs <= 0 {
        "已重置"@
    } else {
        let mins = (secs + 59) / 60;
        if mins < 60 {
            decimal(mins as nat) + " 分钟后"@
        } else {
            let hours = mins / 60;
            let rem = mins % 60;
            if hours < 48 {
                if rem > 0 {
                    decimal(hours as nat) + " 小时 "@ + decimal(rem as nat) + " 分后"@
                } else {
                    decimal(hours as nat) + " 小时后"@
                }
            } else {
                let days = hours / 24;
                let rem_hours = hours % 24;
                if rem_hours > 0 {
                    decimal(days as nat) + " 天 "@ + decimal(rem_hours as nat) + " 小时后"@
                } else {
                    decimal(days as nat) + " 天后"@
                }
            }
        }
    }
}

/// Countdown text from `now` to the reset at `reset_ms`: "已重置" once it has
/// passed, then minutes under an hour, hours and minutes under two days, and
/// days and hours beyond.
pub fn reset_text(reset_ms: i64, now: Timestamp) -> (r: String)
    ensures
        r@ == countdown_text(seconds_until(reset_ms as int, now)),
{
    let diff: i128 = (reset_ms as i128) * 1_000_000 - ((now.secs as i128) * 1_000_000_000 + (now.nanos as i128));
    let secs: i128 = if diff >= 0 { diff / 1_000_000_000 } else { -((-diff) / 1_000_000_000) };
    if secs <= 0 {
        return String::from_str("已重置");
    }
    let mins: u128 = ((secs + 59) / 60) as u128;
    if mins < 60 {
        return decimal_string(mins).concat(" 分钟后");
    }
    let hours: u128 = mins / 60;
    let rem: u128 = mins % 60;
    if hours < 48 {
        if rem > 0 {
            return decimal_string(hours).concat(" 小时 ").concat(decimal_string(rem).as_str()).concat(" 分后");
        }
        return decimal_string(hours).concat(" 小时后");
    }
    let days: u128 = hours / 24;
    let rem_hours: u128 = hours % 24;
    if rem_hours > 0 {
        decimal_string(days).concat(" 天 ").concat(decimal_string(rem_hours).as_str()).concat(" 小时后")
    } else {
        decimal_string(days).concat(" 天后")
    }
}

/// What chrono's RFC 3339 parser reads from `s`, as milliseconds since the
/// epoch; `None` where it refuses the text.
pub uninterp spec fn rfc3339_millis(s: Seq<char>) -> Option<i64>;

/// Milliseconds since the epoch of chrono's earliest instant,
/// `DateTime::<Utc>::MIN_UTC` (1 January of year -262143, midnight).
pub const MIN_UTC_MILLIS: i64 = -8_334_601_228_800_000;

/// Milliseconds since the epoch of the last millisecond of chrono's latest
/// day, 31 December of year 262142 (`DateTime::<Utc>::MAX_UTC`).
pub const MAX_UTC_MILLIS: i64 = 8_210_266_876_799_999;

/// Whether `DateTime::<Utc>::from_timestamp_millis` accepts `ms`: the day it
/// falls on lies within chrono's date range.
pub open spec fn utc_millis_in_range(ms: i64) -> bool {
    MIN_UTC_MILLIS <= ms <= MAX_UTC_MILLIS
}

/// Calls `DateTime::parse_from_rfc3339` and, on success, `timestamp_millis` on
/// the parsed value. Claimed: the result depends on `s` alone; which texts
/// chrono accepts and the instant it reads are left to the name.
#[verifier::external_body]
fn rfc3339_to_millis(s: &str) -> (r: Option<i64>)
    ensures
        r == rfc3339_millis(s@),
{
    match DateTime::parse_from_rfc3339(s) {
        Ok(dt) => Some(dt.timestamp_millis()),
        Err(_) => None,
    }
}

/// Calls `DateTime::<Utc>::from_timestamp_millis` and reports whether it gave
/// a value. Claimed: it does exactly for the milliseconds within chrono's
/// range, from `MIN_UTC` to the last millisecond of `MAX_UTC`.
#[verifier::external_body]
fn millis_in_range(ms: i64) -> (r: bool)
    ensures
        r == utc_millis_in_range(ms),
{
    DateTime::<Utc>::from_timestamp_millis(ms).is_some()
}

/// Parse arkcli's `reset_at`, an RFC 3339 string with a timezone offset
/// (e.g. `"2026-07-06T00:00:00+08:00"`), to epoch milliseconds; `None` on
/// parse failure.
pub fn parse_reset_at(s: &str) -> (r: Option<i64>)
    ensures
        r == rfc3339_millis(s@),
{
    rfc3339_to_millis(s)
}

/// Reset information of a period: when it resets and the countdown to it.
#[derive(Clone, Debug, PartialEq, Eq)]
pub struct ResetInfo {
    pub reset_at: Option<i64>,
    pub reset_text: Option<String>,
}

/// The reset instant kept for a raw `reset_at`: parsed, and only if positive.
pub open spec fn kept_reset_at(raw: Option<Seq<char>>) -> Option<i64> {
    match raw {
        None => None,
        Some(s) => match rfc3339_millis(s) {
            Some(ms) => if ms > 0 { Some(ms) } else { None },
            None => None,
        },
    }
}

/// The countdown shown for a kept reset instant.
pub open spec fn kept_reset_text(reset_at: Option<i64>, now: Timestamp) -> Option<Seq<char>> {
    match reset_at {
        Some(ms) => if utc_millis_in_range(ms) {
            Some(countdown_text(seconds_until(ms as int, now)))
        } else {
            None
        },
        None => None,
    }
}

/// The view of an optional string.
pub open spec fn opt_view(s: Option<String>) -> Option<Seq<char>> {
    match s {
        Some(x) => Some(x@),
        None => None,
    }
}

/// The reset part of period normalization: an unparsable or non-positive
/// `reset_at` becomes `None`, and a kept one gets its countdown from `now`.
pub fn normalize_reset(raw_reset_at: &Option<String>, now: Timestamp) -> (r: ResetInfo)
    ensures
        r.reset_at == kept_reset_at(opt_view(*raw_reset_at)),
        opt_view(r.reset_text) == kept_reset_text(r.reset_at, now),
        r.reset_at matches Some(ms) && utc_millis_in_range(ms) ==> r.reset_text is Some,
{
    let reset_at = match raw_reset_at {
        Some(s) => match parse_reset_at(s.as_str()) {
            Some(ms) => if ms > 0 { Some(ms) } else { None },
            None => None,
        },
        None => None,
    };
    let reset_text = match reset_at {
        Some(ms) => if millis_in_range(ms) { Some(reset_text(ms, now)) } else { None },
        None => None,
    };
    ResetInfo { reset_at, reset_text }
}


/// A countdown for a reset still ahead reads "… 后" and is never "已重置".
pub proof fn lemma_future_countdown(secs: int)
    requires
        secs > 0,
    ensures
        countdown_text(secs).len() > 0,
        countdown_text(secs).last() == '后',
        countdown_text(secs) != "已重置"@,
{
    reveal_strlit("已重置");
    reveal_strlit(" 分钟后");
    reveal_strlit(" 小时 ");
    reveal_strlit(" 分后");
    reveal_strlit(" 小时后");
    reveal_strlit(" 天 ");
    reveal_strlit(" 天后");
    let t = countdown_text(secs);
    assert(t.last() == '后');
    assert("已重置"@.last() == '置');
}

/// Every kept reset instant that chrono can represent gets a countdown:
/// "已重置" once the instant is not in the future, and a "… 后" text while
/// it is at least a second ahead.
pub proof fn lemma_reset_text_always_given(ms: i64, now: Timestamp)
    requires
        utc_millis_in_range(ms),
    ensures
        kept_reset_text(Some(ms), now) is Some,
        (ms as int) * 1_000_000 <= timestamp_nanos(now) ==> kept_reset_text(Some(ms), now) == Some("已重置"@),
        (ms as int) * 1_000_000 >= timestamp_nanos(now) + 1_000_000_000 ==> ({
            let t = kept_reset_text(Some(ms), now).unwrap();
            t != "已重置"@ && t.last() == '后'
        }),
{
    let d = (ms as int) * 1_000_000 - timestamp_nanos(now);
    if d <= 0 {
        assert((-d) / 1_000_000_000 >= 0) by (nonlinear_arith)
            requires -d >= 0;
        assert(seconds_until(ms as int, now) <= 0);
    }
    if d >= 1_000_000_000 {
        assert(d / 1_000_000_000 >= 1) by (nonlinear_arith)
            requires d >= 1_000_000_000;
        lemma_future_countdown(seconds_until(ms as int, now));
    }
}

} // verus!
