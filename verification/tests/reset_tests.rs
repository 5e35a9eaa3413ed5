use chrono::{DateTime, Utc};
use volcengine_status::reset::{
    normalize_reset, parse_reset_at, reset_text, Timestamp, MAX_UTC_MILLIS, MIN_UTC_MILLIS,
};

fn stamp(t: DateTime<Utc>) -> Timestamp {
    Timestamp { secs: t.timestamp(), nanos: t.timestamp_subsec_nanos() }
}

#[test]
fn parses_iso_reset_at_to_millis() {
    // 2026-07-06T00:00:00+08:00 == 2026-07-05T16:00:00 UTC
    let ms = parse_reset_at("2026-07-06T00:00:00+08:00").unwrap();
    let dt = DateTime::<Utc>::from_timestamp_millis(ms).unwrap();
    assert_eq!(dt.to_rfc3339(), "2026-07-05T16:00:00+00:00");
    assert!(parse_reset_at("not a date").is_none());
}

#[test]
fn normalizes_sentinels_and_remaining() {
    // The reset half of period normalization; percentages stay with the app.
    let now = Utc::now();
    let info = normalize_reset(
        &Some((now + chrono::Duration::hours(3)).to_rfc3339()),
        stamp(now),
    );
    assert!(info.reset_at.is_some());
    assert!(info.reset_text.unwrap().contains("小时"));
}

#[test]
fn drops_negative_sentinels() {
    let now = Utc::now();
    let info = normalize_reset(&Some("invalid".into()), stamp(now));
    assert!(info.reset_at.is_none());
    assert!(info.reset_text.is_none());
}

#[test]
fn drops_missing_and_non_positive_reset() {
    let now = Timestamp { secs: 0, nanos: 0 };
    let info = normalize_reset(&None, now);
    assert_eq!(info.reset_at, None);
    assert_eq!(info.reset_text, None);
    let info = normalize_reset(&Some("1970-01-01T00:00:00Z".into()), now);
    assert_eq!(info.reset_at, None);
    let info = normalize_reset(&Some("1970-01-01T00:00:01Z".into()), now);
    assert_eq!(info.reset_at, Some(1000));
    assert_eq!(info.reset_text.as_deref(), Some("1 分钟后"));
}

#[test]
fn countdown_texts() {
    let now = Timestamp { secs: 1_000, nanos: 0 };
    let at = |secs: i64| reset_text((1_000 + secs) * 1000, now);
    assert_eq!(at(0), "已重置");
    assert_eq!(at(-5), "已重置");
    assert_eq!(at(1), "1 分钟后");
    assert_eq!(at(60), "1 分钟后");
    assert_eq!(at(61), "2 分钟后");
    assert_eq!(at(59 * 60 + 1), "1 小时后");
    assert_eq!(at(90 * 60), "1 小时 30 分后");
    assert_eq!(at(2 * 3600), "2 小时后");
    assert_eq!(at(47 * 3600 + 59 * 60), "47 小时 59 分后");
    assert_eq!(at(48 * 3600), "2 天后");
    assert_eq!(at(49 * 3600), "2 天 1 小时后");
    assert_eq!(at(49 * 3600 + 30 * 60), "2 天 1 小时后");
    assert_eq!(at(10 * 86400), "10 天后");
}

#[test]
fn countdown_truncates_sub_second_remainders() {
    // 0.5 s before the reset still counts as zero whole seconds: reset.
    let now = Timestamp { secs: 9, nanos: 500_000_000 };
    assert_eq!(reset_text(10_000, now), "已重置");
    // 1.5 s before: one whole second, rounded up to a minute.
    let now = Timestamp { secs: 8, nanos: 500_000_000 };
    assert_eq!(reset_text(10_000, now), "1 分钟后");
}

#[test]
fn countdown_matches_chrono_difference() {
    let now = Utc::now();
    let reset = now + chrono::Duration::seconds(7_000);
    let ms = reset.timestamp_millis();
    let secs = (DateTime::<Utc>::from_timestamp_millis(ms).unwrap() - now).num_seconds();
    let mins = (secs + 59) / 60;
    let expected = if mins % 60 > 0 {
        format!("{} 小时 {} 分后", mins / 60, mins % 60)
    } else {
        format!("{} 小时后", mins / 60)
    };
    assert_eq!(reset_text(ms, stamp(now)), expected);
}

#[test]
fn chrono_millisecond_range() {
    assert_eq!(DateTime::<Utc>::MIN_UTC.timestamp_millis(), MIN_UTC_MILLIS);
    assert_eq!(DateTime::<Utc>::MAX_UTC.timestamp_millis(), MAX_UTC_MILLIS);
    assert!(DateTime::<Utc>::from_timestamp_millis(MIN_UTC_MILLIS).is_some());
    assert!(DateTime::<Utc>::from_timestamp_millis(MIN_UTC_MILLIS - 1).is_none());
    assert!(DateTime::<Utc>::from_timestamp_millis(MAX_UTC_MILLIS).is_some());
    assert!(DateTime::<Utc>::from_timestamp_millis(MAX_UTC_MILLIS + 1).is_none());
}
