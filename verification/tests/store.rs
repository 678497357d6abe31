use chrono::{DateTime, Duration, Utc};
use httptester::db::{cleanup_expired, expired_at, generate_uuid, remove_char, short_id};
use httptester::error::AppError;
use httptester::models::Timestamp;
use httptester::outside::{MAX_UTC_SECS, MIN_UTC_SECS};

fn at(secs: i64, nanos: u32) -> Timestamp {
    Timestamp { secs, nanos }
}

fn entry(id: &str, created_at: Timestamp) -> (String, Timestamp) {
    (id.to_string(), created_at)
}

#[test]
fn short_ids_are_the_first_digits() {
    assert_eq!(short_id("123e4567-e89b-42d3-a456-426614174000"), "123e4567e89b");
    assert_eq!(short_id("1-2-3"), "123");
    assert_eq!(short_id(""), "");
    assert_eq!(remove_char("-a--b-", '-'), "ab");
    assert_eq!(remove_char("abc", '-'), "abc");
}

#[test]
fn random_ids_have_their_shape() {
    let mut seen = Vec::new();
    for taken in 0..5 {
        let id = generate_uuid(taken).unwrap();
        assert_eq!(id.len(), 12);
        assert!(id.chars().all(|c| c.is_ascii_hexdigit() && !c.is_uppercase()));
        assert!(!seen.contains(&id));
        seen.push(id);
    }
}

#[test]
fn ids_are_given_up_after_five_candidates() {
    for taken in [5, 6, u32::MAX] {
        let error = generate_uuid(taken).unwrap_err();
        assert!(matches!(error, AppError::IdAllocationFailed));
        assert_eq!(error.status(), 500);
        assert_eq!(error.message(), "failed to allocate unique id");
    }
}

#[test]
fn subscriptions_expire_after_their_days() {
    let day = 86_400;
    let now = at(100 * day, 500);
    let entries = vec![
        entry("older", at(70 * day - 1, 999_999_999)),
        entry("just", at(70 * day, 499)),
        entry("exact", at(70 * day, 500)),
        entry("younger", at(70 * day, 501)),
        entry("new", at(100 * day, 0)),
        entry("future", at(101 * day, 0)),
    ];
    assert_eq!(expired_at(&entries, now, 30), vec!["older", "just"]);
    assert_eq!(expired_at(&entries, now, 31), Vec::<String>::new());
    assert_eq!(expired_at(&entries, now, 0).len(), 5);
    assert_eq!(expired_at(&entries, now, -2).len(), 6);
    assert_eq!(expired_at(&[], now, 30), Vec::<String>::new());
}

#[test]
fn expiry_agrees_with_calendar_times() {
    let now = Utc::now();
    let moments = [
        now - Duration::days(31),
        now - Duration::days(30) - Duration::nanoseconds(1),
        now - Duration::days(30),
        now - Duration::days(29),
        now,
    ];
    let entries: Vec<(String, Timestamp)> = moments
        .iter()
        .map(|m| entry(&m.to_rfc3339(), at(m.timestamp(), m.timestamp_subsec_nanos())))
        .collect();
    let expected: Vec<String> = moments
        .iter()
        .filter(|m| **m < now - Duration::days(30))
        .map(|m| m.to_rfc3339())
        .collect();
    let stamp = at(now.timestamp(), now.timestamp_subsec_nanos());
    assert_eq!(expired_at(&entries, stamp, 30), expected);
}

#[test]
fn cleanup_uses_the_clock() {
    let now = Utc::now();
    let entries = vec![
        entry("old", at(now.timestamp() - 31 * 86_400, 0)),
        entry("new", at(now.timestamp() - 29 * 86_400, 0)),
    ];
    assert_eq!(cleanup_expired(&entries, 30), Some(vec!["old".to_string()]));
    assert_eq!(cleanup_expired(&entries, 96_465_292), Some(vec![]));
    assert_eq!(cleanup_expired(&entries, i64::MAX), None);
    assert_eq!(cleanup_expired(&entries, i64::MIN), None);
}

#[test]
fn range_of_moments() {
    assert_eq!(DateTime::<Utc>::MIN_UTC.timestamp(), MIN_UTC_SECS);
    assert_eq!(DateTime::<Utc>::MAX_UTC.timestamp(), MAX_UTC_SECS);
    assert!(DateTime::<Utc>::from_timestamp(MIN_UTC_SECS, 0).is_some());
    assert!(DateTime::<Utc>::from_timestamp(MIN_UTC_SECS - 1, 0).is_none());
    assert!(DateTime::<Utc>::from_timestamp(MAX_UTC_SECS, 999_999_999).is_some());
    assert!(DateTime::<Utc>::from_timestamp(MAX_UTC_SECS + 1, 0).is_none());
    let entries = vec![entry("first", at(MIN_UTC_SECS, 0))];
    assert_eq!(expired_at(&entries, at(MIN_UTC_SECS, 1), 0), vec!["first"]);
    let days = (MAX_UTC_SECS - MIN_UTC_SECS) / 86_400;
    assert_eq!(expired_at(&entries, at(MAX_UTC_SECS, 7), days), vec!["first"]);
}
