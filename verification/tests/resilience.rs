use michi::resilience::{already_done, is_retryable_status, render_already_done, AlreadyDone, Delay, IdempotencyKey};
use michi::retry_after::{parse_retry_after, parse_retry_after_at};

fn assert_send_sync_static<T: Send + Sync + 'static>() {}

#[test]
fn resilience_types_are_send_sync_static() {
    assert_send_sync_static::<Delay>();
    assert_send_sync_static::<IdempotencyKey>();
    assert_send_sync_static::<AlreadyDone>();
}

#[test]
fn parse_retry_after_seconds() {
    assert_eq!(parse_retry_after("60"), Some(Delay::from_secs(60)));
    assert_eq!(parse_retry_after("  120  "), Some(Delay::from_secs(120)));
}

#[test]
fn parse_retry_after_date_in_past_clamps_to_zero() {
    assert_eq!(parse_retry_after("Wed, 21 Oct 2015 07:28:00 GMT"), Some(Delay::zero()));
}

#[test]
fn http_date_in_future_parses_relative_to_now() {
    let now: i128 = 1_767_225_600 * 1_000_000_000;
    let delay = parse_retry_after_at("Thu, 01 Jan 2026 00:01:00 GMT", now);
    assert_eq!(delay, Some(Delay::from_secs(60)));
}

#[test]
fn http_date_in_past_clamps_to_zero() {
    let now: i128 = 1_767_225_600 * 1_000_000_000;
    let delay = parse_retry_after_at("Wed, 31 Dec 2025 00:00:00 GMT", now);
    assert_eq!(delay, Some(Delay::zero()), "past dates clamp to zero");
}

#[test]
fn malformed_http_date_returns_none() {
    let now: i128 = 0;
    assert_eq!(parse_retry_after_at("not a date", now), None);
    assert_eq!(parse_retry_after_at("Wed, 32 Foo 2026 00:00:00 GMT", now), None);
}

#[test]
fn http_date_with_day_out_of_range_returns_none() {
    let now: i128 = 0;
    assert_eq!(parse_retry_after_at("Thu, 32 Jan 2026 00:00:00 GMT", now), None);
    assert_eq!(parse_retry_after_at("Thu, 00 Jan 2026 00:00:00 GMT", now), None);
}

#[test]
fn http_date_with_time_out_of_range_returns_none() {
    let now: i128 = 0;
    assert_eq!(parse_retry_after_at("Thu, 01 Jan 2026 24:00:00 GMT", now), None);
    assert_eq!(parse_retry_after_at("Thu, 01 Jan 2026 00:60:00 GMT", now), None);
    assert_eq!(parse_retry_after_at("Thu, 01 Jan 2026 00:00:61 GMT", now), None);
    assert_eq!(parse_retry_after_at("Thu, 01 Jan 2026 00:00:00:00 GMT", now), None);
}

#[test]
fn http_date_with_absurd_year_returns_none_instead_of_panicking() {
    let now: i128 = 0;
    assert_eq!(parse_retry_after_at("Wed, 21 Oct 999999999999999999 07:28:00 GMT", now), None);
}

#[test]
fn parse_http_date_rejects_feb_30() {
    let now: i128 = 0;
    assert!(parse_retry_after_at("Wed, 30 Feb 2026 07:28:00 GMT", now).is_none(), "Feb 30 is impossible");
}

#[test]
fn parse_http_date_rejects_feb_29_non_leap() {
    let now: i128 = 0;
    assert!(parse_retry_after_at("Sun, 29 Feb 2026 00:00:00 GMT", now).is_none(), "2026 is not a leap year");
}

#[test]
fn parse_http_date_accepts_feb_29_leap_year() {
    let now: i128 = 0;
    let result = parse_retry_after_at("Tue, 29 Feb 2028 00:00:00 GMT", now);
    assert!(result.is_some(), "Feb 29 2028 is valid");
}

#[test]
fn parse_http_date_rejects_april_31() {
    let now: i128 = 0;
    assert!(parse_retry_after_at("Thu, 31 Apr 2026 00:00:00 GMT", now).is_none(), "April has 30 days");
}

#[test]
fn parse_http_date_accepts_jan_31() {
    let now: i128 = 0;
    let result = parse_retry_after_at("Sat, 31 Jan 2026 00:00:00 GMT", now);
    assert!(result.is_some(), "Jan 31 is valid");
}

#[test]
fn public_parse_retry_after_still_handles_seconds() {
    assert_eq!(parse_retry_after("60"), Some(Delay::from_secs(60)));
}

#[test]
fn retryable_status_codes() {
    assert!(is_retryable_status(429));
    assert!(is_retryable_status(502));
    assert!(is_retryable_status(503));
    assert!(is_retryable_status(504));
    assert!(!is_retryable_status(404));
    assert!(!is_retryable_status(400));
}

#[test]
fn non_retryable_status_codes() {
    assert!(!is_retryable_status(200));
    assert!(!is_retryable_status(201));
    assert!(!is_retryable_status(301));
    assert!(!is_retryable_status(401));
}

#[test]
fn http_500_is_not_retryable() {
    assert!(
        !is_retryable_status(500),
        "500 is a server bug — retrying reproduces it and risks duplicate side effects on writes"
    );
}

#[test]
fn from_hash_is_deterministic() {
    let a = IdempotencyKey::from_hash("create_item", b"same input");
    let b = IdempotencyKey::from_hash("create_item", b"same input");
    assert_eq!(a, b);
}

#[test]
fn already_done_yes_when_stored() {
    assert_eq!(already_done(Some("prior result".into())), AlreadyDone::Yes { result: "prior result".into() });
}

#[test]
fn already_done_no_when_none() {
    assert_eq!(already_done(None), AlreadyDone::No);
}

#[test]
fn render_already_done_no_hints_format() {
    let out = render_already_done("delete_item", "item 42 was deleted in run abc", &[]);
    assert_eq!(out, "operation: delete_item\nstatus:    already_done\nsummary:   item 42 was deleted in run abc\n");
}

#[test]
fn render_already_done_with_hints() {
    let out = render_already_done("sync", "synced 10 records", &["use get_status to check".into()]);
    assert!(out.contains("help[1]:\n  use get_status to check\n"), "got: {out}");
    assert!(out.contains("operation: sync\n"), "got: {out}");
}

#[test]
fn render_already_done_multiple_hints() {
    let hints = ["hint a".to_string(), "hint b".to_string()];
    let out = render_already_done("op", "done", &hints);
    assert!(out.contains("help[2]:\n  hint a\n  hint b\n"), "got: {out}");
}
