use egnyte_fuse::api_client::{
    base_url, content_endpoint, initial_expiry, merge_listing, metadata_endpoint, request_url,
    timestamp_secs, token_record, usable_secret, RateLimiter, RetryState, RetryStep, TokenState,
    DEFAULT_EXPIRES_IN_SECS,
};
use egnyte_fuse::fuse_ops::EgnyteEntry;

fn entry(name: &str, is_folder: bool, size: u64) -> EgnyteEntry {
    EgnyteEntry {
        name: name.to_string(),
        path: format!("/{}", name),
        is_folder,
        size,
        modified_time: 5,
    }
}

#[test]
fn pacing_spaces_dispatches() {
    let mut rl = RateLimiter::new(100);
    assert_eq!(rl.wait_if_needed(1_000), 0);
    rl.record_call(1_000);
    let w = rl.wait_if_needed(1_030);
    assert_eq!(w, 70);
    rl.record_call(1_030 + w);
    assert_eq!(rl.wait_if_needed(1_100), 100);
    rl.record_call(1_200);
    assert_eq!(rl.wait_if_needed(1_500), 0);
    assert_eq!(rl.wait_if_needed(900), 100);
}

#[test]
fn back_to_back_calls_take_at_least_the_intervals() {
    let mut rl = RateLimiter::new(100);
    let mut now: u64 = 0;
    let mut first = None;
    for _ in 0..5 {
        now += rl.wait_if_needed(now);
        rl.record_call(now);
        if first.is_none() {
            first = Some(now);
        }
    }
    assert!(now - first.unwrap() >= 4 * 100);
}

#[test]
fn backoff_on_every_429() {
    let mut st = RetryState::new();
    let mut steps = Vec::new();
    loop {
        let s = st.on_response(429);
        steps.push(s);
        if !matches!(s, RetryStep::Backoff(_)) {
            break;
        }
    }
    assert_eq!(
        steps,
        vec![
            RetryStep::Backoff(500),
            RetryStep::Backoff(1000),
            RetryStep::Backoff(2000),
            RetryStep::Backoff(4000),
            RetryStep::Backoff(8000),
            RetryStep::Fail(429),
        ]
    );
}

#[test]
fn unauthorized_then_ok_refreshes_once() {
    let mut st = RetryState::new();
    assert_eq!(st.on_response(401), RetryStep::RefreshAndResend);
    assert_eq!(st.on_response(200), RetryStep::Succeed);
}

#[test]
fn unauthorized_twice_fails() {
    let mut st = RetryState::new();
    assert_eq!(st.on_response(401), RetryStep::RefreshAndResend);
    assert_eq!(st.on_response(401), RetryStep::Fail(401));
}

#[test]
fn other_statuses() {
    let mut st = RetryState::new();
    assert_eq!(st.on_response(204), RetryStep::Succeed);
    let mut st = RetryState::new();
    assert_eq!(st.on_response(404), RetryStep::Fail(404));
    let mut st = RetryState::new();
    assert_eq!(st.on_response(429), RetryStep::Backoff(500));
    assert_eq!(st.on_response(500), RetryStep::Fail(500));
}

#[test]
fn token_expiring_in_thirty_seconds_is_refreshed() {
    let now = 10_000_000u64;
    let mut tok = TokenState::new(Some("old".to_string()), Some(now + 30_000));
    assert!(tok.needs_refresh(now));
    let used = tok.apply_refresh("new".to_string(), Some(7200), now);
    assert_eq!(used, 7200);
    assert_eq!(tok.access_token.as_deref(), Some("new"));
    assert_eq!(tok.expires_at_ms, Some(now + 7_200_000));
    assert!(!tok.needs_refresh(now));
    let rec = token_record("new".to_string(), used, 1_700_000_123);
    assert_eq!(rec.issued_at, 1_700_000_123);
    assert_eq!(rec.expires_in, 7200);
    assert_eq!(rec.token_type, "Bearer");
    assert_eq!(rec.access_token, "new");
}

#[test]
fn token_lifetime_defaults() {
    let mut tok = TokenState::new(None, None);
    assert!(tok.needs_refresh(0));
    assert_eq!(tok.apply_refresh("t".to_string(), None, 0), DEFAULT_EXPIRES_IN_SECS);
    assert_eq!(tok.expires_at_ms, Some(3_600_000));
    assert!(!TokenState::new(None, Some(61_000)).needs_refresh(1_000));
    assert!(TokenState::new(None, Some(60_999)).needs_refresh(1_000));
    assert!(TokenState::new(None, Some(5)).needs_refresh(1_000));
}

#[test]
fn stored_token_expiry() {
    assert_eq!(initial_expiry(Some(1000), Some(3600), 1600, 50), Some(50 + 3_000_000));
    assert_eq!(initial_expiry(Some(1000), Some(10), 5000, 50), Some(50));
    assert_eq!(initial_expiry(None, Some(10), 5000, 50), None);
    assert_eq!(initial_expiry(Some(1), None, 5000, 50), None);
    assert_eq!(initial_expiry(Some(i64::MAX), Some(u64::MAX), 0, 1), Some(u64::MAX));
}

#[test]
fn timestamps_truncate_to_seconds() {
    assert_eq!(timestamp_secs(1_700_000_000_999), 1_700_000_000);
    assert_eq!(timestamp_secs(999), 0);
}

#[test]
fn empty_secrets_are_absent() {
    assert_eq!(usable_secret(Some("s".to_string())), Some("s".to_string()));
    assert_eq!(usable_secret(Some(String::new())), None);
    assert_eq!(usable_secret(None), None);
}

#[test]
fn listing_puts_folders_first() {
    let merged = merge_listing(
        vec![entry("Docs", false, 9)],
        vec![entry("readme.txt", true, 42), entry("b", false, 1)],
    );
    assert_eq!(merged.len(), 3);
    assert_eq!((merged[0].name.as_str(), merged[0].is_folder, merged[0].size), ("Docs", true, 0));
    assert_eq!((merged[1].name.as_str(), merged[1].is_folder, merged[1].size), ("readme.txt", false, 42));
    assert_eq!(merged[2].name, "b");
}

#[test]
fn endpoints() {
    assert_eq!(base_url("acme"), "https://acme.egnyte.com");
    assert_eq!(metadata_endpoint("/Docs"), "/pubapi/v1/fs/Docs");
    assert_eq!(content_endpoint("/a.txt"), "/pubapi/v1/fs-content/a.txt");
    assert_eq!(request_url("https://acme.egnyte.com", "/x"), "https://acme.egnyte.com/x");
}
