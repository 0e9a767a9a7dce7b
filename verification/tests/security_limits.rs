use murmer_server::limiter::{
    check_and_store_nonce, check_auth_rate_limit, check_message_rate_limit, RateLimiter,
};
use murmer_server::timestamp::validate_timestamp;
use murmer_server::validate::{validate_channel_name, validate_user_name};

#[test]
fn rejects_message_when_limit_reached() {
    // MAX_MESSAGES_PER_MINUTE = 2
    let mut limiter = RateLimiter::new();
    let now = 1_700_000_000_000i64;
    assert!(check_message_rate_limit(&mut limiter, "alice", now, 2));
    assert!(check_message_rate_limit(&mut limiter, "alice", now, 2));
    assert!(!check_message_rate_limit(&mut limiter, "alice", now, 2));
}

#[test]
fn rejects_auth_when_limit_reached() {
    // MAX_AUTH_ATTEMPTS_PER_MINUTE = 1
    let mut limiter = RateLimiter::new();
    let now = 1_700_000_000_000i64;
    assert!(check_auth_rate_limit(&mut limiter, "127.0.0.1", now, 1));
    assert!(!check_auth_rate_limit(&mut limiter, "127.0.0.1", now, 1));
}

#[test]
fn allows_nonce_reuse_after_expiry() {
    // NONCE_EXPIRY_SECONDS = 1; a second use two seconds later is fresh.
    let mut limiter = RateLimiter::new();
    let expiry_ms = 1_000i64;
    let start = 1_700_000_000_000i64;
    assert!(check_and_store_nonce(&mut limiter, "nonce-1", start, expiry_ms));
    assert!(!check_and_store_nonce(&mut limiter, "nonce-1", start, expiry_ms));

    let later = start + 2_000;
    assert!(check_and_store_nonce(&mut limiter, "nonce-1", later, expiry_ms));
}

#[test]
fn validates_channel_names() {
    assert!(validate_channel_name("general"));
    assert!(validate_channel_name("alpha-num_01"));
    assert!(!validate_channel_name(""));
    assert!(!validate_channel_name(" leading"));
    assert!(!validate_channel_name("trailing "));
}

#[test]
fn validates_user_names() {
    assert!(validate_user_name("Alice"));
    assert!(validate_user_name("Bob 42"));
    assert!(!validate_user_name(""));
    assert!(!validate_user_name("   "));
    assert!(!validate_user_name(
        "TooLongNameThatExceedsThirtyTwoCharacters"
    ));
}

#[test]
fn validates_timestamps() {
    let now = chrono::Utc::now().timestamp_millis();
    assert!(validate_timestamp(&now.to_string()).is_ok());
    assert!(validate_timestamp(&(now + 30_000).to_string()).is_ok());
    assert!(validate_timestamp(&(now - 30_000).to_string()).is_ok());
    assert!(validate_timestamp("not-a-number").is_err());
}

#[test]
fn rate_window_empties_after_idle_minute() {
    let mut limiter = RateLimiter::new();
    let start = 1_700_000_000_000i64;
    assert!(check_message_rate_limit(&mut limiter, "bob", start, 1));
    assert!(!check_message_rate_limit(&mut limiter, "bob", start + 1, 1));
    // Sixty seconds after the last event the window is empty again.
    assert!(check_message_rate_limit(&mut limiter, "bob", start + 61_000, 1));
}

#[test]
fn auth_limits_are_keyed_by_address() {
    let mut limiter = RateLimiter::new();
    let now = 1_700_000_000_000i64;
    assert!(check_auth_rate_limit(&mut limiter, "10.0.0.1", now, 1));
    assert!(check_auth_rate_limit(&mut limiter, "10.0.0.2", now, 1));
    assert!(!check_auth_rate_limit(&mut limiter, "10.0.0.1", now, 1));
}

#[test]
fn timestamp_window_bounds() {
    let now = 1_700_000_000_000i64;
    assert_eq!(
        murmer_server::timestamp::validate_timestamp_at("1700000000000", now),
        Ok(1_700_000_000_000)
    );
    assert!(murmer_server::timestamp::validate_timestamp_at("1700000070000", now).is_err());
    assert!(murmer_server::timestamp::validate_timestamp_at("1699999930000", now).is_err());
    assert!(murmer_server::timestamp::validate_timestamp_at("", now).is_err());
}
