use std::time::Duration;
use video_trimmer::rate_limit::{
    classify, cooldown_message, friendly_rate_limit_message, RateLimitKind, RateLimiter,
    BASE_COOLDOWN, MAX_COOLDOWN, MIN_SPACING,
};

/// Nanoseconds of a `Duration`, the unit of the limiter's clock.
fn nanos(d: Duration) -> u64 {
    d.as_nanos() as u64
}

/// A clock reading to start from.
fn clock() -> u64 {
    nanos(Duration::from_secs(1_000))
}

#[test]
fn classify_detects_hard_429_and_too_many_requests() {
    assert_eq!(
        classify("HTTP Error 429: Too Many Requests"),
        Some(RateLimitKind::Hard)
    );
    assert_eq!(
        classify("ERROR: unable to download video data: HTTP Error 429"),
        Some(RateLimitKind::Hard)
    );
    assert_eq!(
        classify("too many requests from this IP"),
        Some(RateLimitKind::Hard)
    );
}

#[test]
fn classify_detects_soft_403_forbidden() {
    assert_eq!(
        classify("Command failed: ERROR: unable to download video data: HTTP Error 403: Forbidden"),
        Some(RateLimitKind::Soft)
    );
    assert_eq!(classify("HTTP Error 403"), Some(RateLimitKind::Soft));
    assert_eq!(classify("Access forbidden"), Some(RateLimitKind::Soft));
}

#[test]
fn classify_ignores_unrelated_and_cancel_errors() {
    assert_eq!(classify("Cancelled by user"), None);
    assert_eq!(classify("Downloaded file not found at C:\\tmp\\dl.mp4"), None);
    assert_eq!(classify("Invalid yt-dlp JSON: expected value"), None);
    assert_eq!(classify(""), None);
}

#[test]
fn first_rate_limit_uses_base_cooldown() {
    let mut limiter = RateLimiter::default();
    let t0 = clock();
    limiter.record_rate_limit(t0);
    assert_eq!(limiter.remaining(t0), BASE_COOLDOWN);
    assert_eq!(
        limiter.remaining(t0 + nanos(Duration::from_secs(20))),
        nanos(Duration::from_secs(40))
    );
    assert!(limiter.remaining(t0 + BASE_COOLDOWN) == 0);
}

#[test]
fn backoff_doubles_and_caps_at_max() {
    let mut limiter = RateLimiter::default();
    let t0 = clock();

    limiter.record_rate_limit(t0);
    assert_eq!(limiter.remaining(t0), nanos(Duration::from_secs(60)));

    limiter.record_rate_limit(t0);
    assert_eq!(limiter.remaining(t0), nanos(Duration::from_secs(120)));

    limiter.record_rate_limit(t0);
    assert_eq!(limiter.remaining(t0), nanos(Duration::from_secs(240)));

    limiter.record_rate_limit(t0);
    assert_eq!(limiter.remaining(t0), nanos(Duration::from_secs(480)));

    limiter.record_rate_limit(t0);
    assert_eq!(limiter.remaining(t0), MAX_COOLDOWN);

    limiter.record_rate_limit(t0);
    assert_eq!(limiter.remaining(t0), MAX_COOLDOWN);
}

#[test]
fn success_resets_streak_and_applies_min_spacing() {
    let mut limiter = RateLimiter::default();
    let t0 = clock();

    limiter.record_rate_limit(t0);
    limiter.record_rate_limit(t0);
    limiter.record_success(t0);
    assert_eq!(limiter.remaining(t0), MIN_SPACING);
    assert!(limiter.remaining(t0 + MIN_SPACING) == 0);

    limiter.record_rate_limit(t0);
    assert_eq!(limiter.remaining(t0), BASE_COOLDOWN);
}

#[test]
fn unused_limiter_has_no_wait() {
    let limiter = RateLimiter::default();
    assert!(limiter.remaining(clock()) == 0);
}

#[test]
fn friendly_message_rounds_up_to_whole_minutes() {
    assert_eq!(
        friendly_rate_limit_message(nanos(Duration::from_secs(1))),
        "YouTube is rate limiting this machine. Try again in 1m."
    );
    assert_eq!(
        friendly_rate_limit_message(nanos(Duration::from_secs(60))),
        "YouTube is rate limiting this machine. Try again in 1m."
    );
    assert_eq!(
        friendly_rate_limit_message(nanos(Duration::from_secs(61))),
        "YouTube is rate limiting this machine. Try again in 2m."
    );
    assert_eq!(
        friendly_rate_limit_message(MAX_COOLDOWN),
        "YouTube is rate limiting this machine. Try again in 15m."
    );
}

#[test]
fn cooldown_message_shows_remaining_seconds() {
    assert_eq!(
        cooldown_message(nanos(Duration::from_secs(47))),
        "Waiting 47s — YouTube cooldown"
    );
    assert_eq!(
        cooldown_message(nanos(Duration::from_millis(200))),
        "Waiting 1s — YouTube cooldown"
    );
}
