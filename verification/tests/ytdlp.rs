use std::time::Duration;
use video_trimmer::ytdlp::{
    build_download_args, build_fetch_args, cache_file_is_fresh, cache_key_for_url,
    days_from_civil, download_failure_action, is_outdated, parse_ytdlp_ymd,
    DownloadFailureAction, DownloadSource, INFO_CACHE_TTL,
};

/// Nanoseconds since the Unix epoch of `UNIX_EPOCH + d`.
fn since_epoch(d: Duration) -> i128 {
    d.as_nanos() as i128
}

#[test]
fn cache_key_is_stable_and_differs_by_url() {
    let a = cache_key_for_url("https://youtu.be/abc");
    let b = cache_key_for_url("https://youtu.be/abc");
    let c = cache_key_for_url("https://youtu.be/xyz");
    assert_eq!(a, b);
    assert_ne!(a, c);
    assert!(a.ends_with(".json"));
}

#[test]
fn cache_file_is_fresh_within_ttl_and_stale_after() {
    let now = since_epoch(Duration::from_secs(1_000_000));
    let fresh = now - since_epoch(Duration::from_secs(2 * 3600));
    let stale = now - since_epoch(Duration::from_secs(4 * 3600));
    assert!(cache_file_is_fresh(fresh, now, INFO_CACHE_TTL));
    assert!(!cache_file_is_fresh(stale, now, INFO_CACHE_TTL));
    assert!(cache_file_is_fresh(now - INFO_CACHE_TTL as i128, now, INFO_CACHE_TTL));
}

#[test]
fn days_from_civil_unix_epoch_is_zero() {
    assert_eq!(days_from_civil(1970, 1, 1), 0);
}

#[test]
fn parses_ytdlp_version_from_output() {
    assert_eq!(parse_ytdlp_ymd("2026.03.17"), Some((2026, 3, 17)));
    assert_eq!(parse_ytdlp_ymd("2026.03.17\n"), Some((2026, 3, 17)));
    assert_eq!(parse_ytdlp_ymd("yt-dlp 2025.12.08"), Some((2025, 12, 8)));
    assert_eq!(parse_ytdlp_ymd("not a version"), None);
}

#[test]
fn is_outdated_after_ninety_days() {
    let release_days = days_from_civil(2026, 3, 17);
    let release_epoch = release_days * 86_400;
    assert!(!is_outdated("2026.03.17", release_epoch + 89 * 86_400));
    assert!(is_outdated("2026.03.17", release_epoch + 90 * 86_400));
    assert!(is_outdated("2026.03.17", release_epoch + 91 * 86_400));
    assert!(!is_outdated("unparseable", release_epoch + 365 * 86_400));
}

#[test]
fn download_failure_prefers_cancel_and_rate_limit() {
    assert_eq!(
        download_failure_action("Cancelled by user", true, true),
        DownloadFailureAction::Cancelled
    );
    assert_eq!(
        download_failure_action("HTTP Error 403: Forbidden", true, true),
        DownloadFailureAction::RateLimited
    );
    assert_eq!(
        download_failure_action("HTTP Error 429: Too Many Requests", false, true),
        DownloadFailureAction::RateLimited
    );
}

#[test]
fn download_failure_retries_cache_then_print_then_fails() {
    assert_eq!(
        download_failure_action("network glitch", true, true),
        DownloadFailureAction::RetryUrl
    );
    assert_eq!(
        download_failure_action("error: no such option --print", false, true),
        DownloadFailureAction::RetryWithoutPrint
    );
    assert_eq!(
        download_failure_action("error: no such option --print", false, false),
        DownloadFailureAction::Fail
    );
    assert_eq!(
        download_failure_action("unable to download video data", false, true),
        DownloadFailureAction::Fail
    );
}

#[test]
fn download_args_include_pacing_and_can_load_info_json() {
    let args = build_download_args(
        "22",
        "C:\\tmp\\dl.%(ext)s",
        false,
        DownloadSource::Url("https://youtu.be/abc"),
        true,
    );
    let joined = args.join(" ");
    assert!(joined.contains("--sleep-requests 1"));
    assert!(joined.contains("--sleep-interval 1"));
    assert!(joined.contains("--concurrent-fragments 1"));
    assert!(joined.contains("--limit-rate 8M"));
    assert!(joined.contains("--print after_move:filepath"));
    assert!(joined.contains("https://youtu.be/abc"));

    let cached = build_download_args(
        "140",
        "C:\\tmp\\dl.%(ext)s",
        true,
        DownloadSource::InfoJson("C:\\cache\\info.json"),
        false,
    );
    let cached_joined = cached.join(" ");
    assert!(cached_joined.contains("--load-info-json"));
    assert!(!cached_joined.contains("--print"));
    assert!(!cached_joined.contains("--merge-output-format"));
}

#[test]
fn fetch_args_include_pacing() {
    let args = build_fetch_args("https://youtu.be/abc");
    let joined = args.join(" ");
    assert!(joined.starts_with("--dump-single-json"));
    assert!(joined.contains("--sleep-requests 1"));
    assert!(joined.contains("--retry-sleep exp=1:120"));
    assert!(joined.ends_with("https://youtu.be/abc"));
}
