use std::hash::{BuildHasher, BuildHasherDefault};
use std::collections::hash_map::DefaultHasher;
use std::time::Duration;
use video_trimmer::ffmpeg::{
    extract_audio_args, faststart_args, faststart_temp_path, needs_faststart, trim_args,
};
use video_trimmer::formats::{build_format_label, read_video_metadata, summarize_format, RawFormat};
use video_trimmer::job_control::{ChildPoll, JobController, WaitStep, CANCELLED_BY_USER};
use video_trimmer::models::{
    check_dependencies, export_result, read_probe_report, video_stream_details, ProbeStream,
};
use video_trimmer::process_util::{
    executable_candidates, finish_captured, finish_command, finish_uncaptured,
    format_command_failure, is_meaningless_stream,
};
use video_trimmer::progress::{
    classify_ytdlp_capture, classify_ytdlp_line, ffmpeg_time_fields, progress_line_text, YtDlpLine,
};
use video_trimmer::rate_limit::{
    classify, cooldown_secs_for, wait_until_allowed_step, CooldownStep, RateLimitKind,
    RateLimiter, BASE_COOLDOWN, MAX_COOLDOWN, MIN_SPACING,
};
use video_trimmer::text::{
    contains, ends_with, eq_ignore_ascii_case, find, starts_with, to_decimal, to_hex_padded,
    to_signed_decimal, trim,
};
use video_trimmer::ytdlp::{
    after_failed_attempt, after_failed_run, build_format_spec, build_preview_args, invalid_json_error,
    keeps_mp3_name, may_run_again, video_identity, cache_file_is_fresh, cache_key_for_url,
    cache_key_from_hash, check_fetch_output, days_from_civil, download_source,
    first_nonblank_line, is_outdated, is_print_compat_error, is_rate_limit_error,
    keeps_video_container, last_nonblank_line, parse_ytdlp_ymd, plan_post_process,
    stream_url_from_output, wants_mp3, DownloadAttempt, DownloadFailureAction, DownloadSource, DownloadStep,
    FoundFile, download_file_prefix, newest_download,
    PostProcess,
};

fn secs(s: u64) -> u64 {
    Duration::from_secs(s).as_nanos() as u64
}

#[test]
fn cooldown_table_doubles_then_caps() {
    let got: Vec<u64> = (1..=8).map(cooldown_secs_for).collect();
    assert_eq!(got, vec![60, 120, 240, 480, 900, 900, 900, 900]);
    assert_eq!(cooldown_secs_for(u32::MAX), 900);
}

#[test]
fn remaining_counts_down_with_the_clock() {
    let mut limiter = RateLimiter::new();
    let t0 = secs(10);
    limiter.record_rate_limit(t0);
    assert_eq!(limiter.remaining(t0 + secs(59)), secs(1));
    assert_eq!(limiter.remaining(t0 + secs(60)), 0);
    assert_eq!(limiter.remaining(t0 + secs(600)), 0);
    assert_eq!(limiter.consecutive_limits(), 1);
}

#[test]
fn success_after_long_streak_spaces_requests() {
    let mut limiter = RateLimiter::new();
    for _ in 0..7 {
        limiter.record_rate_limit(0);
    }
    assert_eq!(limiter.remaining(0), MAX_COOLDOWN);
    limiter.record_success(secs(1));
    assert_eq!(limiter.consecutive_limits(), 0);
    assert_eq!(limiter.remaining(secs(1)), MIN_SPACING);
    limiter.record_rate_limit(secs(2));
    assert_eq!(limiter.remaining(secs(2)), BASE_COOLDOWN);
}

#[test]
fn friendly_message_reads_the_limiter() {
    let mut limiter = RateLimiter::new();
    limiter.record_rate_limit(0);
    limiter.record_rate_limit(0);
    assert_eq!(
        limiter.friendly_message(secs(30)),
        "YouTube is rate limiting this machine. Try again in 2m."
    );
    assert_eq!(
        limiter.friendly_message(secs(500)),
        "YouTube is rate limiting this machine. Try again in 1m."
    );
}

#[test]
fn classify_ignores_case_and_prefers_hard() {
    assert_eq!(classify("TOO MANY REQUESTS"), Some(RateLimitKind::Hard));
    assert_eq!(classify("FORBIDDEN"), Some(RateLimitKind::Soft));
    assert_eq!(classify("403 then 429"), Some(RateLimitKind::Hard));
    assert_eq!(classify("HTTP Error 404"), None);
}

#[test]
fn cooldown_wait_announces_only_changes() {
    assert!(matches!(wait_until_allowed_step(true, secs(5), None), CooldownStep::Cancelled));
    assert!(matches!(wait_until_allowed_step(false, 0, Some(3)), CooldownStep::Ready));
    match wait_until_allowed_step(false, secs(47) + 5, None) {
        CooldownStep::Wait { message, shown_secs } => {
            assert_eq!(shown_secs, 47);
            assert_eq!(message.as_deref(), Some("Waiting 47s — YouTube cooldown"));
        }
        _ => panic!("expected a wait"),
    }
    match wait_until_allowed_step(false, secs(47), Some(47)) {
        CooldownStep::Wait { message, shown_secs } => {
            assert_eq!(shown_secs, 47);
            assert!(message.is_none());
        }
        _ => panic!("expected a wait"),
    }
}

#[test]
fn job_controller_cancel_stops_waiting() {
    let mut jobs: JobController<&str> = JobController::default();
    jobs.begin_job();
    assert!(!jobs.is_cancelled());
    jobs.set_child("child");
    assert!(matches!(jobs.wait_step::<i32>(Some(ChildPoll::Running)), WaitStep::Sleep));
    assert_eq!(jobs.cancel(), Some("child"));
    assert!(jobs.is_cancelled());
    match jobs.wait_step::<i32>(Some(ChildPoll::Exited(0))) {
        WaitStep::Done(Err(e)) => assert_eq!(e, CANCELLED_BY_USER),
        _ => panic!("expected the cancellation"),
    }
    jobs.begin_job();
    assert!(!jobs.is_cancelled());
    assert_eq!(jobs.take_child(), None);
}

#[test]
fn job_controller_reports_exit_and_errors() {
    let mut jobs: JobController<u8> = JobController::new();
    match jobs.wait_step::<i32>(None) {
        WaitStep::Done(Err(e)) => assert_eq!(e, "No active process to wait on"),
        _ => panic!("expected an error"),
    }
    jobs.set_child(7);
    match jobs.wait_step::<i32>(Some(ChildPoll::Failed("boom".to_string()))) {
        WaitStep::Done(Err(e)) => assert_eq!(e, "Failed while waiting for process: boom"),
        _ => panic!("expected an error"),
    }
    match jobs.wait_step::<i32>(Some(ChildPoll::Exited(3))) {
        WaitStep::Done(Ok(code)) => assert_eq!(code, 3),
        _ => panic!("expected the exit"),
    }
    jobs.clear_child();
    assert_eq!(jobs.take_child(), None);
}

#[test]
fn command_failure_prefers_stderr_then_stdout_then_code() {
    assert_eq!(format_command_failure("  boom \n", "out", Some(1)), "Command failed: boom");
    assert_eq!(format_command_failure(" NULL ", " partial ", Some(1)), "Command failed: partial");
    assert_eq!(format_command_failure("{}", "[]", Some(-2)), "Command failed with exit code -2");
    assert_eq!(format_command_failure("", "null", None), "Command failed");
    assert!(is_meaningless_stream("\u{3000} Null \t"));
    assert!(!is_meaningless_stream("nul"));
}

#[test]
fn finishing_runs() {
    assert_eq!(
        finish_command(true, true, "x".to_string(), "", Some(0)),
        Err(CANCELLED_BY_USER.to_string())
    );
    assert_eq!(finish_command(false, true, "x".to_string(), "e", Some(0)), Ok("x".to_string()));
    assert_eq!(
        finish_command(false, false, "x".to_string(), "e", Some(2)),
        Err("Command failed: e".to_string())
    );
    assert_eq!(
        finish_captured(false, "out".to_string(), "", Some(3)),
        Err("Command failed (exit Some(3)): out".to_string())
    );
    assert_eq!(
        finish_captured(false, "out".to_string(), "", None),
        Err("Command failed (exit None): out".to_string())
    );
    assert_eq!(
        finish_captured(false, "out".to_string(), "bad", Some(3)),
        Err("Command failed: bad".to_string())
    );
    assert_eq!(finish_uncaptured(true, Some(0)), Ok(()));
    assert_eq!(
        finish_uncaptured(false, Some(9)),
        Err("Command failed with exit code Some(9)".to_string())
    );
}

#[test]
fn executable_candidates_per_platform() {
    assert_eq!(executable_candidates("ffmpeg", true), vec!["ffmpeg.exe", "ffmpeg"]);
    assert_eq!(executable_candidates("ffmpeg", false), vec!["ffmpeg"]);
}

#[test]
fn dependency_report_lists_missing_tools() {
    let s = check_dependencies(false, true, false);
    assert!(!s.ffmpeg && s.ffprobe && !s.ytdlp);
    assert_eq!(
        s.messages,
        vec!["Install ffmpeg and add to PATH", "Install yt-dlp: pip install yt-dlp"]
    );
    assert!(check_dependencies(true, true, true).messages.is_empty());
    let r = export_result("out.mp4".to_string(), "trimmed_video");
    assert_eq!((r.output_path.as_str(), r.kind.as_str()), ("out.mp4", "trimmed_video"));
}

#[test]
fn first_video_stream_is_described() {
    let streams = vec![
        ProbeStream {
            codec_type: Some("audio".into()),
            width: None,
            height: None,
            codec_name: Some("aac".into()),
        },
        ProbeStream {
            codec_type: Some("video".into()),
            width: Some(1920),
            height: Some((1u64 << 32) + 1080),
            codec_name: Some("h264".into()),
        },
        ProbeStream {
            codec_type: Some("video".into()),
            width: Some(640),
            height: Some(480),
            codec_name: None,
        },
    ];
    assert_eq!(
        video_stream_details(&streams),
        (Some(1920), Some(1080), Some("h264".to_string()))
    );
    let audio_only = vec![ProbeStream {
        codec_type: Some("audio".into()),
        width: Some(1),
        height: Some(1),
        codec_name: None,
    }];
    assert_eq!(video_stream_details(&audio_only), (None, None, None));
}

#[test]
fn ffmpeg_trim_and_faststart_commands() {
    let copy = trim_args("in.mp4", "out.mp4", "00:05.000", "2.500", false);
    assert_eq!(
        copy,
        vec![
            "-y", "-hide_banner", "-loglevel", "info", "-ss", "00:05.000", "-i", "in.mp4", "-t",
            "2.500", "-c", "copy", "-avoid_negative_ts", "make_zero", "out.mp4"
        ]
    );
    let enc = trim_args("in.mp4", "out.mkv", "01:00:00.000", "1.000", true);
    assert_eq!(enc.len(), 23);
    assert_eq!(&enc[10..12], &["-c:v", "libx264"]);
    assert!(needs_faststart(false, "clip.mp4"));
    assert!(!needs_faststart(true, "clip.mp4"));
    assert!(!needs_faststart(false, "clip.mkv"));
    assert_eq!(faststart_temp_path("a.mp4"), "a.mp4.faststart.mp4");
    assert_eq!(
        faststart_args("a.mp4", "t.mp4"),
        vec!["-y", "-hide_banner", "-loglevel", "info", "-i", "a.mp4", "-c", "copy", "-movflags", "+faststart", "t.mp4"]
    );
}

#[test]
fn ffmpeg_audio_codecs_by_extension() {
    let mp3 = extract_audio_args("in", "o.MP3", "00:00.000", "3.000", Some("MP3"), Some("320"));
    assert_eq!(
        &mp3[13..],
        &["-c:a", "libmp3lame", "-ar", "44100", "-ac", "2", "-b:a", "320k", "-f", "mp3", "o.MP3"]
    );
    let vbr = extract_audio_args("in", "o.mp3", "s", "d", Some("mp3"), None);
    assert_eq!(&vbr[19..21], &["-q:a", "0"]);
    let wav = extract_audio_args("in", "o.wav", "s", "d", Some("wav"), Some("320"));
    assert_eq!(&wav[13..], &["-c:a", "pcm_s16le", "o.wav"]);
    let flac = extract_audio_args("in", "o.flac", "s", "d", Some("Flac"), None);
    assert_eq!(&flac[13..], &["-c:a", "flac", "o.flac"]);
    let none = extract_audio_args("in", "out", "s", "d", None, None);
    assert_eq!(&none[13..], &["-c:a", "aac", "-b:a", "320k", "out"]);
}

#[test]
fn progress_lines_are_cut_out() {
    assert_eq!(progress_line_text("  \t "), None);
    assert_eq!(progress_line_text("  a b  "), Some("a b"));
    match classify_ytdlp_line("[download]  42.5% of  10.00MiB at  1.00MiB/s ETA 00:05") {
        YtDlpLine::Percent(t) => assert_eq!(t, "42.5"),
        _ => panic!("expected a percentage"),
    }
    assert!(matches!(classify_ytdlp_line("[Merger] Merging formats"), YtDlpLine::Merging));
    assert!(matches!(classify_ytdlp_line("[ExtractAudio] Destination"), YtDlpLine::ExtractingAudio));
    assert!(matches!(classify_ytdlp_line("[download] 12.x%"), YtDlpLine::Other));
    assert!(matches!(classify_ytdlp_capture(None, "[Merger] x"), YtDlpLine::Merging));
    assert_eq!(
        ffmpeg_time_fields("frame=  100 fps= 30 q=28.0 size=    1024kB time=00:00:30.00 bitrate= 500kbits/s"),
        Some(vec!["00".to_string(), "00".to_string(), "30.00".to_string()])
    );
    assert_eq!(ffmpeg_time_fields("time=12.5 x"), Some(vec!["12.5".to_string()]));
    assert_eq!(ffmpeg_time_fields("time=1:2:3:4"), None);
    assert_eq!(ffmpeg_time_fields("no stamp"), None);
    assert_eq!(ffmpeg_time_fields("time=N/A"), Some(vec!["".to_string()]));
}

#[test]
fn calendar_days_are_consecutive() {
    assert_eq!(days_from_civil(2024, 2, 29) - days_from_civil(2024, 2, 28), 1);
    assert_eq!(days_from_civil(2024, 3, 1) - days_from_civil(2024, 2, 29), 1);
    assert_eq!(days_from_civil(2023, 3, 1) - days_from_civil(2023, 2, 28), 1);
    assert_eq!(days_from_civil(2000, 1, 1) - days_from_civil(1999, 12, 31), 1);
    assert_eq!(days_from_civil(2000, 1, 1), 10957);
    assert_eq!(days_from_civil(1969, 12, 31), -1);
    assert_eq!(days_from_civil(1900, 3, 1) - days_from_civil(1900, 2, 28), 1);
}

#[test]
fn version_dates_and_outdating() {
    assert_eq!(parse_ytdlp_ymd("v 1999.01.01 2024.13.01 +2024.02.29.1"), Some((2024, 2, 29)));
    assert_eq!(parse_ytdlp_ymd("2024.1"), None);
    assert_eq!(parse_ytdlp_ymd("2024.01.32"), None);
    assert_eq!(parse_ytdlp_ymd("99999999999.01.01"), None);
    let day = 86_400i64;
    let release = days_from_civil(2025, 1, 1) * day;
    assert!(!is_outdated("2025.01.01", release + 90 * day - 1));
    assert!(is_outdated("2025.01.01", release + 90 * day));
    assert!(is_outdated("2025.01.01", release + 1000 * day));
    assert!(!is_outdated("2025.01.01", -5));
}

#[test]
fn cache_keys_and_freshness() {
    let url = "https://youtu.be/abc";
    let h = BuildHasherDefault::<DefaultHasher>::default().hash_one(url);
    assert_eq!(cache_key_for_url(url), format!("{h:016x}.json"));
    assert_eq!(cache_key_from_hash(0xab), "00000000000000ab.json");
    assert_eq!(cache_key_from_hash(u64::MAX), "ffffffffffffffff.json");
    assert!(cache_file_is_fresh(10, 5, 0));
    assert!(cache_file_is_fresh(0, 100, 100));
    assert!(!cache_file_is_fresh(0, 101, 100));
    assert!(cache_file_is_fresh(-50, 50, 100));
    assert!(!cache_file_is_fresh(i128::MIN, i128::MAX, u128::MAX - 1));
    assert!(cache_file_is_fresh(i128::MIN, i128::MAX, u128::MAX));
}

#[test]
fn output_lines() {
    assert_eq!(first_nonblank_line("\n  \r\n  2025.01.01 \r\nnext"), Some("2025.01.01".to_string()));
    assert_eq!(first_nonblank_line(" \n\t"), None);
    assert_eq!(last_nonblank_line("a\n/tmp/dl_1.mp4\n\n  "), Some("/tmp/dl_1.mp4".to_string()));
    assert_eq!(last_nonblank_line(""), None);
    assert_eq!(stream_url_from_output("\nhttps://x/y\n"), Ok("https://x/y".to_string()));
    assert_eq!(stream_url_from_output("  \n"), Err("No stream URL returned".to_string()));
    assert!(check_fetch_output(" NuLL ").is_err());
    assert!(check_fetch_output("").is_err());
    assert!(check_fetch_output("{\"id\":1}").is_ok());
}

#[test]
fn retries_and_post_processing() {
    let first = DownloadAttempt { used_cache: true, with_print: true };
    let (a1, second) = after_failed_attempt(first, "error: no such option --print");
    assert_eq!(a1, DownloadFailureAction::RetryUrl);
    assert_eq!(second, DownloadAttempt { used_cache: false, with_print: true });
    let (a2, third) = after_failed_attempt(second, "error: no such option --print");
    assert_eq!(a2, DownloadFailureAction::RetryWithoutPrint);
    assert_eq!(third, DownloadAttempt { used_cache: false, with_print: false });
    let (a3, _) = after_failed_attempt(third, "error: no such option --print");
    assert_eq!(a3, DownloadFailureAction::Fail);
    assert!(is_print_compat_error("Unknown option --PRINT"));
    assert!(!is_print_compat_error("no such option --format"));
    assert!(is_rate_limit_error("HTTP Error 429"));
    assert!(!is_rate_limit_error("Cancelled by user after 429"));
    assert!(matches!(download_source(true, Some("c.json"), "u"), DownloadSource::InfoJson("c.json")));
    assert!(matches!(download_source(true, None, "u"), DownloadSource::Url("u")));
    assert!(matches!(download_source(false, Some("c.json"), "u"), DownloadSource::Url("u")));
    assert_eq!(build_format_spec("137", true, false), "137+bestaudio/best");
    assert_eq!(build_format_spec("140", true, true), "140");
    assert!(wants_mp3(Some("mp3")));
    assert!(!wants_mp3(Some("MP3")));
    assert!(!wants_mp3(None));
    assert_eq!(plan_post_process(true, false, false), PostProcess::ExtractAudio);
    assert_eq!(plan_post_process(false, true, true), PostProcess::ExtractAudio);
    assert_eq!(plan_post_process(false, true, false), PostProcess::TrimVideo);
    assert_eq!(plan_post_process(false, false, true), PostProcess::Move);
    assert!(keeps_video_container(Some("webm")));
    assert!(!keeps_video_container(Some("MP4")));
    assert!(!keeps_video_container(None));
}

#[test]
fn format_labels_and_summaries() {
    assert_eq!(
        build_format_label("137", "mp4", Some("1920x1080"), Some("30"), Some("4500"), Some("1080p"), false, true),
        "137 · mp4 · 1920x1080 · 30fps · 4500kbps · video-only (slower: merges audio) · 1080p"
    );
    assert_eq!(
        build_format_label("140", "m4a", Some("audio only"), None, Some("129"), None, true, false),
        "140 · m4a · 129kbps · audio"
    );
    let raw = RawFormat {
        format_id: Some("140".into()),
        ext: None,
        vcodec: Some("none".into()),
        acodec: Some("mp4a.40.2".into()),
        resolution: Some("audio only".into()),
        fps_text: None,
        tbr_text: Some("129.5".into()),
        filesize: None,
        filesize_approx: Some(42),
        format_note: None,
    };
    let s = summarize_format(&raw).unwrap();
    assert_eq!(s.ext, "unknown");
    assert!(s.audio_only && !s.video_only);
    assert_eq!(s.filesize, Some(42));
    assert_eq!(s.tbr_text.as_deref(), Some("129.5"));
    assert_eq!(s.fps_text, None);
    let nameless = RawFormat { format_id: None, ..raw };
    assert!(summarize_format(&nameless).is_none());
}

#[test]
fn text_helpers() {
    assert_eq!(trim("\u{a0}\u{2028} x y \u{205f}"), "x y");
    assert_eq!(trim("   "), "");
    assert!(contains("abc", ""));
    assert!(!contains("", "a"));
    assert_eq!(find("aXtime=time=", "time="), Some(2));
    assert!(ends_with("a.mp4", ".mp4"));
    assert!(starts_with("dl_42.mp4", "dl_42"));
    assert!(starts_with("x", ""));
    assert!(!starts_with("dl", "dl_"));
    assert_ne!(cache_key_from_hash(1), cache_key_from_hash(1 << 60));
    assert_eq!(cache_key_from_hash(u64::MAX), "ffffffffffffffff.json");
    assert!(!ends_with("mp4", ".mp4"));
    assert!(eq_ignore_ascii_case("NuLl", "null"));
    assert!(!eq_ignore_ascii_case("Ä", "ä"));
    assert_eq!(to_decimal(0), "0");
    assert_eq!(to_decimal(u64::MAX as u128), u64::MAX.to_string());
    assert_eq!(to_decimal(u128::MAX), u128::MAX.to_string());
    assert_eq!(to_signed_decimal(i64::MIN), i64::MIN.to_string());
    assert_eq!(to_hex_padded(255, 4), "00ff");
}

#[test]
fn download_runs_at_most_twice() {
    assert!(may_run_again(1, DownloadFailureAction::RetryUrl));
    assert!(may_run_again(1, DownloadFailureAction::RetryWithoutPrint));
    assert!(!may_run_again(2, DownloadFailureAction::RetryUrl));
    assert!(!may_run_again(1, DownloadFailureAction::Fail));
    assert!(!may_run_again(0, DownloadFailureAction::Cancelled));
    let first = DownloadAttempt { used_cache: true, with_print: true };
    let err = "error: no such option --print";
    let step = after_failed_run(1, first, err);
    let second = DownloadAttempt { used_cache: false, with_print: true };
    assert_eq!(step, DownloadStep::RunAgain { next: second, evict_cache: true });
    assert_eq!(after_failed_run(2, second, err), DownloadStep::GiveUp { evict_cache: false });
    assert_eq!(after_failed_run(2, first, err), DownloadStep::GiveUp { evict_cache: true });
    assert_eq!(after_failed_run(1, second, "Cancelled by user"), DownloadStep::StopWithError);
    assert_eq!(after_failed_run(1, second, "HTTP Error 429"), DownloadStep::StopRateLimited);
    assert_eq!(after_failed_run(1, second, "boom"), DownloadStep::StopWithError);
}

#[test]
fn preview_args_and_metadata_identity() {
    assert_eq!(
        build_preview_args("https://youtu.be/abc"),
        vec!["-f", "18/22/b[height<=720]/b", "--get-url", "--no-playlist", "--no-warnings", "https://youtu.be/abc"]
    );
    assert_eq!(invalid_json_error("expected value"), "Invalid yt-dlp JSON: expected value");
    assert_eq!(video_identity(true, Some("a".into()), None), Err("yt-dlp returned no video data.".to_string()));
    assert_eq!(
        video_identity(false, None, None),
        Ok(("unknown".to_string(), "Untitled".to_string()))
    );
    assert_eq!(
        video_identity(false, Some("id1".into()), Some("T".into())),
        Ok(("id1".to_string(), "T".to_string()))
    );
    assert!(keeps_mp3_name(Some("mp3")));
    assert!(!keeps_mp3_name(Some("MP3")));
    assert!(!keeps_mp3_name(None));
}

#[test]
fn metadata_is_read_from_ytdlp_json() {
    let json = r#"{"id":"abc","title":"Clip","duration":12.5,"thumbnail":"t.jpg",
        "formats":[{"format_id":"18","ext":"mp4","vcodec":"avc1","acodec":"mp4a",
        "resolution":"640x360","fps":29.97,"tbr":500,"filesize":1000},
        {"ext":"webm"},
        {"format_id":"140","vcodec":"none","filesize_approx":77,"format_note":"medium"}]}"#;
    let m = read_video_metadata(json).unwrap();
    assert_eq!((m.id.as_str(), m.title.as_str()), ("abc", "Clip"));
    assert_eq!(m.thumbnail.as_deref(), Some("t.jpg"));
    assert_eq!(m.duration_text.as_deref(), Some("12.5"));
    assert_eq!(m.formats.len(), 2);
    let f = &m.formats[0];
    assert_eq!((f.format_id.as_str(), f.ext.as_str()), ("18", "mp4"));
    assert_eq!(f.fps_text.as_deref(), Some("29.97"));
    assert_eq!(f.tbr_text.as_deref(), Some("500"));
    assert_eq!(f.filesize, Some(1000));
    assert!(!f.audio_only && !f.video_only);
    let a = &m.formats[1];
    assert_eq!((a.format_id.as_str(), a.ext.as_str()), ("140", "unknown"));
    assert!(a.audio_only);
    assert_eq!(a.filesize, Some(77));
    assert_eq!(a.format_note.as_deref(), Some("medium"));
}

#[test]
fn metadata_defaults_and_errors() {
    let m = read_video_metadata("{}").unwrap();
    assert_eq!((m.id.as_str(), m.title.as_str()), ("unknown", "Untitled"));
    assert!(m.formats.is_empty() && m.thumbnail.is_none() && m.duration_text.is_none());
    assert_eq!(read_video_metadata("null").err().unwrap(), "yt-dlp returned no video data.");
    let e = read_video_metadata("{oops").err().unwrap();
    assert!(e.starts_with("Invalid yt-dlp JSON: "), "{e}");
    assert!(e.len() > "Invalid yt-dlp JSON: ".len());
}

#[test]
fn probe_report_is_read() {
    let report = r#"{"streams":[{"codec_type":"audio","codec_name":"aac"},
        {"codec_type":"video","codec_name":"h264","width":1280,"height":720}],
        "format":{"duration":"61.500000","tags":{"title":"Holiday"}}}"#;
    let s = read_probe_report("/videos/a.mp4", report).unwrap();
    assert_eq!(s.path, "/videos/a.mp4");
    assert_eq!(s.duration_text.as_deref(), Some("61.500000"));
    assert_eq!((s.width, s.height), (Some(1280), Some(720)));
    assert_eq!(s.codec.as_deref(), Some("h264"));
    assert_eq!(s.title.as_deref(), Some("Holiday"));
    let untitled = read_probe_report("/videos/b.mkv", r#"{"format":{}}"#).unwrap();
    assert_eq!(untitled.title.as_deref(), Some("b.mkv"));
    assert_eq!((untitled.width, untitled.codec.clone()), (None, None));
    let e = read_probe_report("x", "not json").err().unwrap();
    assert!(e.starts_with("Invalid ffprobe JSON: "), "{e}");
}

#[test]
fn newest_download_file_is_found() {
    assert_eq!(download_file_prefix(1700000000123), "dl_1700000000123");
    let file = |name: &str, is_file: bool, modified: Option<i128>| FoundFile {
        name: Some(name.to_string()),
        is_file,
        modified,
    };
    let files = vec![
        file("dl_42.part", true, Some(5)),
        file("other.mp4", true, Some(100)),
        file("dl_42.mp4", true, Some(9)),
        file("dl_42.webm", true, Some(9)),
        file("dl_42", false, Some(50)),
        file("dl_42.m4a", true, None),
        FoundFile { name: None, is_file: true, modified: Some(99) },
    ];
    assert_eq!(newest_download(&files, 42), Some(2));
    assert_eq!(newest_download(&files, 7), None);
    assert_eq!(newest_download(&Vec::new(), 42), None);
}
