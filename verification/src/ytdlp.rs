//! Logic around the yt-dlp downloader: release-date checks, command lines,
//! cache keys, failure handling and format descriptions.
use vstd::prelude::*;
use crate::args::{push_arg, views};
use crate::rate_limit::{classify, classify_spec};
use crate::text::{
    char_vec, contains, contains_folded, eq_ignore_ascii_case, has_sub, hex_digits, is_white,
    is_white_char, lemma_span_not, lower_seq, parse_i32_at, parse_i32_spec, parse_u32_at,
    parse_u32_spec, span_not, starts_with, str_eq, to_decimal, to_hex_padded, trim, trim_seq,
    decimal,
};

verus! {

/// Days after its release from which a yt-dlp build counts as outdated.
pub const OUTDATED_AFTER_DAYS: i64 = 90;

/// A full stop.
pub open spec fn is_dot(c: char) -> bool {
    c == '.'
}

/// The release date in a single whitespace-free word, `YEAR.MONTH.DAY[.…]`:
/// the first three dot-separated fields parsed as `i32`, `u32`, `u32`, with
/// year ≥ 2000, month in 1..=12 and day in 1..=31.
pub open spec fn ymd_of_word(t: Seq<char>) -> Option<(i32, u32, u32)> {
    let a = span_not(t, |c: char| is_dot(c)) as int;
    if a == t.len() {
        None
    } else {
        let r1 = t.skip(a + 1);
        let b = span_not(r1, |c: char| is_dot(c)) as int;
        if b == r1.len() {
            None
        } else {
            let r2 = r1.skip(b + 1);
            let c = span_not(r2, |c: char| is_dot(c)) as int;
            match (parse_i32_spec(t.take(a)), parse_u32_spec(r1.take(b)), parse_u32_spec(r2.take(c))) {
                (Some(y), Some(m), Some(d)) => if y >= 2000 && 1 <= m <= 12 && 1 <= d <= 31 {
                    Some((y, m, d))
                } else {
                    None
                },
                _ => None,
            }
        }
    }
}

/// The release date of the first whitespace-separated word of `s` that holds one.
pub open spec fn ymd_in_text(s: Seq<char>) -> Option<(i32, u32, u32)>
    decreases s.len(),
{
    if s.len() == 0 {
        None
    } else if is_white(s[0]) {
        ymd_in_text(s.drop_first())
    } else {
        let k = span_not(s, |c: char| is_white(c)) as int;
        match ymd_of_word(s.take(k)) {
            Some(x) => Some(x),
            None => if k < s.len() {
                ymd_in_text(s.skip(k))
            } else {
                None
            },
        }
    }
}

/// The end of the run of characters in `v[lo..hi]` that starts at `lo` and
/// holds no full stop.
fn dot_end(v: &Vec<char>, lo: usize, hi: usize) -> (r: usize)
    requires
        lo <= hi <= v@.len(),
    ensures
        lo <= r <= hi,
        r - lo == span_not(v@.subrange(lo as int, hi as int), |c: char| is_dot(c)),
{
    let ghost stop = |c: char| is_dot(c);
    let mut k = lo;
    while k < hi && v[k] != '.'
        invariant
            lo <= k <= hi <= v@.len(),
            forall|i: int| lo <= i < k ==> !is_dot(#[trigger] v@[i]),
        decreases hi - k,
    {
        k = k + 1;
    }
    proof {
        let s = v@.subrange(lo as int, hi as int);
        assert forall|i: int| 0 <= i < k - lo implies !stop(#[trigger] s[i]) by {
            assert(s[i] == v@[lo + i]);
        }
        if k < hi {
            assert(s[k - lo] == v@[k as int]);
        }
        lemma_span_not(s, stop, k - lo);
    }
    k
}

/// The release date in the word `v[lo..hi]`.
fn ymd_of_word_at(v: &Vec<char>, lo: usize, hi: usize) -> (r: Option<(i32, u32, u32)>)
    requires
        lo <= hi <= v@.len(),
    ensures
        r == ymd_of_word(v@.subrange(lo as int, hi as int)),
{
    let ghost t = v@.subrange(lo as int, hi as int);
    let a = dot_end(v, lo, hi);
    if a == hi {
        return None;
    }
    let ghost r1 = t.skip(a - lo + 1);
    assert(r1 =~= v@.subrange(a + 1, hi as int));
    let b = dot_end(v, a + 1, hi);
    if b == hi {
        return None;
    }
    let ghost r2 = r1.skip(b - a);
    assert(r2 =~= v@.subrange(b + 1, hi as int));
    let c = dot_end(v, b + 1, hi);
    assert(t.take(a - lo) =~= v@.subrange(lo as int, a as int));
    assert(r1.take(b - a - 1) =~= v@.subrange(a + 1, b as int));
    assert(r2.take(c - b - 1) =~= v@.subrange(b + 1, c as int));
    let year = parse_i32_at(v, lo, a);
    let month = parse_u32_at(v, a + 1, b);
    let day = parse_u32_at(v, b + 1, c);
    match (year, month, day) {
        (Some(y), Some(m), Some(d)) => if y >= 2000 && 1 <= m && m <= 12 && 1 <= d && d <= 31 {
            Some((y, m, d))
        } else {
            None
        },
        _ => None,
    }
}

/// Finds a yt-dlp release date `YYYY.MM.DD` in a version text: the first
/// whitespace-separated word whose first three dot-separated fields parse as
/// a year from 2000 on, a month and a day.
pub fn parse_ytdlp_ymd(version: &str) -> (r: Option<(i32, u32, u32)>)
    ensures
        r == ymd_in_text(version@),
        r matches Some((y, m, d)) ==> 2000 <= y && 1 <= m <= 12 && 1 <= d <= 31,
{
    let v = char_vec(version);
    let n = v.len();
    let mut i: usize = 0;
    assert(v@.subrange(0, n as int) =~= v@);
    while i < n
        invariant
            n == v@.len(),
            v@ == version@,
            i <= n,
            ymd_in_text(version@) == ymd_in_text(v@.subrange(i as int, n as int)),
        decreases n - i,
    {
        let ghost s = v@.subrange(i as int, n as int);
        if is_white_char(v[i]) {
            assert(s[0] == v@[i as int]);
            assert(s.drop_first() =~= v@.subrange(i + 1, n as int));
            i = i + 1;
        } else {
            let mut j = i;
            while j < n && !is_white_char(v[j])
                invariant
                    i <= j <= n == v@.len(),
                    forall|k: int| i <= k < j ==> !is_white(#[trigger] v@[k]),
                decreases n - j,
            {
                j = j + 1;
            }
            proof {
                let stop = |c: char| is_white(c);
                assert forall|k: int| 0 <= k < j - i implies !stop(#[trigger] s[k]) by {
                    assert(s[k] == v@[i + k]);
                }
                if j < n {
                    assert(s[j - i] == v@[j as int]);
                }
                lemma_span_not(s, stop, j - i);
                assert(s.take(j - i) =~= v@.subrange(i as int, j as int));
                assert(s.skip(j - i) =~= v@.subrange(j as int, n as int));
                assert(s[0] == v@[i as int]);
            }
            let found = ymd_of_word_at(&v, i, j);
            if found.is_some() {
                return found;
            }
            if j == n {
                return None;
            }
            i = j;
        }
    }
    None
}

/// Unix day number of a proleptic Gregorian date (1970-01-01 is day 0),
/// by the era-of-400-years method; months start the year in March.
pub open spec fn days_from_civil_spec(year: int, month: int, day: int) -> int {
    let y = if month <= 2 {
        year - 1
    } else {
        year
    };
    let era = y / 400;
    let yoe = y - era * 400;
    let mp = if month > 2 {
        month - 3
    } else {
        month + 9
    };
    let doy = (153 * mp + 2) / 5 + day - 1;
    let doe = yoe * 365 + yoe / 4 - yoe / 100 + doy;
    era * 146097 + doe - 719468
}

/// Unix day number of a proleptic Gregorian date: 1970-01-01 is 0.
pub fn days_from_civil(year: i32, month: u32, day: u32) -> (r: i64)
    ensures
        r == days_from_civil_spec(year as int, month as int, day as int),
{
    let mut y: i64 = year as i64;
    let m: i64 = month as i64;
    let d: i64 = day as i64;
    if m <= 2 {
        y = y - 1;
    }
    let era: i64 = if y >= 0 {
        y / 400
    } else {
        -((-(y + 1)) / 400) - 1
    };
    assert(era == y / 400) by {
        if y < 0 {
            let q = (-(y + 1)) / 400;
            assert(q * 400 <= -(y + 1) < q * 400 + 400);
        }
    }
    let yoe: i64 = y - era * 400;
    let mp: i64 = if m > 2 {
        m - 3
    } else {
        m + 9
    };
    let doy: i64 = (153 * mp + 2) / 5 + d - 1;
    let doe: i64 = yoe * 365 + yoe / 4 - yoe / 100 + doy;
    era * 146097 + doe - 719468
}

/// Day numbers of dates with a 32-bit year and month and day within 1..=31
/// stay well inside 64 bits.
proof fn lemma_days_from_civil_bounded(year: int, month: int, day: int)
    requires
        i32::MIN <= year <= i32::MAX,
        1 <= month <= 12,
        1 <= day <= 31,
    ensures
        -1_000_000_000_000 <= days_from_civil_spec(year, month, day) <= 1_000_000_000_000,
{
}

/// A leap year of the proleptic Gregorian calendar.
pub open spec fn is_leap(year: int) -> bool {
    year % 4 == 0 && (year % 100 != 0 || year % 400 == 0)
}

/// The number of days in a month (1..=12) of a year.
pub open spec fn days_in_month(year: int, month: int) -> int {
    if month == 2 {
        if is_leap(year) {
            29
        } else {
            28
        }
    } else if month == 4 || month == 6 || month == 9 || month == 11 {
        30
    } else {
        31
    }
}

/// The day number of March 1 of `y`, relative to the method's origin.
spec fn march_first(y: int) -> int {
    let era = y / 400;
    let yoe = y - era * 400;
    era * 146097 + yoe * 365 + yoe / 4 - yoe / 100
}

/// Stepping from `k - 1` to `k` raises `k / d` by one exactly when `d` divides `k`.
proof fn lemma_div_step(k: int, d: int)
    requires
        1 <= k,
        1 <= d,
    ensures
        k / d - (k - 1) / d == if k % d == 0 {
            1int
        } else {
            0int
        },
{
    let q = (k - 1) / d;
    let r = (k - 1) % d;
    vstd::arithmetic::div_mod::lemma_fundamental_div_mod(k - 1, d);
    assert(0 <= r < d);
    if r == d - 1 {
        assert(k == (q + 1) * d + 0) by (nonlinear_arith)
            requires
                k - 1 == d * q + r,
                r == d - 1,
        ;
        vstd::arithmetic::div_mod::lemma_fundamental_div_mod_converse(k, d, q + 1, 0);
    } else {
        assert(k == q * d + (r + 1)) by (nonlinear_arith)
            requires
                k - 1 == d * q + r,
        ;
        vstd::arithmetic::div_mod::lemma_fundamental_div_mod_converse(k, d, q, r + 1);
    }
}

/// From March 1 of `y - 1` to March 1 of `y` there are 366 days when `y` is a
/// leap year (its February has 29 days) and 365 otherwise.
proof fn lemma_march_to_march(y: int)
    ensures
        march_first(y) - march_first(y - 1) == if is_leap(y) {
            366int
        } else {
            365int
        },
{
    let era = y / 400;
    let yoe = y - era * 400;
    vstd::arithmetic::div_mod::lemma_fundamental_div_mod(y, 400);
    assert(0 <= yoe < 400);
    vstd::arithmetic::div_mod::lemma_fundamental_div_mod_converse(y, 4, era * 100 + yoe / 4, yoe % 4);
    vstd::arithmetic::div_mod::lemma_fundamental_div_mod_converse(y, 100, era * 4 + yoe / 100, yoe % 100);
    vstd::arithmetic::div_mod::lemma_fundamental_div_mod_converse(y, 400, era, yoe);
    if yoe >= 1 {
        vstd::arithmetic::div_mod::lemma_fundamental_div_mod_converse(y - 1, 400, era, yoe - 1);
        lemma_div_step(yoe, 4);
        lemma_div_step(yoe, 100);
    } else {
        vstd::arithmetic::div_mod::lemma_fundamental_div_mod_converse(y - 1, 400, era - 1, 399);
    }
}

/// Consecutive days of the calendar have consecutive day numbers: the day
/// after a valid date (`1 <= day <= days_in_month(year, month)`) is numbered
/// one more, across month and year ends and leap days alike.
pub proof fn law_days_from_civil_counts_days(year: int, month: int, day: int)
    requires
        1 <= month <= 12,
        1 <= day <= days_in_month(year, month),
    ensures
        day < days_in_month(year, month) ==> days_from_civil_spec(year, month, day + 1)
            == days_from_civil_spec(year, month, day) + 1,
        day == days_in_month(year, month) && month < 12 ==> days_from_civil_spec(
            year,
            month + 1,
            1,
        ) == days_from_civil_spec(year, month, day) + 1,
        day == days_in_month(year, month) && month == 12 ==> days_from_civil_spec(year + 1, 1, 1)
            == days_from_civil_spec(year, month, day) + 1,
{
    if month == 2 {
        lemma_march_to_march(year);
    }
}

/// The Unix epoch, 1970-01-01, is day 0.
pub proof fn law_days_from_civil_epoch()
    ensures
        days_from_civil_spec(1970, 1, 1) == 0,
{
}

/// Whether a yt-dlp build whose version text is `version` is at least
/// `OUTDATED_AFTER_DAYS` days old at `now` (seconds since the Unix epoch).
pub open spec fn is_outdated_spec(version: Seq<char>, now_epoch_secs: int) -> bool {
    match ymd_in_text(version) {
        None => false,
        Some((y, m, d)) => {
            let version_days = days_from_civil_spec(y as int, m as int, d as int);
            let now_days = now_epoch_secs / 86400;
            now_days - version_days >= OUTDATED_AFTER_DAYS
        },
    }
}

/// Whether the yt-dlp build with this version text is outdated at `now_epoch_secs`;
/// a text without a release date never is.
pub fn is_outdated(version: &str, now_epoch_secs: i64) -> (r: bool)
    ensures
        r == is_outdated_spec(version@, now_epoch_secs as int),
{
    match parse_ytdlp_ymd(version) {
        None => false,
        Some((year, month, day)) => {
            let version_days = days_from_civil(year, month, day);
            let now_days: i64 = if now_epoch_secs >= 0 {
                now_epoch_secs / 86_400
            } else {
                -((-(now_epoch_secs + 1)) / 86_400) - 1
            };
            assert(now_days == now_epoch_secs / 86400) by {
                if now_epoch_secs < 0 {
                    let q = (-(now_epoch_secs + 1)) / 86400;
                    assert(q * 86400 <= -(now_epoch_secs + 1) < q * 86400 + 86400);
                }
            }
            proof {
                lemma_days_from_civil_bounded(year as int, month as int, day as int);
            }
            let diff: i64 = now_days - version_days;
            diff >= OUTDATED_AFTER_DAYS
        },
    }
}

/// Options that pace every yt-dlp request: sleep between requests and retry
/// with exponential back-off.
pub open spec fn pacing_args() -> Seq<Seq<char>> {
    seq![
        "--sleep-requests"@,
        "1"@,
        "--retries"@,
        "5"@,
        "--extractor-retries"@,
        "3"@,
        "--retry-sleep"@,
        "exp=1:120"@,
    ]
}

/// Options that pace downloads: sleep between them, one fragment at a time,
/// at most 8 MB/s.
pub open spec fn download_pacing_args() -> Seq<Seq<char>> {
    seq![
        "--sleep-interval"@,
        "1"@,
        "--max-sleep-interval"@,
        "5"@,
        "--concurrent-fragments"@,
        "1"@,
        "--limit-rate"@,
        "8M"@,
    ]
}

/// Appends the request pacing options.
fn push_pacing_args(args: &mut Vec<String>)
    ensures
        views(final(args)@) == views(old(args)@) + pacing_args(),
{
    push_arg(args, "--sleep-requests");
    push_arg(args, "1");
    push_arg(args, "--retries");
    push_arg(args, "5");
    push_arg(args, "--extractor-retries");
    push_arg(args, "3");
    push_arg(args, "--retry-sleep");
    push_arg(args, "exp=1:120");
    assert(views(args@) =~= views(old(args)@) + pacing_args());
}

/// Appends the download pacing options.
fn push_download_pacing_args(args: &mut Vec<String>)
    ensures
        views(final(args)@) == views(old(args)@) + download_pacing_args(),
{
    push_arg(args, "--sleep-interval");
    push_arg(args, "1");
    push_arg(args, "--max-sleep-interval");
    push_arg(args, "5");
    push_arg(args, "--concurrent-fragments");
    push_arg(args, "1");
    push_arg(args, "--limit-rate");
    push_arg(args, "8M");
    assert(views(args@) =~= views(old(args)@) + download_pacing_args());
}

/// The arguments that fetch the metadata of one video as JSON.
pub open spec fn fetch_args_spec(url: Seq<char>) -> Seq<Seq<char>> {
    seq!["--dump-single-json"@, "--no-playlist"@, "--no-warnings"@] + pacing_args() + seq![url]
}

/// A metadata fetch asks for one JSON document first and names the video's
/// address last.
pub proof fn law_fetch_names_the_video(url: Seq<char>)
    ensures
        fetch_args_spec(url)[0] == "--dump-single-json"@,
        fetch_args_spec(url).last() == url,
        fetch_args_spec(url).len() == 12,
{
}

/// The yt-dlp arguments that fetch the metadata of the video at `url`.
pub fn build_fetch_args(url: &str) -> (r: Vec<String>)
    ensures
        views(r@) == fetch_args_spec(url@),
{
    let mut args: Vec<String> = Vec::new();
    push_arg(&mut args, "--dump-single-json");
    push_arg(&mut args, "--no-playlist");
    push_arg(&mut args, "--no-warnings");
    push_pacing_args(&mut args);
    push_arg(&mut args, url);
    assert(views(args@) =~= fetch_args_spec(url@));
    args
}

/// Where a download takes the video from.
pub enum DownloadSource<'a> {
    /// The video's page.
    Url(&'a str),
    /// Metadata fetched earlier and saved to this file.
    InfoJson(&'a str),
}

/// The arguments that download with a given format selection into an output
/// template.
pub open spec fn download_args_spec(
    format_spec: Seq<char>,
    template: Seq<char>,
    audio_only: bool,
    source: DownloadSource,
    with_print: bool,
) -> Seq<Seq<char>> {
    pacing_args() + download_pacing_args() + seq![
        "-f"@,
        format_spec,
        "--no-playlist"@,
        "--no-warnings"@,
        "--newline"@,
        "--progress"@,
        "-o"@,
        template,
    ] + (if !audio_only {
        seq!["--merge-output-format"@, "mp4"@]
    } else {
        Seq::empty()
    }) + (if with_print {
        seq!["--print"@, "after_move:filepath"@]
    } else {
        Seq::empty()
    }) + match source {
        DownloadSource::Url(u) => seq![u@],
        DownloadSource::InfoJson(p) => seq!["--load-info-json"@, p@],
    }
}

/// Whatever the source and options, a download selects the given format:
/// `-f` and `format_spec` follow the sixteen pacing arguments; the output
/// template follows `-o`; the source comes last (the page URL, or
/// `--load-info-json` and the metadata file); merging into MP4 directly
/// follows the template unless the download is audio only; `--print` is asked
/// for when `with_print` holds.
pub proof fn law_download_selects_the_format(
    format_spec: Seq<char>,
    template: Seq<char>,
    audio_only: bool,
    source: DownloadSource,
    with_print: bool,
)
    ensures
        ({
            let a = download_args_spec(format_spec, template, audio_only, source, with_print);
            &&& a.len() > 24
            &&& a[16] == "-f"@ && a[17] == format_spec
            &&& a[22] == "-o"@ && a[23] == template
            &&& (source matches DownloadSource::Url(u) ==> a.last() == u@)
            &&& (source matches DownloadSource::InfoJson(p) ==> a.last() == p@ && a[a.len() - 2]
                == "--load-info-json"@)
            &&& (!audio_only ==> a[24] == "--merge-output-format"@ && a[25] == "mp4"@)
            &&& (with_print ==> a.contains("--print"@))
        }),
{
    let a = download_args_spec(format_spec, template, audio_only, source, with_print);
    let head = pacing_args() + download_pacing_args() + seq![
        "-f"@,
        format_spec,
        "--no-playlist"@,
        "--no-warnings"@,
        "--newline"@,
        "--progress"@,
        "-o"@,
        template,
    ];
    let merge = if !audio_only {
        seq!["--merge-output-format"@, "mp4"@]
    } else {
        Seq::<Seq<char>>::empty()
    };
    let print = if with_print {
        seq!["--print"@, "after_move:filepath"@]
    } else {
        Seq::<Seq<char>>::empty()
    };
    let src = match source {
        DownloadSource::Url(u) => seq![u@],
        DownloadSource::InfoJson(p) => seq!["--load-info-json"@, p@],
    };
    assert(a == head + merge + print + src);
    assert(head.len() == 24);
    assert(head[16] == "-f"@);
    assert(head[17] == format_spec);
    assert(head[22] == "-o"@);
    assert(head[23] == template);
    if with_print {
        assert(a[24 + merge.len() as int] == "--print"@);
    }
}

/// The yt-dlp arguments of one download attempt: pacing, format selection,
/// progress output, output template, merging into MP4 unless audio only,
/// printing the final path when asked, and the source.
pub fn build_download_args(
    format_spec: &str,
    template_str: &str,
    audio_only: bool,
    source: DownloadSource,
    with_print: bool,
) -> (r: Vec<String>)
    ensures
        views(r@) == download_args_spec(format_spec@, template_str@, audio_only, source, with_print),
{
    let mut args: Vec<String> = Vec::new();
    push_pacing_args(&mut args);
    push_download_pacing_args(&mut args);
    push_arg(&mut args, "-f");
    push_arg(&mut args, format_spec);
    push_arg(&mut args, "--no-playlist");
    push_arg(&mut args, "--no-warnings");
    push_arg(&mut args, "--newline");
    push_arg(&mut args, "--progress");
    push_arg(&mut args, "-o");
    push_arg(&mut args, template_str);
    if !audio_only {
        push_arg(&mut args, "--merge-output-format");
        push_arg(&mut args, "mp4");
    }
    if with_print {
        push_arg(&mut args, "--print");
        push_arg(&mut args, "after_move:filepath");
    }
    match source {
        DownloadSource::Url(source_url) => {
            push_arg(&mut args, source_url);
        },
        DownloadSource::InfoJson(path) => {
            push_arg(&mut args, "--load-info-json");
            push_arg(&mut args, path);
        },
    }
    assert(views(args@) =~= download_args_spec(
        format_spec@,
        template_str@,
        audio_only,
        source,
        with_print,
    ));
    args
}

/// The yt-dlp format selection: a video-only format is merged with the best
/// audio track (or falls back to the best single file).
pub fn build_format_spec(format_id: &str, video_only: bool, audio_only: bool) -> (r: String)
    ensures
        r@ == if !audio_only && video_only {
            format_id@ + "+bestaudio/best"@
        } else {
            format_id@
        },
{
    if audio_only {
        String::from_str(format_id)
    } else if video_only {
        let mut r = String::from_str(format_id);
        r.append("+bestaudio/best");
        r
    } else {
        String::from_str(format_id)
    }
}

/// What to do after a download attempt failed.
#[derive(Debug, Clone, Copy, PartialEq, Eq, Structural)]
pub enum DownloadFailureAction {
    /// The user cancelled: stop.
    Cancelled,
    /// The service limits this machine: record it and stop.
    RateLimited,
    /// Cached metadata was used: drop it and retry from the page.
    RetryUrl,
    /// This yt-dlp does not know `--print`: retry without it.
    RetryWithoutPrint,
    /// Stop with the error.
    Fail,
}

/// The error says that yt-dlp does not know the `--print` option.
pub open spec fn print_compat_spec(err: Seq<char>) -> bool {
    let lower = lower_seq(err);
    has_sub(lower, "--print"@) || (has_sub(lower, "no such option"@) && has_sub(lower, "print"@))
}

/// Whether the error says that yt-dlp does not know the `--print` option.
pub fn is_print_compat_error(err: &str) -> (r: bool)
    ensures
        r == print_compat_spec(err@),
{
    contains_folded(err, "--print") || (contains_folded(err, "no such option") && contains_folded(
        err,
        "print",
    ))
}

/// The action for a failed download attempt, by priority: cancellation, rate
/// limit, stale cache, unknown `--print`, failure.
pub open spec fn failure_action_spec(err: Seq<char>, used_cache: bool, used_print: bool) -> DownloadFailureAction {
    if has_sub(err, "Cancelled"@) {
        DownloadFailureAction::Cancelled
    } else if classify_spec(err) is Some {
        DownloadFailureAction::RateLimited
    } else if used_cache {
        DownloadFailureAction::RetryUrl
    } else if used_print && print_compat_spec(err) {
        DownloadFailureAction::RetryWithoutPrint
    } else {
        DownloadFailureAction::Fail
    }
}

/// Decides what to do after a download attempt failed with `err`.
pub fn download_failure_action(err: &str, used_cache: bool, used_print: bool) -> (r:
    DownloadFailureAction)
    ensures
        r == failure_action_spec(err@, used_cache, used_print),
{
    if contains(err, "Cancelled") {
        return DownloadFailureAction::Cancelled;
    }
    if classify(err).is_some() {
        return DownloadFailureAction::RateLimited;
    }
    if used_cache {
        return DownloadFailureAction::RetryUrl;
    }
    if used_print && is_print_compat_error(err) {
        return DownloadFailureAction::RetryWithoutPrint;
    }
    DownloadFailureAction::Fail
}

/// How a download attempt is run.
#[derive(Debug, Clone, Copy, PartialEq, Eq, Structural)]
pub struct DownloadAttempt {
    /// Take the video from cached metadata.
    pub used_cache: bool,
    /// Ask yt-dlp to print the final path.
    pub with_print: bool,
}

/// How the attempt after a failure runs: without the cache after a stale
/// cache, without `--print` after an unknown `--print`, unchanged otherwise.
pub open spec fn next_attempt_spec(attempt: DownloadAttempt, action: DownloadFailureAction) -> DownloadAttempt {
    match action {
        DownloadFailureAction::RetryUrl => DownloadAttempt { used_cache: false, ..attempt },
        DownloadFailureAction::RetryWithoutPrint => DownloadAttempt { with_print: false, ..attempt },
        _ => attempt,
    }
}

/// After a failed attempt: the action, and how the next attempt runs.
pub fn after_failed_attempt(attempt: DownloadAttempt, err: &str) -> (r: (
    DownloadFailureAction,
    DownloadAttempt,
))
    ensures
        r.0 == failure_action_spec(err@, attempt.used_cache, attempt.with_print),
        r.1 == next_attempt_spec(attempt, r.0),
{
    let action = download_failure_action(err, attempt.used_cache, attempt.with_print);
    let next = match action {
        DownloadFailureAction::RetryUrl => DownloadAttempt {
            used_cache: false,
            with_print: attempt.with_print,
        },
        DownloadFailureAction::RetryWithoutPrint => DownloadAttempt {
            used_cache: attempt.used_cache,
            with_print: false,
        },
        _ => attempt,
    };
    (action, next)
}

/// The number of options a retry can still drop.
pub open spec fn retry_budget(a: DownloadAttempt) -> nat {
    (if a.used_cache {
        1nat
    } else {
        0nat
    }) + (if a.with_print {
        1nat
    } else {
        0nat
    })
}

/// A retry is decided.
pub open spec fn is_retry(action: DownloadFailureAction) -> bool {
    action == DownloadFailureAction::RetryUrl || action == DownloadFailureAction::RetryWithoutPrint
}

/// Every retry drops one option (the cache or `--print`), so no attempt is
/// repeated; how many runs a download makes is bounded by `may_run_again`.
pub proof fn law_retries_drop_an_option(attempt: DownloadAttempt, err: Seq<char>)
    ensures
        is_retry(failure_action_spec(err, attempt.used_cache, attempt.with_print)) ==> retry_budget(
            next_attempt_spec(attempt, failure_action_spec(err, attempt.used_cache, attempt.with_print)),
        ) + 1 == retry_budget(attempt),
{
}

/// Without options left to drop, a failure never leads to a retry.
pub proof fn law_no_retry_without_budget(attempt: DownloadAttempt, err: Seq<char>)
    requires
        retry_budget(attempt) == 0,
    ensures
        !is_retry(failure_action_spec(err, attempt.used_cache, attempt.with_print)),
{
}

/// The most runs of yt-dlp that one download makes.
pub const MAX_DOWNLOAD_RUNS: u32 = 2;

/// Whether another run follows a failed one: only after a retry action, and
/// only while fewer than `MAX_DOWNLOAD_RUNS` runs were made.
pub fn may_run_again(runs_done: u32, action: DownloadFailureAction) -> (r: bool)
    ensures
        r == (runs_done < MAX_DOWNLOAD_RUNS && is_retry(action)),
{
    runs_done < MAX_DOWNLOAD_RUNS && (action == DownloadFailureAction::RetryUrl || action
        == DownloadFailureAction::RetryWithoutPrint)
}

/// What the download loop does after a failed run of yt-dlp.
#[derive(Debug, Clone, Copy, PartialEq, Eq, Structural)]
pub enum DownloadStep {
    /// Run again as `next`; `evict_cache` asks to drop the cached metadata first.
    RunAgain { next: DownloadAttempt, evict_cache: bool },
    /// No run is left: stop with the last error, after dropping the cached
    /// metadata when `evict_cache` asks so.
    GiveUp { evict_cache: bool },
    /// Stop with the run's error (a cancellation or a plain failure).
    StopWithError,
    /// Stop: record the rate limit and answer with its message.
    StopRateLimited,
}

/// The step after the `runs_done`-th run (counting the failed one) failed with
/// `err`: a retry action runs again while fewer than `MAX_DOWNLOAD_RUNS` runs
/// were made, and a stale cache is dropped whether or not a run follows.
pub open spec fn download_step_spec(runs_done: nat, attempt: DownloadAttempt, err: Seq<char>) -> DownloadStep {
    let action = failure_action_spec(err, attempt.used_cache, attempt.with_print);
    let evict = action == DownloadFailureAction::RetryUrl;
    match action {
        DownloadFailureAction::Cancelled => DownloadStep::StopWithError,
        DownloadFailureAction::Fail => DownloadStep::StopWithError,
        DownloadFailureAction::RateLimited => DownloadStep::StopRateLimited,
        _ => if runs_done < MAX_DOWNLOAD_RUNS {
            DownloadStep::RunAgain { next: next_attempt_spec(attempt, action), evict_cache: evict }
        } else {
            DownloadStep::GiveUp { evict_cache: evict }
        },
    }
}

/// Decides the download loop's step after its `runs_done`-th run failed with `err`.
pub fn after_failed_run(runs_done: u32, attempt: DownloadAttempt, err: &str) -> (r: DownloadStep)
    ensures
        r == download_step_spec(runs_done as nat, attempt, err@),
{
    let (action, next) = after_failed_attempt(attempt, err);
    let evict_cache = action == DownloadFailureAction::RetryUrl;
    match action {
        DownloadFailureAction::Cancelled => DownloadStep::StopWithError,
        DownloadFailureAction::Fail => DownloadStep::StopWithError,
        DownloadFailureAction::RateLimited => DownloadStep::StopRateLimited,
        _ => if may_run_again(runs_done, action) {
            DownloadStep::RunAgain { next, evict_cache }
        } else {
            DownloadStep::GiveUp { evict_cache }
        },
    }
}

/// How many runs the download loop makes, `runs_done` runs having been made
/// before, when each further run fails with the next error of `errs` (and the
/// loop ends when `errs` runs out).
pub open spec fn failing_runs(attempt: DownloadAttempt, runs_done: nat, errs: Seq<Seq<char>>) -> nat
    decreases errs.len(),
{
    if errs.len() == 0 {
        runs_done
    } else {
        match download_step_spec(runs_done + 1, attempt, errs[0]) {
            DownloadStep::RunAgain { next, .. } => failing_runs(next, runs_done + 1, errs.drop_first()),
            _ => runs_done + 1,
        }
    }
}

/// The count of `failing_runs` from any state below the limit.
proof fn lemma_failing_runs_bounded(attempt: DownloadAttempt, runs_done: nat, errs: Seq<Seq<char>>)
    requires
        runs_done < MAX_DOWNLOAD_RUNS,
    ensures
        failing_runs(attempt, runs_done, errs) <= MAX_DOWNLOAD_RUNS,
        failing_runs(attempt, runs_done, errs) <= runs_done + 1 + retry_budget(attempt),
    decreases errs.len(),
{
    if errs.len() > 0 {
        law_retries_drop_an_option(attempt, errs[0]);
        match download_step_spec(runs_done + 1, attempt, errs[0]) {
            DownloadStep::RunAgain { next, .. } => {
                lemma_failing_runs_bounded(next, runs_done + 1, errs.drop_first());
            },
            _ => {},
        }
    }
}

/// However its runs fail, a download runs yt-dlp at most `MAX_DOWNLOAD_RUNS`
/// times, and at most once more than it has options to drop (the cache and
/// `--print`).
pub proof fn law_download_runs_bounded(attempt: DownloadAttempt, errs: Seq<Seq<char>>)
    ensures
        failing_runs(attempt, 0, errs) <= MAX_DOWNLOAD_RUNS,
        failing_runs(attempt, 0, errs) <= 1 + retry_budget(attempt),
{
    lemma_failing_runs_bounded(attempt, 0, errs);
}

/// The source of an attempt: the cached metadata file when the attempt uses
/// the cache and there is one, else the page.
pub fn download_source<'a>(used_cache: bool, cached_path: Option<&'a str>, url: &'a str) -> (r:
    DownloadSource<'a>)
    ensures
        r == match (used_cache, cached_path) {
            (true, Some(p)) => DownloadSource::InfoJson(p),
            _ => DownloadSource::Url(url),
        },
{
    if used_cache {
        match cached_path {
            Some(p) => DownloadSource::InfoJson(p),
            None => DownloadSource::Url(url),
        }
    } else {
        DownloadSource::Url(url)
    }
}

/// The arguments that ask yt-dlp for a preview stream address of at most 720p.
pub open spec fn preview_args_spec(url: Seq<char>) -> Seq<Seq<char>> {
    seq!["-f"@, "18/22/b[height<=720]/b"@, "--get-url"@, "--no-playlist"@, "--no-warnings"@, url]
}

/// A preview asks for a playable format's address (`--get-url`) of the video
/// named last.
pub proof fn law_preview_names_the_video(url: Seq<char>)
    ensures
        preview_args_spec(url)[0] == "-f"@,
        preview_args_spec(url)[2] == "--get-url"@,
        preview_args_spec(url).last() == url,
{
}

/// The yt-dlp arguments that print a preview stream address for `url`.
pub fn build_preview_args(url: &str) -> (r: Vec<String>)
    ensures
        views(r@) == preview_args_spec(url@),
{
    let mut args: Vec<String> = Vec::new();
    push_arg(&mut args, "-f");
    push_arg(&mut args, "18/22/b[height<=720]/b");
    push_arg(&mut args, "--get-url");
    push_arg(&mut args, "--no-playlist");
    push_arg(&mut args, "--no-warnings");
    push_arg(&mut args, url);
    assert(views(args@) =~= preview_args_spec(url@));
    args
}

/// The error for metadata that is not valid JSON, with the decoder's message.
pub fn invalid_json_error(detail: &str) -> (r: String)
    ensures
        r@ == "Invalid yt-dlp JSON: "@ + detail@,
{
    let mut r = String::from_str("Invalid yt-dlp JSON: ");
    r.append(detail);
    r
}

/// The id and title of a video from decoded metadata: a `null` document holds
/// no video; a missing id reads "unknown" and a missing title "Untitled".
pub fn video_identity(is_null: bool, id: Option<String>, title: Option<String>) -> (r: Result<
    (String, String),
    String,
>)
    ensures
        is_null ==> (r matches Err(e) && e@ == "yt-dlp returned no video data."@),
        !is_null ==> (r matches Ok((i, t)) && i@ == match id {
            Some(x) => x@,
            None => "unknown"@,
        } && t@ == match title {
            Some(x) => x@,
            None => "Untitled"@,
        }),
{
    if is_null {
        return Err(String::from_str("yt-dlp returned no video data."));
    }
    let i = match id {
        Some(x) => x,
        None => String::from_str("unknown"),
    };
    let t = match title {
        Some(x) => x,
        None => String::from_str("Untitled"),
    };
    Ok((i, t))
}

/// Whether an output file with this extension keeps its name for an MP3
/// conversion (only the exact extension "mp3" does).
pub fn keeps_mp3_name(ext: Option<&str>) -> (r: bool)
    ensures
        r == (ext matches Some(e) && e@ == "mp3"@),
{
    match ext {
        Some(e) => str_eq(e, "mp3"),
        None => false,
    }
}

/// Whether a metadata fetch error is a rate limit (and not a cancellation).
pub fn is_rate_limit_error(err: &str) -> (r: bool)
    ensures
        r == (!has_sub(err@, "Cancelled"@) && classify_spec(err@) is Some),
{
    !contains(err, "Cancelled") && classify(err).is_some()
}

/// Once outdated, a build stays outdated as time goes on.
pub proof fn law_outdated_stays_outdated(version: Seq<char>, t1: int, t2: int)
    requires
        t1 <= t2,
        is_outdated_spec(version, t1),
    ensures
        is_outdated_spec(version, t2),
{
    vstd::arithmetic::div_mod::lemma_div_is_ordered(t1, t2, 86400);
}

/// A text without a release date never makes a build outdated.
pub proof fn law_undated_never_outdated(version: Seq<char>, now: int)
    requires
        ymd_in_text(version) is None,
    ensures
        !is_outdated_spec(version, now),
{
}

/// The name every file of the download stamped `stamp` starts with:
/// `dl_` and the stamp in decimal.
pub fn download_file_prefix(stamp: u128) -> (r: String)
    ensures
        r@ == "dl_"@ + decimal(stamp as nat),
{
    let mut r = String::from_str("dl_");
    let digits = to_decimal(stamp);
    r.append(digits.as_str());
    r
}

/// A file found in the download directory: its name (when readable as text),
/// whether it is a regular file, and its modification time in nanoseconds from
/// the Unix epoch (when known).
pub struct FoundFile {
    pub name: Option<String>,
    pub is_file: bool,
    pub modified: Option<i128>,
}

/// A found file is a candidate for the download: a regular file with a known
/// modification time whose name starts with `prefix`.
pub open spec fn is_download_candidate(f: FoundFile, prefix: Seq<char>) -> bool {
    &&& f.name matches Some(n) && prefix.is_prefix_of(n@)
    &&& f.is_file
    &&& f.modified is Some
}

/// The newest candidate: none when there is no candidate; else a candidate
/// modified no earlier than any other, and strictly later than every
/// candidate before it.
pub open spec fn is_newest_download(files: Seq<FoundFile>, prefix: Seq<char>, r: Option<usize>) -> bool {
    match r {
        None => forall|j: int| 0 <= j < files.len() ==> !is_download_candidate(#[trigger] files[j], prefix),
        Some(k) => {
            &&& k < files.len()
            &&& is_download_candidate(files[k as int], prefix)
            &&& forall|j: int|
                0 <= j < files.len() && is_download_candidate(#[trigger] files[j], prefix)
                    ==> files[j].modified->0 <= files[k as int].modified->0
            &&& forall|j: int|
                0 <= j < k && is_download_candidate(#[trigger] files[j], prefix)
                    ==> files[j].modified->0 < files[k as int].modified->0
        },
    }
}

/// The position of the newest file of the download stamped `stamp` among the
/// files found in the download directory.
pub fn newest_download(files: &Vec<FoundFile>, stamp: u128) -> (r: Option<usize>)
    ensures
        is_newest_download(files@, "dl_"@ + decimal(stamp as nat), r),
{
    let prefix = download_file_prefix(stamp);
    let ghost p = prefix@;
    let mut best: Option<usize> = None;
    let mut i: usize = 0;
    while i < files.len()
        invariant
            i <= files@.len(),
            p == prefix@,
            is_newest_download(files@.take(i as int), p, best),
        decreases files@.len() - i,
    {
        let f = &files[i];
        let candidate = match (&f.name, f.modified) {
            (Some(n), Some(_)) => f.is_file && starts_with(n.as_str(), prefix.as_str()),
            _ => false,
        };
        assert(candidate == is_download_candidate(files@[i as int], p));
        let ghost old_best = best;
        if candidate {
            let t = match f.modified {
                Some(t) => t,
                None => 0,
            };
            match best {
                None => best = Some(i),
                Some(b) => {
                    let bt = match files[b].modified {
                        Some(x) => x,
                        None => 0,
                    };
                    if t > bt {
                        best = Some(i);
                    }
                },
            }
        }
        proof {
            let before = files@.take(i as int);
            let after = files@.take(i + 1);
            assert forall|j: int| 0 <= j < i implies after[j] == before[j] by {}
            assert(after[i as int] == files@[i as int]);
            match old_best {
                None => {
                    assert forall|j: int| 0 <= j < i implies !is_download_candidate(
                        #[trigger] after[j],
                        p,
                    ) by {
                        assert(after[j] == before[j]);
                    }
                },
                Some(b) => {
                    assert(after[b as int] == before[b as int]);
                },
            }
            match best {
                None => {
                    assert forall|j: int| 0 <= j < i + 1 implies !is_download_candidate(
                        #[trigger] after[j],
                        p,
                    ) by {
                        if j < i {
                            assert(after[j] == before[j]);
                        }
                    }
                },
                Some(k) => {
                    assert(after[k as int] == files@[k as int]);
                    assert forall|j: int|
                        0 <= j < after.len() && is_download_candidate(#[trigger] after[j], p)
                            implies after[j].modified->0 <= after[k as int].modified->0 by {
                        if j < i {
                            assert(after[j] == before[j]);
                        }
                    }
                    assert forall|j: int|
                        0 <= j < k && is_download_candidate(#[trigger] after[j], p)
                            implies after[j].modified->0 < after[k as int].modified->0 by {
                        if j < i {
                            assert(after[j] == before[j]);
                        }
                    }
                },
            }
        }
        i = i + 1;
    }
    assert(files@.take(files@.len() as int) =~= files@);
    best
}

/// How long fetched metadata stays usable (3 hours, in nanoseconds).
pub const INFO_CACHE_TTL: u128 = 10_800_000_000_000;

/// The hash of a text by the standard library's unseeded `DefaultHasher`.
pub uninterp spec fn url_hash(url: Seq<char>) -> u64;

/// Hashes a text with `std::hash::DefaultHasher` (through `BuildHasher::hash_one`).
/// The contract claims only that the result is the named value of the text:
/// the same text always hashes to the same number in one build of the program.
#[verifier::external_body]
fn hash_url(url: &str) -> (h: u64)
    ensures
        h == url_hash(url@),
{
    std::hash::BuildHasher::hash_one(
        &std::hash::BuildHasherDefault::<std::collections::hash_map::DefaultHasher>::default(),
        url,
    )
}

/// The cache file name for a URL hash: sixteen lower-case hex digits and `.json`.
pub fn cache_key_from_hash(h: u64) -> (r: String)
    ensures
        r@ == hex_digits(h as nat, 16) + ".json"@,
{
    let mut r = to_hex_padded(h, 16);
    r.append(".json");
    r
}

/// The cache file name under which the metadata of `url` is kept.
pub fn cache_key_for_url(url: &str) -> (r: String)
    ensures
        r@ == hex_digits(url_hash(url@) as nat, 16) + ".json"@,
{
    cache_key_from_hash(hash_url(url))
}

/// Whether a cached file modified at `mtime` is still fresh at `now` (both
/// nanoseconds from the Unix epoch): a file from the future counts as fresh.
pub fn cache_file_is_fresh(mtime: i128, now: i128, ttl: u128) -> (r: bool)
    ensures
        r == (now < mtime || now - mtime <= ttl),
{
    if now < mtime {
        return true;
    }
    let age: u128 = if mtime >= 0 || now < 0 {
        (now - mtime) as u128
    } else {
        (now as u128) + ((-(mtime + 1)) as u128) + 1
    };
    age <= ttl
}

/// A file fresh at some time was fresh at every earlier time.
pub proof fn law_freshness_only_expires(mtime: int, now1: int, now2: int, ttl: int)
    requires
        now1 <= now2,
        now2 < mtime || now2 - mtime <= ttl,
    ensures
        now1 < mtime || now1 - mtime <= ttl,
{
}

/// A line break.
pub open spec fn is_newline(c: char) -> bool {
    c == '\n'
}

/// A text without a line break is one line: its last non-blank line is the
/// whole text trimmed, when that is not empty.
pub proof fn law_last_line_is_whole_line(s: Seq<char>)
    requires
        forall|i: int| 0 <= i < s.len() ==> s[i] != '\n',
        trim_seq(s).len() > 0,
    ensures
        last_nonblank_line_spec(s) == Some(trim_seq(s)),
{
    lemma_span_not(s, |c: char| is_newline(c), s.len() as int);
    assert(s.take(s.len() as int) =~= s);
}

/// A blank last line does not hide the line before it: the last non-blank
/// line of a non-blank line followed by a line break and blank text is that
/// line, trimmed.
pub proof fn law_last_line_skips_trailing_blank(line: Seq<char>, rest: Seq<char>)
    requires
        forall|i: int| 0 <= i < line.len() ==> line[i] != '\n',
        forall|i: int| 0 <= i < rest.len() ==> rest[i] != '\n',
        trim_seq(line).len() > 0,
        trim_seq(rest).len() == 0,
    ensures
        last_nonblank_line_spec(line + seq!['\n'] + rest) == Some(trim_seq(line)),
{
    let s = line + seq!['\n'] + rest;
    assert forall|i: int| 0 <= i < line.len() implies !is_newline(#[trigger] s[i]) by {
        assert(s[i] == line[i]);
    }
    assert(s[line.len() as int] == '\n');
    lemma_span_not(s, |c: char| is_newline(c), line.len() as int);
    assert(s.take(line.len() as int) =~= line);
    assert(s.skip(line.len() as int + 1) =~= rest);
    lemma_span_not(rest, |c: char| is_newline(c), rest.len() as int);
    assert(rest.take(rest.len() as int) =~= rest);
    assert(last_nonblank_line_spec(rest) is None);
    assert(last_nonblank_line_spec(s.skip(line.len() as int + 1)) is None);
}

/// The first line of `s` that is not blank once trimmed, trimmed.
pub open spec fn first_nonblank_line_spec(s: Seq<char>) -> Option<Seq<char>>
    decreases s.len(),
{
    let k = span_not(s, |c: char| is_newline(c)) as int;
    let line = trim_seq(s.take(k));
    if line.len() > 0 {
        Some(line)
    } else if k >= s.len() {
        None
    } else {
        first_nonblank_line_spec(s.skip(k + 1))
    }
}

/// A text without a line break is one line: its first non-blank line is the
/// whole text trimmed, when that is not empty. Only a line break ends a line.
pub proof fn law_first_line_is_whole_line(s: Seq<char>)
    requires
        forall|i: int| 0 <= i < s.len() ==> s[i] != '\n',
        trim_seq(s).len() > 0,
    ensures
        first_nonblank_line_spec(s) == Some(trim_seq(s)),
{
    lemma_span_not(s, |c: char| is_newline(c), s.len() as int);
    assert(s.take(s.len() as int) =~= s);
}

/// When the first line of a text is not blank, it is the text's first
/// non-blank line, trimmed, whatever follows the line break.
pub proof fn law_first_line_ends_at_line_break(line: Seq<char>, rest: Seq<char>)
    requires
        forall|i: int| 0 <= i < line.len() ==> line[i] != '\n',
        trim_seq(line).len() > 0,
    ensures
        first_nonblank_line_spec(line + seq!['\n'] + rest) == Some(trim_seq(line)),
{
    let s = line + seq!['\n'] + rest;
    assert forall|i: int| 0 <= i < line.len() implies !is_newline(#[trigger] s[i]) by {
        assert(s[i] == line[i]);
    }
    assert(s[line.len() as int] == '\n');
    lemma_span_not(s, |c: char| is_newline(c), line.len() as int);
    assert(s.take(line.len() as int) =~= line);
}

/// The last line of `s` that is not blank once trimmed, trimmed.
pub open spec fn last_nonblank_line_spec(s: Seq<char>) -> Option<Seq<char>>
    decreases s.len(),
{
    let k = span_not(s, |c: char| is_newline(c)) as int;
    let line = trim_seq(s.take(k));
    let rest = if k >= s.len() {
        None
    } else {
        last_nonblank_line_spec(s.skip(k + 1))
    };
    if rest is Some {
        rest
    } else if line.len() > 0 {
        Some(line)
    } else {
        None
    }
}

/// The end of the line of `v` that starts at `i`.
fn line_end(v: &Vec<char>, i: usize) -> (j: usize)
    requires
        i <= v@.len(),
    ensures
        i <= j <= v@.len(),
        j - i == span_not(v@.subrange(i as int, v@.len() as int), |c: char| is_newline(c)),
        j < v@.len() ==> v@[j as int] == '\n',
{
    let n = v.len();
    let mut j = i;
    while j < n && v[j] != '\n'
        invariant
            i <= j <= n == v@.len(),
            forall|k: int| i <= k < j ==> !is_newline(#[trigger] v@[k]),
        decreases n - j,
    {
        j = j + 1;
    }
    proof {
        let s = v@.subrange(i as int, n as int);
        let stop = |c: char| is_newline(c);
        assert forall|k: int| 0 <= k < j - i implies !stop(#[trigger] s[k]) by {
            assert(s[k] == v@[i + k]);
        }
        if j < n {
            assert(s[j - i] == v@[j as int]);
        }
        lemma_span_not(s, stop, j - i);
    }
    j
}

/// The first line of `text` that is not blank, trimmed (the first non-empty
/// item of `text.lines().map(str::trim)`).
pub fn first_nonblank_line(text: &str) -> (r: Option<String>)
    ensures
        r matches Some(line) ==> first_nonblank_line_spec(text@) == Some(line@),
        r is None ==> first_nonblank_line_spec(text@) is None,
{
    let v = char_vec(text);
    let n = v.len();
    let mut i: usize = 0;
    assert(v@.subrange(0, n as int) =~= v@);
    loop
        invariant
            n == v@.len(),
            v@ == text@,
            i <= n,
            first_nonblank_line_spec(text@) == first_nonblank_line_spec(
                v@.subrange(i as int, n as int),
            ),
        decreases n - i,
    {
        let ghost s = v@.subrange(i as int, n as int);
        let j = line_end(&v, i);
        let piece = text.substring_char(i, j);
        assert(piece@ =~= s.take(j - i));
        let t = trim(piece);
        if t.unicode_len() > 0 {
            return Some(String::from_str(t));
        }
        if j == n {
            return None;
        }
        assert(s.skip(j - i + 1) =~= v@.subrange(j + 1, n as int));
        i = j + 1;
    }
}

/// The last line of `text` that is not blank, trimmed (the last non-empty
/// item of `text.lines().map(str::trim)`).
pub fn last_nonblank_line(text: &str) -> (r: Option<String>)
    ensures
        r matches Some(line) ==> last_nonblank_line_spec(text@) == Some(line@),
        r is None ==> last_nonblank_line_spec(text@) is None,
{
    let v = char_vec(text);
    let n = v.len();
    let mut i: usize = 0;
    let mut best: Option<String> = None;
    assert(v@.subrange(0, n as int) =~= v@);
    loop
        invariant
            n == v@.len(),
            v@ == text@,
            i <= n,
            ({
                let rest = last_nonblank_line_spec(v@.subrange(i as int, n as int));
                last_nonblank_line_spec(text@) == if rest is Some {
                    rest
                } else {
                    match best {
                        Some(b) => Some(b@),
                        None => None,
                    }
                }
            }),
        decreases n - i,
    {
        let ghost s = v@.subrange(i as int, n as int);
        let j = line_end(&v, i);
        let piece = text.substring_char(i, j);
        assert(piece@ =~= s.take(j - i));
        let t = trim(piece);
        if t.unicode_len() > 0 {
            best = Some(String::from_str(t));
        }
        if j == n {
            return best;
        }
        assert(s.skip(j - i + 1) =~= v@.subrange(j + 1, n as int));
        i = j + 1;
    }
}

/// The stream address printed by yt-dlp: its first non-blank output line.
pub fn stream_url_from_output(output: &str) -> (r: Result<String, String>)
    ensures
        r matches Ok(u) ==> first_nonblank_line_spec(output@) == Some(u@),
        r matches Err(e) ==> first_nonblank_line_spec(output@) is None && e@
            == "No stream URL returned"@,
{
    match first_nonblank_line(output) {
        Some(line) => Ok(line),
        None => Err(String::from_str("No stream URL returned")),
    }
}

/// Rejects metadata output that holds no video: blank or `null` in any ASCII case.
pub fn check_fetch_output(output: &str) -> (r: Result<(), String>)
    ensures
        ({
            let t = trim_seq(output@);
            let empty = t.len() == 0 || lower_seq(t) == lower_seq("null"@);
            &&& (r is Ok <==> !empty)
            &&& (r matches Err(e) ==> e@
                == "yt-dlp returned no video data. The URL may be invalid or the video unavailable."@)
        }),
{
    let t = trim(output);
    if t.unicode_len() == 0 || eq_ignore_ascii_case(t, "null") {
        Err(
            String::from_str(
                "yt-dlp returned no video data. The URL may be invalid or the video unavailable.",
            ),
        )
    } else {
        Ok(())
    }
}

/// What follows a finished download.
#[derive(Debug, Clone, Copy, PartialEq, Eq, Structural)]
pub enum PostProcess {
    /// Re-encode the audio track (MP3 conversion, or an audio-only trim).
    ExtractAudio,
    /// Cut the video to the requested range.
    TrimVideo,
    /// Move the downloaded file into place.
    Move,
}

/// Whether the requested conversion is to MP3.
pub fn wants_mp3(convert_to: Option<&str>) -> (r: bool)
    ensures
        r == (convert_to matches Some(c) && c@ == "mp3"@),
{
    match convert_to {
        Some(c) => str_eq(c, "mp3"),
        None => false,
    }
}

/// Chooses what follows a download: audio processing for an MP3 conversion
/// or an audio-only trim, a video trim for other trims, a plain move otherwise.
pub fn plan_post_process(convert_mp3: bool, needs_trim: bool, audio_only: bool) -> (r: PostProcess)
    ensures
        r == if convert_mp3 || (needs_trim && audio_only) {
            PostProcess::ExtractAudio
        } else if needs_trim && !audio_only && !convert_mp3 {
            PostProcess::TrimVideo
        } else {
            PostProcess::Move
        },
{
    let needs_audio_processing = convert_mp3 || (needs_trim && audio_only);
    let needs_video_processing = needs_trim && !audio_only && !convert_mp3;
    if needs_audio_processing {
        PostProcess::ExtractAudio
    } else if needs_video_processing {
        PostProcess::TrimVideo
    } else {
        PostProcess::Move
    }
}

/// Whether an output file with this extension keeps its name for a video
/// download (MP4, MKV, WebM and MOV containers do).
pub fn keeps_video_container(ext: Option<&str>) -> (r: bool)
    ensures
        r == (ext matches Some(e) && (e@ == "mp4"@ || e@ == "mkv"@ || e@ == "webm"@ || e@
            == "mov"@)),
{
    match ext {
        Some(e) => str_eq(e, "mp4") || str_eq(e, "mkv") || str_eq(e, "webm") || str_eq(e, "mov"),
        None => false,
    }
}

} // verus!
