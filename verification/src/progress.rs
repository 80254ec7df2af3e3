//! Reading progress from the output lines of yt-dlp and FFmpeg.
//!
//! The numbers in a line are floating point; this module finds and cuts out
//! their text, which the caller converts.
use vstd::prelude::*;
use crate::text::{char_vec, find, first_occurrence, has_sub, lemma_span_not, span_not, trim, trim_seq, contains};

verus! {

/// The non-blank text of a progress line, trimmed; `None` for a blank line.
pub fn progress_line_text(line: &str) -> (r: Option<&str>)
    ensures
        match r {
            Some(t) => t@ == trim_seq(line@) && t@.len() > 0,
            None => trim_seq(line@).len() == 0,
        },
{
    let t = trim(line);
    if t.unicode_len() == 0 {
        None
    } else {
        Some(t)
    }
}

/// The pattern of a yt-dlp download-progress line; its first group is the
/// percentage.
pub const DOWNLOAD_PERCENT_PATTERN: &'static str = r"\[download\]\s+(\d+(?:\.\d+)?)%";

/// The text of the first group of the first match of the regular expression
/// `pattern` in `text`, as the `regex` crate finds it (`None` when the
/// pattern does not compile, nothing matches, or the group takes no part).
pub uninterp spec fn regex_group1(pattern: Seq<char>, text: Seq<char>) -> Option<Seq<char>>;

/// Runs the `regex` crate's `Regex::new` on `pattern`, then `Regex::captures`
/// on `text`, and returns the text of group 1 (`Captures::get(1)`). The
/// contract claims only that the result is the named value of the two texts.
#[verifier::external_body]
fn capture_group1(pattern: &str, text: &str) -> (r: Option<String>)
    ensures
        match r {
            Some(t) => regex_group1(pattern@, text@) == Some(t@),
            None => regex_group1(pattern@, text@) is None,
        },
{
    match regex::Regex::new(pattern) {
        Ok(re) => match re.captures(text) {
            Some(caps) => match caps.get(1) {
                Some(m) => Some(m.as_str().to_string()),
                None => None,
            },
            None => None,
        },
        Err(_) => None,
    }
}

/// What a yt-dlp output line reports.
pub enum YtDlpLine {
    /// Download progress, with the percentage's text.
    Percent(String),
    /// Audio and video are being merged.
    Merging,
    /// Audio is being extracted.
    ExtractingAudio,
    /// Nothing about progress.
    Other,
}

/// What a yt-dlp line reports, given the captured percentage text: the
/// percentage first, then a merge, then an audio extraction.
pub open spec fn ytdlp_line_spec(capture: Option<Seq<char>>, line: Seq<char>, r: YtDlpLine) -> bool {
    match capture {
        Some(c) => r matches YtDlpLine::Percent(t) && t@ == c,
        None => if has_sub(line, "[Merger]"@) {
            r is Merging
        } else if has_sub(line, "[ExtractAudio]"@) {
            r is ExtractingAudio
        } else {
            r is Other
        },
    }
}

/// Classifies a yt-dlp line whose percentage capture is `capture`.
pub fn classify_ytdlp_capture(capture: Option<String>, line: &str) -> (r: YtDlpLine)
    ensures
        ytdlp_line_spec(
            match capture {
                Some(c) => Some(c@),
                None => None,
            },
            line@,
            r,
        ),
{
    match capture {
        Some(c) => YtDlpLine::Percent(c),
        None => if contains(line, "[Merger]") {
            YtDlpLine::Merging
        } else if contains(line, "[ExtractAudio]") {
            YtDlpLine::ExtractingAudio
        } else {
            YtDlpLine::Other
        },
    }
}

/// Classifies a yt-dlp output line.
pub fn classify_ytdlp_line(line: &str) -> (r: YtDlpLine)
    ensures
        ytdlp_line_spec(regex_group1(DOWNLOAD_PERCENT_PATTERN@, line@), line@, r),
{
    let capture = capture_group1(DOWNLOAD_PERCENT_PATTERN, line);
    classify_ytdlp_capture(capture, line)
}

/// A character of an FFmpeg time stamp: a digit, a colon or a full stop.
pub open spec fn is_time_char(c: char) -> bool {
    c == ':' || c == '.' || ('0' <= c && c <= '9')
}

/// A colon.
pub open spec fn is_colon(c: char) -> bool {
    c == ':'
}

/// The colon-separated fields of `t` (`str::split(':')`).
pub open spec fn colon_fields(t: Seq<char>) -> Seq<Seq<char>>
    decreases t.len(),
{
    let k = span_not(t, |c: char| is_colon(c)) as int;
    if k >= t.len() {
        seq![t]
    } else {
        seq![t.take(k)] + colon_fields(t.skip(k + 1))
    }
}

/// The time stamp after the first `time=` of an FFmpeg line: the longest run
/// of digits, colons and full stops that follows.
pub open spec fn ffmpeg_time_token(line: Seq<char>) -> Option<Seq<char>> {
    match first_occurrence(line, "time="@) {
        Some(i) => {
            let rest = line.skip(i + 5);
            Some(rest.take(span_not(rest, |c: char| !is_time_char(c)) as int))
        },
        None => None,
    }
}

/// The fields of the time stamp in an FFmpeg line, when it has one to three
/// of them (hours, minutes, seconds from the right).
pub open spec fn ffmpeg_time_fields_spec(line: Seq<char>) -> Option<Seq<Seq<char>>> {
    match ffmpeg_time_token(line) {
        Some(t) => if colon_fields(t).len() <= 3 {
            Some(colon_fields(t))
        } else {
            None
        },
        None => None,
    }
}

/// Splits `v[lo..hi]` at colons.
fn split_colons(text: &str, v: &Vec<char>, lo: usize, hi: usize) -> (r: Vec<String>)
    requires
        v@ == text@,
        lo <= hi <= v@.len(),
    ensures
        r@.map_values(|a: String| a@) == colon_fields(v@.subrange(lo as int, hi as int)),
    decreases hi - lo,
{
    let ghost t = v@.subrange(lo as int, hi as int);
    let mut k = lo;
    while k < hi && v[k] != ':'
        invariant
            lo <= k <= hi <= v@.len(),
            forall|i: int| lo <= i < k ==> !is_colon(#[trigger] v@[i]),
        decreases hi - k,
    {
        k = k + 1;
    }
    proof {
        let stop = |c: char| is_colon(c);
        assert forall|i: int| 0 <= i < k - lo implies !stop(#[trigger] t[i]) by {
            assert(t[i] == v@[lo + i]);
        }
        if k < hi {
            assert(t[k - lo] == v@[k as int]);
        }
        lemma_span_not(t, stop, k - lo);
    }
    let first = String::from_str(text.substring_char(lo, k));
    assert(first@ =~= t.take(k - lo));
    let mut r: Vec<String> = Vec::new();
    r.push(first);
    if k == hi {
        assert(r@.map_values(|a: String| a@) =~= seq![t]) by {
            assert(t.take(k - lo) =~= t);
        }
        return r;
    }
    let rest = split_colons(text, v, k + 1, hi);
    assert(t.skip(k - lo + 1) =~= v@.subrange(k + 1, hi as int));
    let mut rest = rest;
    r.append(&mut rest);
    assert(r@.map_values(|a: String| a@) =~= seq![t.take(k - lo)] + colon_fields(
        t.skip(k - lo + 1),
    ));
    r
}

/// The fields of the time stamp after `time=` in an FFmpeg line, if it has
/// one and at most three fields.
#[verifier::rlimit(40)]
pub fn ffmpeg_time_fields(line: &str) -> (r: Option<Vec<String>>)
    ensures
        match r {
            Some(fields) => ffmpeg_time_fields_spec(line@) == Some(
                fields@.map_values(|a: String| a@),
            ),
            None => ffmpeg_time_fields_spec(line@) is None,
        },
{
    let i = match find(line, "time=") {
        Some(i) => i,
        None => return None,
    };
    proof {
        reveal_strlit("time=");
        assert("time="@.len() == 5);
    }
    let v = char_vec(line);
    let n = v.len();
    let start = i + 5;
    let mut j = start;
    while j < n && (v[j] == ':' || v[j] == '.' || ('0' <= v[j] && v[j] <= '9'))
        invariant
            start <= j <= n == v@.len(),
            forall|k: int| start <= k < j ==> is_time_char(#[trigger] v@[k]),
        decreases n - j,
    {
        j = j + 1;
    }
    let ghost rest = line@.skip(start as int);
    proof {
        let stop = |c: char| !is_time_char(c);
        assert forall|k: int| 0 <= k < j - start implies !stop(#[trigger] rest[k]) by {
            assert(rest[k] == v@[start + k]);
        }
        if j < n {
            assert(rest[j - start] == v@[j as int]);
        }
        lemma_span_not(rest, stop, j - start);
        assert(rest.take(j - start) =~= v@.subrange(start as int, j as int));
        assert(ffmpeg_time_token(line@) == Some(v@.subrange(start as int, j as int)));
    }
    let fields = split_colons(line, &v, start, j);
    if fields.len() <= 3 {
        Some(fields)
    } else {
        None
    }
}

} // verus!
