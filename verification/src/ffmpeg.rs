//! The FFmpeg command lines of the trimming and audio extraction jobs, and
//! what is read from an FFprobe report.
use vstd::prelude::*;
use crate::text::{ends_with, eq_ignore_ascii_case, lower_seq, str_eq};
use crate::args::{extend_args, views};

verus! {

/// Arguments that cut `duration_text` seconds from `start_text` on: stream
/// copy, or H.264/AAC re-encoding with the index up front.
pub open spec fn trim_args_spec(
    input: Seq<char>,
    output: Seq<char>,
    start_text: Seq<char>,
    duration_text: Seq<char>,
    reencode: bool,
) -> Seq<Seq<char>> {
    seq![
        "-y"@,
        "-hide_banner"@,
        "-loglevel"@,
        "info"@,
        "-ss"@,
        start_text,
        "-i"@,
        input,
        "-t"@,
        duration_text,
    ] + (if reencode {
        seq![
            "-c:v"@,
            "libx264"@,
            "-preset"@,
            "fast"@,
            "-crf"@,
            "23"@,
            "-c:a"@,
            "aac"@,
            "-b:a"@,
            "192k"@,
            "-movflags"@,
            "+faststart"@,
        ]
    } else {
        seq!["-c"@, "copy"@, "-avoid_negative_ts"@, "make_zero"@]
    }) + seq![output]
}

/// A trim seeks with `-ss` to the start, reads `input` with `-i`, and keeps
/// `-t` the duration, in that order and the same way whether or not it
/// re-encodes; the output comes last.
pub proof fn law_trim_cuts_the_requested_part(
    input: Seq<char>,
    output: Seq<char>,
    start_text: Seq<char>,
    duration_text: Seq<char>,
    reencode: bool,
)
    ensures
        ({
            let a = trim_args_spec(input, output, start_text, duration_text, reencode);
            &&& a.len() > 10
            &&& a[4] == "-ss"@ && a[5] == start_text
            &&& a[6] == "-i"@ && a[7] == input
            &&& a[8] == "-t"@ && a[9] == duration_text
            &&& a.last() == output
        }),
        trim_args_spec(input, output, start_text, duration_text, true).take(10)
            == trim_args_spec(input, output, start_text, duration_text, false).take(10),
{
    let a = trim_args_spec(input, output, start_text, duration_text, true);
    let b = trim_args_spec(input, output, start_text, duration_text, false);
    assert(a.take(10) =~= b.take(10));
}

/// The FFmpeg arguments of a trim. The start and duration come already rendered.
pub fn trim_args(input: &str, output: &str, start_text: &str, duration_text: &str, reencode: bool) -> (r:
    Vec<String>)
    ensures
        views(r@) == trim_args_spec(input@, output@, start_text@, duration_text@, reencode),
{
    let mut args: Vec<String> = Vec::new();
    extend_args(&mut args, &["-y", "-hide_banner", "-loglevel", "info", "-ss"]);
    extend_args(&mut args, &[start_text, "-i", input, "-t", duration_text]);
    if reencode {
        extend_args(
            &mut args,
            &[
                "-c:v",
                "libx264",
                "-preset",
                "fast",
                "-crf",
                "23",
                "-c:a",
                "aac",
                "-b:a",
                "192k",
                "-movflags",
                "+faststart",
            ],
        );
    } else {
        extend_args(&mut args, &["-c", "copy", "-avoid_negative_ts", "make_zero"]);
    }
    extend_args(&mut args, &[output]);
    assert(views(args@) =~= trim_args_spec(input@, output@, start_text@, duration_text@, reencode));
    args
}

/// A stream-copied MP4 gets its index moved up front after the trim.
pub fn needs_faststart(reencode: bool, output: &str) -> (r: bool)
    ensures
        r == (!reencode && ".mp4"@.is_suffix_of(output@)),
{
    !reencode && ends_with(output, ".mp4")
}

/// The temporary file that the index pass writes next to `output`.
pub fn faststart_temp_path(output: &str) -> (r: String)
    ensures
        r@ == output@ + ".faststart.mp4"@,
{
    let mut r = String::from_str(output);
    r.append(".faststart.mp4");
    r
}

/// Arguments that copy `output` into `temp` with the index up front.
pub open spec fn faststart_args_spec(output: Seq<char>, temp: Seq<char>) -> Seq<Seq<char>> {
    seq![
        "-y"@,
        "-hide_banner"@,
        "-loglevel"@,
        "info"@,
        "-i"@,
        output,
        "-c"@,
        "copy"@,
        "-movflags"@,
        "+faststart"@,
        temp,
    ]
}

/// The index pass reads the trimmed file with `-i`, copies the streams, and
/// writes the temporary file last; that file is never the trimmed file itself.
pub proof fn law_faststart_copies_into_temp(output: Seq<char>)
    ensures
        ({
            let temp = output + ".faststart.mp4"@;
            let a = faststart_args_spec(output, temp);
            &&& a[4] == "-i"@ && a[5] == output
            &&& a[6] == "-c"@ && a[7] == "copy"@
            &&& a.last() == temp
            &&& temp != output
        }),
{
    let temp = output + ".faststart.mp4"@;
    assert(temp.len() > output.len()) by {
        reveal_strlit(".faststart.mp4");
    }
}

/// The FFmpeg arguments of the index pass.
pub fn faststart_args(output: &str, temp: &str) -> (r: Vec<String>)
    ensures
        views(r@) == faststart_args_spec(output@, temp@),
{
    let mut args: Vec<String> = Vec::new();
    extend_args(
        &mut args,
        &["-y", "-hide_banner", "-loglevel", "info", "-i", output, "-c", "copy", "-movflags"],
    );
    extend_args(&mut args, &["+faststart", temp]);
    assert(views(args@) =~= faststart_args_spec(output@, temp@));
    args
}

/// The extension as given, or `m4a` when the output has none.
pub open spec fn audio_ext(ext: Option<Seq<char>>) -> Seq<char> {
    match ext {
        Some(e) => e,
        None => "m4a"@,
    }
}

/// The audio codec for an output extension (compared in lower case):
/// LAME for MP3, 16-bit PCM for WAV, FLAC for FLAC, AAC otherwise.
pub open spec fn audio_codec_spec(ext: Seq<char>) -> Seq<char> {
    let lower = lower_seq(ext);
    if lower == "mp3"@ {
        "libmp3lame"@
    } else if lower == "wav"@ {
        "pcm_s16le"@
    } else if lower == "flac"@ {
        "flac"@
    } else {
        "aac"@
    }
}

/// The codec options for an output extension: MP3 at 44.1 kHz stereo, at
/// 320 kb/s when that quality is asked for and at the best variable quality
/// otherwise; AAC at 320 kb/s; none for WAV and FLAC.
pub open spec fn audio_codec_args_spec(ext: Seq<char>, mp3_quality: Option<Seq<char>>) -> Seq<
    Seq<char>,
> {
    let lower = lower_seq(ext);
    if lower == "mp3"@ {
        seq!["-ar"@, "44100"@, "-ac"@, "2"@] + if mp3_quality == Some("320"@) {
            seq!["-b:a"@, "320k"@]
        } else {
            seq!["-q:a"@, "0"@]
        }
    } else if lower == "wav"@ || lower == "flac"@ {
        Seq::empty()
    } else {
        seq!["-b:a"@, "320k"@]
    }
}

/// Arguments that extract the first audio track of `input` between the
/// rendered start and duration into `output`, with the codec chosen by
/// `ext` (forcing the MP3 container for MP3).
pub open spec fn extract_audio_args_spec(
    input: Seq<char>,
    output: Seq<char>,
    start_text: Seq<char>,
    duration_text: Seq<char>,
    ext: Option<Seq<char>>,
    mp3_quality: Option<Seq<char>>,
) -> Seq<Seq<char>> {
    let e = audio_ext(ext);
    seq![
        "-y"@,
        "-hide_banner"@,
        "-loglevel"@,
        "warning"@,
        "-i"@,
        input,
        "-ss"@,
        start_text,
        "-t"@,
        duration_text,
        "-vn"@,
        "-map"@,
        "0:a:0?"@,
        "-c:a"@,
        audio_codec_spec(e),
    ] + audio_codec_args_spec(e, mp3_quality) + (if lower_seq(e) == lower_seq("mp3"@) {
        seq!["-f"@, "mp3"@]
    } else {
        Seq::empty()
    }) + seq![output]
}

/// An audio extraction reads `input` with `-i`, then seeks with `-ss` to the
/// start and keeps `-t` the duration, drops the video with `-vn`, and writes
/// `output` last.
pub proof fn law_extract_takes_the_requested_part(
    input: Seq<char>,
    output: Seq<char>,
    start_text: Seq<char>,
    duration_text: Seq<char>,
    ext: Option<Seq<char>>,
    mp3_quality: Option<Seq<char>>,
)
    ensures
        ({
            let a = extract_audio_args_spec(input, output, start_text, duration_text, ext, mp3_quality);
            &&& a.len() > 15
            &&& a[4] == "-i"@ && a[5] == input
            &&& a[6] == "-ss"@ && a[7] == start_text
            &&& a[8] == "-t"@ && a[9] == duration_text
            &&& a[10] == "-vn"@
            &&& a.last() == output
        }),
{
}

/// The FFmpeg arguments of an audio extraction. `ext` is the output's
/// extension; Unicode and ASCII lower-casing agree on the extensions that
/// choose a codec, so ASCII lower-casing is used.
pub fn extract_audio_args(
    input: &str,
    output: &str,
    start_text: &str,
    duration_text: &str,
    ext: Option<&str>,
    mp3_quality: Option<&str>,
) -> (r: Vec<String>)
    ensures
        views(r@) == extract_audio_args_spec(
            input@,
            output@,
            start_text@,
            duration_text@,
            match ext {
                Some(e) => Some(e@),
                None => None,
            },
            match mp3_quality {
                Some(q) => Some(q@),
                None => None,
            },
        ),
{
    let e: &str = match ext {
        Some(x) => x,
        None => "m4a",
    };
    let is_mp3 = eq_ignore_ascii_case(e, "mp3");
    let is_wav = eq_ignore_ascii_case(e, "wav");
    let is_flac = eq_ignore_ascii_case(e, "flac");
    proof {
        reveal_strlit("mp3");
        reveal_strlit("wav");
        reveal_strlit("flac");
        assert(lower_seq("mp3"@) =~= "mp3"@);
        assert(lower_seq("wav"@) =~= "wav"@);
        assert(lower_seq("flac"@) =~= "flac"@);
    }
    let codec: &str = if is_mp3 {
        "libmp3lame"
    } else if is_wav {
        "pcm_s16le"
    } else if is_flac {
        "flac"
    } else {
        "aac"
    };
    let mut args: Vec<String> = Vec::new();
    extend_args(&mut args, &["-y", "-hide_banner", "-loglevel", "warning", "-i", input, "-ss"]);
    extend_args(
        &mut args,
        &[start_text, "-t", duration_text, "-vn", "-map", "0:a:0?", "-c:a", codec],
    );
    if is_mp3 {
        extend_args(&mut args, &["-ar", "44100", "-ac", "2"]);
        let q320 = match mp3_quality {
            Some(q) => str_eq(q, "320"),
            None => false,
        };
        if q320 {
            extend_args(&mut args, &["-b:a", "320k"]);
        } else {
            extend_args(&mut args, &["-q:a", "0"]);
        }
    } else if is_wav || is_flac {
    } else {
        extend_args(&mut args, &["-b:a", "320k"]);
    }
    if is_mp3 {
        extend_args(&mut args, &["-f", "mp3"]);
    }
    extend_args(&mut args, &[output]);
    assert(views(args@) =~= extract_audio_args_spec(
        input@,
        output@,
        start_text@,
        duration_text@,
        match ext {
            Some(x) => Some(x@),
            None => None,
        },
        match mp3_quality {
            Some(q) => Some(q@),
            None => None,
        },
    ));
    args
}

} // verus!
