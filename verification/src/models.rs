//! Values handed to the user interface, and what is read from media reports.
use vstd::prelude::*;
use crate::text::str_eq;
use crate::formats::opt_view;

verus! {

/// Where an export was written and what kind of export it was.
pub struct ExportResult {
    pub output_path: String,
    pub kind: String,
}

/// Which external tools were found, with install hints for the missing ones.
pub struct DependencyStatus {
    pub ffmpeg: bool,
    pub ffprobe: bool,
    pub ytdlp: bool,
    pub messages: Vec<String>,
}

/// The install hints for the tools that are missing, in the order
/// ffmpeg, ffprobe, yt-dlp.
pub open spec fn install_hints(ffmpeg: bool, ffprobe: bool, ytdlp: bool) -> Seq<Seq<char>> {
    (if !ffmpeg {
        seq!["Install ffmpeg and add to PATH"@]
    } else {
        Seq::empty()
    }) + (if !ffprobe {
        seq!["Install ffprobe (included with ffmpeg)"@]
    } else {
        Seq::empty()
    }) + (if !ytdlp {
        seq!["Install yt-dlp: pip install yt-dlp"@]
    } else {
        Seq::empty()
    })
}

/// The dependency report for the tools found: each flag as found, and an
/// install hint for each missing tool.
pub fn check_dependencies(ffmpeg: bool, ffprobe: bool, ytdlp: bool) -> (r: DependencyStatus)
    ensures
        r.ffmpeg == ffmpeg,
        r.ffprobe == ffprobe,
        r.ytdlp == ytdlp,
        r.messages@.map_values(|m: String| m@) == install_hints(ffmpeg, ffprobe, ytdlp),
{
    let mut messages: Vec<String> = Vec::new();
    if !ffmpeg {
        messages.push(String::from_str("Install ffmpeg and add to PATH"));
    }
    if !ffprobe {
        messages.push(String::from_str("Install ffprobe (included with ffmpeg)"));
    }
    if !ytdlp {
        messages.push(String::from_str("Install yt-dlp: pip install yt-dlp"));
    }
    assert(messages@.map_values(|m: String| m@) =~= install_hints(ffmpeg, ffprobe, ytdlp));
    DependencyStatus { ffmpeg, ffprobe, ytdlp, messages }
}

/// The result of a finished export.
pub fn export_result(output_path: String, kind: &str) -> (r: ExportResult)
    ensures
        r.output_path@ == output_path@,
        r.kind@ == kind@,
{
    ExportResult { output_path, kind: String::from_str(kind) }
}

/// One stream of an FFprobe report, as read from it.
pub struct ProbeStream {
    pub codec_type: Option<String>,
    pub width: Option<u64>,
    pub height: Option<u64>,
    pub codec_name: Option<String>,
}

/// A stream of an FFprobe report as texts and numbers.
#[verifier::ext_equal]
pub struct ProbeStreamView {
    pub codec_type: Option<Seq<char>>,
    pub width: Option<u64>,
    pub height: Option<u64>,
    pub codec_name: Option<Seq<char>>,
}

impl View for ProbeStream {
    type V = ProbeStreamView;

    open spec fn view(&self) -> ProbeStreamView {
        ProbeStreamView {
            codec_type: opt_view(self.codec_type),
            width: self.width,
            height: self.height,
            codec_name: opt_view(self.codec_name),
        }
    }
}

/// The views of a list of streams.
pub open spec fn stream_views(v: Seq<ProbeStream>) -> Seq<ProbeStreamView> {
    v.map_values(|s: ProbeStream| s@)
}

/// The stream is a video stream.
pub open spec fn is_video_stream(s: ProbeStreamView) -> bool {
    s.codec_type == Some("video"@)
}

/// Width, height (cut to 32 bits) and codec name of a stream.
pub open spec fn stream_details(s: ProbeStreamView) -> (Option<u32>, Option<u32>, Option<Seq<char>>) {
    (
        match s.width {
            Some(w) => Some(w as u32),
            None => None,
        },
        match s.height {
            Some(h) => Some(h as u32),
            None => None,
        },
        s.codec_name,
    )
}

/// The position of the first video stream, if any.
pub open spec fn first_video_index(streams: Seq<ProbeStreamView>) -> Option<int> {
    if exists|k: int| 0 <= k < streams.len() && is_video_stream(#[trigger] streams[k]) {
        Some(
            choose|k: int|
                0 <= k < streams.len() && is_video_stream(streams[k]) && forall|j: int|
                    0 <= j < k ==> !is_video_stream(#[trigger] streams[j]),
        )
    } else {
        None
    }
}

/// Width, height and codec of the first video stream; all absent when there
/// is none.
pub open spec fn video_details_spec(streams: Seq<ProbeStreamView>) -> (
    Option<u32>,
    Option<u32>,
    Option<Seq<char>>,
) {
    match first_video_index(streams) {
        Some(k) => stream_details(streams[k]),
        None => (None, None, None),
    }
}

/// The view of a stream's details.
pub open spec fn details_view(r: (Option<u32>, Option<u32>, Option<String>)) -> (
    Option<u32>,
    Option<u32>,
    Option<Seq<char>>,
) {
    (r.0, r.1, opt_view(r.2))
}

/// Width, height and codec of the first video stream of a report; all absent
/// when there is none.
pub fn video_stream_details(streams: &Vec<ProbeStream>) -> (r: (Option<u32>, Option<u32>, Option<String>))
    ensures
        details_view(r) == video_details_spec(stream_views(streams@)),
{
    let ghost sv = stream_views(streams@);
    let mut i: usize = 0;
    while i < streams.len()
        invariant
            i <= streams@.len(),
            sv == stream_views(streams@),
            forall|j: int| 0 <= j < i ==> !is_video_stream(#[trigger] sv[j]),
        decreases streams@.len() - i,
    {
        let s = &streams[i];
        assert(sv[i as int] == s@);
        let is_video = match &s.codec_type {
            Some(t) => str_eq(t.as_str(), "video"),
            None => false,
        };
        if is_video {
            let width = match s.width {
                Some(w) => Some(#[verifier::truncate] (w as u32)),
                None => None,
            };
            let height = match s.height {
                Some(h) => Some(#[verifier::truncate] (h as u32)),
                None => None,
            };
            let codec = match &s.codec_name {
                Some(c) => Some(String::from_str(c.as_str())),
                None => None,
            };
            proof {
                assert(is_video_stream(sv[i as int]));
                let k = choose|k: int| 0 <= k < sv.len() && is_video_stream(sv[k])
                    && forall|j: int| 0 <= j < k ==> !is_video_stream(#[trigger] sv[j]);
                if k < i {
                    assert(!is_video_stream(sv[k]));
                }
                if k > i {
                    assert(!is_video_stream(sv[i as int]));
                }
            }
            return (width, height, codec);
        }
        i = i + 1;
    }
    (None, None, None)
}

/// What an FFprobe report holds for the library: the format's duration text,
/// its title tag, and the streams.
pub struct ProbeDoc {
    pub duration_text: Option<String>,
    pub title_tag: Option<String>,
    pub streams: Option<Vec<ProbeStream>>,
}

/// An FFprobe report as texts and numbers.
#[verifier::ext_equal]
pub struct ProbeDocView {
    pub duration_text: Option<Seq<char>>,
    pub title_tag: Option<Seq<char>>,
    pub streams: Option<Seq<ProbeStreamView>>,
}

impl View for ProbeDoc {
    type V = ProbeDocView;

    open spec fn view(&self) -> ProbeDocView {
        ProbeDocView {
            duration_text: opt_view(self.duration_text),
            title_tag: opt_view(self.title_tag),
            streams: match self.streams {
                Some(v) => Some(stream_views(v@)),
                None => None,
            },
        }
    }
}

/// Names what `decode_ffprobe_json` reads from an FFprobe report: the report,
/// or serde_json's error message.
pub uninterp spec fn probe_doc(text: Seq<char>) -> Result<ProbeDocView, Seq<char>>;

/// Decodes FFprobe's JSON report with `serde_json::from_str` and picks from the
/// `serde_json::Value` the texts `format.duration` and `format.tags.title` with
/// `as_str`, and of each entry of `streams` its `codec_type` and `codec_name`
/// with `as_str` and its `width` and `height` with `as_u64`. The contract
/// claims only that the report, or the error's message, is the named value of
/// the text.
#[verifier::external_body]
fn decode_ffprobe_json(report: &str) -> (r: Result<ProbeDoc, String>)
    ensures
        match r {
            Ok(d) => probe_doc(report@) == Ok::<ProbeDocView, Seq<char>>(d@),
            Err(e) => probe_doc(report@) == Err::<ProbeDocView, Seq<char>>(e@),
        },
{
    let json: serde_json::Value = serde_json::from_str(report).map_err(|e| e.to_string())?;
    let streams = json["streams"].as_array().map(|a| a.iter().map(|s| ProbeStream {
        codec_type: s["codec_type"].as_str().map(String::from),
        width: s["width"].as_u64(),
        height: s["height"].as_u64(),
        codec_name: s["codec_name"].as_str().map(String::from),
    }).collect());
    Ok(ProbeDoc {
        duration_text: json["format"]["duration"].as_str().map(String::from),
        title_tag: json["format"]["tags"]["title"].as_str().map(String::from),
        streams,
    })
}

/// The last component of a path, by the platform's path rules, with
/// `std::path::Path::file_name`. Nothing is claimed of it: which separators
/// count depends on the platform.
#[verifier::external_body]
fn file_name_of(path: &str) -> (r: Option<String>) {
    std::path::Path::new(path).file_name().and_then(|n| n.to_str()).map(String::from)
}

/// What is shown of a probed media file.
pub struct ProbeSummary {
    pub path: String,
    pub duration_text: Option<String>,
    pub width: Option<u32>,
    pub height: Option<u32>,
    pub codec: Option<String>,
    pub title: Option<String>,
}

/// A probed media file as texts and numbers.
#[verifier::ext_equal]
pub struct ProbeSummaryView {
    pub path: Seq<char>,
    pub duration_text: Option<Seq<char>>,
    pub width: Option<u32>,
    pub height: Option<u32>,
    pub codec: Option<Seq<char>>,
    pub title: Option<Seq<char>>,
}

impl View for ProbeSummary {
    type V = ProbeSummaryView;

    open spec fn view(&self) -> ProbeSummaryView {
        ProbeSummaryView {
            path: self.path@,
            duration_text: opt_view(self.duration_text),
            width: self.width,
            height: self.height,
            codec: opt_view(self.codec),
            title: opt_view(self.title),
        }
    }
}

/// What is shown of a media file from its report: the path, the duration
/// text, the first video stream's details, and the title tag or else the
/// file's name.
pub open spec fn probe_summary_spec(
    path: Seq<char>,
    file_name: Option<Seq<char>>,
    d: ProbeDocView,
) -> ProbeSummaryView {
    let details = match d.streams {
        Some(s) => video_details_spec(s),
        None => (None, None, None),
    };
    ProbeSummaryView {
        path,
        duration_text: d.duration_text,
        width: details.0,
        height: details.1,
        codec: details.2,
        title: match d.title_tag {
            Some(t) => Some(t),
            None => file_name,
        },
    }
}

/// What is shown of a probed file keeps its path and duration text; its title
/// is the title tag when there is one, and the file's name otherwise; with no
/// video stream there is no width, height or codec.
pub proof fn law_probe_summary_prefers_tag(path: Seq<char>, file_name: Option<Seq<char>>, d: ProbeDocView)
    ensures
        probe_summary_spec(path, file_name, d).path == path,
        probe_summary_spec(path, file_name, d).duration_text == d.duration_text,
        d.title_tag is Some ==> probe_summary_spec(path, file_name, d).title == d.title_tag,
        d.title_tag is None ==> probe_summary_spec(path, file_name, d).title == file_name,
        (match d.streams {
            Some(s) => forall|j: int| 0 <= j < s.len() ==> !is_video_stream(#[trigger] s[j]),
            None => true,
        }) ==> probe_summary_spec(path, file_name, d).width is None
            && probe_summary_spec(path, file_name, d).height is None
            && probe_summary_spec(path, file_name, d).codec is None,
{
}

/// The first video stream decides the details: when stream `k` is a video
/// stream and none before it is, the details are stream `k`'s.
pub proof fn law_first_video_stream_decides(streams: Seq<ProbeStreamView>, k: int)
    requires
        0 <= k < streams.len(),
        is_video_stream(streams[k]),
        forall|j: int| 0 <= j < k ==> !is_video_stream(#[trigger] streams[j]),
    ensures
        video_details_spec(streams) == stream_details(streams[k]),
{
    let c = choose|c: int|
        0 <= c < streams.len() && is_video_stream(streams[c]) && forall|j: int|
            0 <= j < c ==> !is_video_stream(#[trigger] streams[j]);
    assert(0 <= c < streams.len() && is_video_stream(streams[c]));
    if c < k {
        assert(!is_video_stream(streams[c]));
    }
    if c > k {
        assert(!is_video_stream(streams[k]));
    }
}

/// Copies an optional text.
fn copy_text(p: &Option<String>) -> (r: Option<String>)
    ensures
        opt_view(r) == opt_view(*p),
{
    match p {
        Some(x) => Some(String::from_str(x.as_str())),
        None => None,
    }
}

/// What is shown of the media file at `path` from its decoded report, with
/// `file_name` standing in for a missing title tag.
pub fn probe_summary(path: &str, file_name: Option<String>, doc: &ProbeDoc) -> (r: ProbeSummary)
    ensures
        r@ == probe_summary_spec(path@, opt_view(file_name), doc@),
{
    let (width, height, codec) = match &doc.streams {
        Some(s) => video_stream_details(s),
        None => (None, None, None),
    };
    let title = match &doc.title_tag {
        Some(t) => Some(String::from_str(t.as_str())),
        None => file_name,
    };
    let r = ProbeSummary {
        path: String::from_str(path),
        duration_text: copy_text(&doc.duration_text),
        width,
        height,
        codec,
        title,
    };
    assert(r@ =~= probe_summary_spec(path@, opt_view(file_name), doc@));
    r
}

/// Reads FFprobe's JSON report on the file at `path`: a report that does not
/// decode gives "Invalid ffprobe JSON: " and the decoder's message; a decoded
/// one gives what is shown of the file, its title falling back to the file's
/// name as the platform reads it from `path`.
pub fn read_probe_report(path: &str, report: &str) -> (r: Result<ProbeSummary, String>)
    ensures
        match probe_doc(report@) {
            Err(e) => r matches Err(m) && m@ == "Invalid ffprobe JSON: "@ + e,
            Ok(d) => r matches Ok(s) && exists|f: Option<Seq<char>>|
                s@ == probe_summary_spec(path@, f, d),
        },
{
    match decode_ffprobe_json(report) {
        Ok(doc) => {
            let name = file_name_of(path);
            let s = probe_summary(path, name, &doc);
            assert(s@ == probe_summary_spec(path@, opt_view(name), doc@));
            Ok(s)
        },
        Err(e) => {
            let mut m = String::from_str("Invalid ffprobe JSON: ");
            m.append(e.as_str());
            Err(m)
        },
    }
}

} // verus!
