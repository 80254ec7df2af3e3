//! Reading yt-dlp's metadata and describing the download formats it offers.
use vstd::prelude::*;
use crate::text::str_eq;
use crate::ytdlp::{invalid_json_error, video_identity};

verus! {

/// A label piece: the separator `" · "` and the text, when there is a text.
pub open spec fn piece(p: Option<Seq<char>>) -> Seq<char> {
    match p {
        Some(x) => " · "@ + x,
        None => Seq::empty(),
    }
}

/// The view of an optional text.
pub open spec fn opt_view(p: Option<String>) -> Option<Seq<char>> {
    match p {
        Some(x) => Some(x@),
        None => None,
    }
}

/// The label of a format: id, extension, resolution (unless "audio only"),
/// frame rate, bit rate, the audio-only and video-only marks, and the note,
/// joined by `" · "`.
pub open spec fn format_label_spec(
    format_id: Seq<char>,
    ext: Seq<char>,
    resolution: Option<Seq<char>>,
    fps_text: Option<Seq<char>>,
    tbr_text: Option<Seq<char>>,
    note: Option<Seq<char>>,
    audio_only: bool,
    video_only: bool,
) -> Seq<char> {
    format_id + " · "@ + ext + piece(shown_resolution(resolution)) + piece(
        with_unit(fps_text, "fps"@),
    ) + piece(with_unit(tbr_text, "kbps"@)) + piece(
        if audio_only {
            Some("audio"@)
        } else {
            None
        },
    ) + piece(
        if video_only {
            Some("video-only (slower: merges audio)"@)
        } else {
            None
        },
    ) + piece(note)
}

/// Appends `" · "` and a text.
fn append_piece(label: &mut String, text: &str)
    ensures
        final(label)@ == old(label)@ + piece(Some(text@)),
{
    label.append(" · ");
    label.append(text);
}

/// The view of an optional borrowed text.
pub open spec fn str_opt_view(p: Option<&str>) -> Option<Seq<char>> {
    match p {
        Some(x) => Some(x@),
        None => None,
    }
}

/// A text with a unit appended, when there is a text.
pub open spec fn with_unit(p: Option<Seq<char>>, unit: Seq<char>) -> Option<Seq<char>> {
    match p {
        Some(x) => Some(x + unit),
        None => None,
    }
}

/// The resolution piece: dropped when it reads "audio only".
pub open spec fn shown_resolution(p: Option<Seq<char>>) -> Option<Seq<char>> {
    match p {
        Some(r) => if r == "audio only"@ {
            None
        } else {
            Some(r)
        },
        None => None,
    }
}

/// Appends `" · "` and a text, when there is a text.
fn append_opt_plain(label: &mut String, p: Option<&str>)
    ensures
        final(label)@ == old(label)@ + piece(str_opt_view(p)),
{
    match p {
        Some(x) => append_piece(label, x),
        None => {},
    }
}

/// Appends `" · "`, a text and a unit, when there is a text.
fn append_opt_unit(label: &mut String, p: Option<&str>, unit: &str)
    ensures
        final(label)@ == old(label)@ + piece(with_unit(str_opt_view(p), unit@)),
{
    match p {
        Some(x) => {
            let mut t = String::from_str(x);
            t.append(unit);
            append_piece(label, t.as_str());
        },
        None => {},
    }
}

/// Appends `" · "` and a text when `flag` holds.
fn append_flag(label: &mut String, flag: bool, text: &str)
    ensures
        final(label)@ == old(label)@ + piece(
            if flag {
                Some(text@)
            } else {
                None
            },
        ),
{
    if flag {
        append_piece(label, text);
    }
}

/// The label shown for a format. The frame rate and bit rate come already
/// rendered as whole numbers.
#[verifier::rlimit(40)]
pub fn build_format_label(
    format_id: &str,
    ext: &str,
    resolution: Option<&str>,
    fps_text: Option<&str>,
    tbr_text: Option<&str>,
    note: Option<&str>,
    audio_only: bool,
    video_only: bool,
) -> (r: String)
    ensures
        r@ == format_label_spec(
            format_id@,
            ext@,
            str_opt_view(resolution),
            str_opt_view(fps_text),
            str_opt_view(tbr_text),
            str_opt_view(note),
            audio_only,
            video_only,
        ),
{
    let mut label = String::from_str(format_id);
    append_piece(&mut label, ext);
    let ghost l0 = label@;
    let shown: Option<&str> = match resolution {
        Some(res) => if str_eq(res, "audio only") {
            None
        } else {
            Some(res)
        },
        None => None,
    };
    assert(str_opt_view(shown) == shown_resolution(str_opt_view(resolution)));
    append_opt_plain(&mut label, shown);
    let ghost l1 = label@;
    assert(l1 == l0 + piece(shown_resolution(str_opt_view(resolution))));
    append_opt_unit(&mut label, fps_text, "fps");
    append_opt_unit(&mut label, tbr_text, "kbps");
    append_flag(&mut label, audio_only, "audio");
    append_flag(&mut label, video_only, "video-only (slower: merges audio)");
    let ghost l5 = label@;
    append_opt_plain(&mut label, note);
    assert(label@ == l5 + piece(str_opt_view(note)));
    label
}

/// The fields of one format entry of yt-dlp's metadata, as read from it. The
/// frame rate and bit rate are kept as the JSON number's text.
pub struct RawFormat {
    pub format_id: Option<String>,
    pub ext: Option<String>,
    pub vcodec: Option<String>,
    pub acodec: Option<String>,
    pub resolution: Option<String>,
    pub fps_text: Option<String>,
    pub tbr_text: Option<String>,
    pub filesize: Option<u64>,
    pub filesize_approx: Option<u64>,
    pub format_note: Option<String>,
}

/// The fields of a format entry as texts and numbers.
#[verifier::ext_equal]
pub struct RawFormatView {
    pub format_id: Option<Seq<char>>,
    pub ext: Option<Seq<char>>,
    pub vcodec: Option<Seq<char>>,
    pub acodec: Option<Seq<char>>,
    pub resolution: Option<Seq<char>>,
    pub fps_text: Option<Seq<char>>,
    pub tbr_text: Option<Seq<char>>,
    pub filesize: Option<u64>,
    pub filesize_approx: Option<u64>,
    pub format_note: Option<Seq<char>>,
}

impl View for RawFormat {
    type V = RawFormatView;

    open spec fn view(&self) -> RawFormatView {
        RawFormatView {
            format_id: opt_view(self.format_id),
            ext: opt_view(self.ext),
            vcodec: opt_view(self.vcodec),
            acodec: opt_view(self.acodec),
            resolution: opt_view(self.resolution),
            fps_text: opt_view(self.fps_text),
            tbr_text: opt_view(self.tbr_text),
            filesize: self.filesize,
            filesize_approx: self.filesize_approx,
            format_note: opt_view(self.format_note),
        }
    }
}

/// A format offered for download. The frame rate and bit rate are the JSON
/// number's text; the label is built from their rendering.
pub struct FormatSummary {
    pub format_id: String,
    pub ext: String,
    pub resolution: Option<String>,
    pub fps_text: Option<String>,
    pub tbr_text: Option<String>,
    pub vcodec: Option<String>,
    pub acodec: Option<String>,
    pub filesize: Option<u64>,
    pub format_note: Option<String>,
    pub audio_only: bool,
    pub video_only: bool,
}

/// A format offered for download, as texts and numbers.
#[verifier::ext_equal]
pub struct FormatSummaryView {
    pub format_id: Seq<char>,
    pub ext: Seq<char>,
    pub resolution: Option<Seq<char>>,
    pub fps_text: Option<Seq<char>>,
    pub tbr_text: Option<Seq<char>>,
    pub vcodec: Option<Seq<char>>,
    pub acodec: Option<Seq<char>>,
    pub filesize: Option<u64>,
    pub format_note: Option<Seq<char>>,
    pub audio_only: bool,
    pub video_only: bool,
}

impl View for FormatSummary {
    type V = FormatSummaryView;

    open spec fn view(&self) -> FormatSummaryView {
        FormatSummaryView {
            format_id: self.format_id@,
            ext: self.ext@,
            resolution: opt_view(self.resolution),
            fps_text: opt_view(self.fps_text),
            tbr_text: opt_view(self.tbr_text),
            vcodec: opt_view(self.vcodec),
            acodec: opt_view(self.acodec),
            filesize: self.filesize,
            format_note: opt_view(self.format_note),
            audio_only: self.audio_only,
            video_only: self.video_only,
        }
    }
}

/// An optional text equals the literal `"none"`.
pub open spec fn is_none_text(p: Option<Seq<char>>) -> bool {
    p == Some("none"@)
}

/// The summary of a format entry: none without an id; else the same id, the
/// extension or "unknown", a video codec "none" marking audio only and an audio
/// codec "none" marking video only, and the size or else the approximate size.
pub open spec fn summary_spec(raw: RawFormatView) -> Option<FormatSummaryView> {
    match raw.format_id {
        None => None,
        Some(id) => Some(
            FormatSummaryView {
                format_id: id,
                ext: match raw.ext {
                    Some(e) => e,
                    None => "unknown"@,
                },
                resolution: raw.resolution,
                fps_text: raw.fps_text,
                tbr_text: raw.tbr_text,
                vcodec: raw.vcodec,
                acodec: raw.acodec,
                filesize: match raw.filesize {
                    Some(n) => Some(n),
                    None => raw.filesize_approx,
                },
                format_note: raw.format_note,
                audio_only: is_none_text(raw.vcodec),
                video_only: is_none_text(raw.acodec),
            },
        ),
    }
}

/// What the summary of a format entry says of the entry: entries without an
/// id are dropped; otherwise the id is kept, the format is video only exactly
/// when its audio codec is the text "none" and audio only exactly when its
/// video codec is "none" (each whatever the other codec is), the extension
/// falls back to "unknown", and the size falls back to the approximate size.
pub proof fn law_summary_follows_entry(raw: RawFormatView)
    ensures
        raw.format_id is None ==> summary_spec(raw) is None,
        raw.format_id matches Some(id) ==> {
            &&& summary_spec(raw) matches Some(s)
            &&& s.format_id == id
            &&& (s.video_only <==> raw.acodec == Some("none"@))
            &&& (s.audio_only <==> raw.vcodec == Some("none"@))
            &&& (raw.ext matches Some(e) ==> s.ext == e)
            &&& (raw.ext is None ==> s.ext == "unknown"@)
            &&& (raw.filesize is Some ==> s.filesize == raw.filesize)
            &&& (raw.filesize is None ==> s.filesize == raw.filesize_approx)
            &&& s.resolution == raw.resolution
            &&& s.vcodec == raw.vcodec
            &&& s.acodec == raw.acodec
        },
{
}

/// The view of an optional summary.
pub open spec fn summary_opt_view(r: Option<FormatSummary>) -> Option<FormatSummaryView> {
    match r {
        Some(f) => Some(f@),
        None => None,
    }
}

/// Copies an optional text.
fn copy_opt(p: &Option<String>) -> (r: Option<String>)
    ensures
        opt_view(r) == opt_view(*p),
{
    match p {
        Some(x) => Some(String::from_str(x.as_str())),
        None => None,
    }
}

/// Whether an optional text is the literal `"none"`.
fn is_none_str(p: &Option<String>) -> (r: bool)
    ensures
        r == is_none_text(opt_view(*p)),
{
    match p {
        Some(x) => str_eq(x.as_str(), "none"),
        None => false,
    }
}

/// Describes a format entry; entries without an id are skipped.
pub fn summarize_format(raw: &RawFormat) -> (r: Option<FormatSummary>)
    ensures
        summary_opt_view(r) == summary_spec(raw@),
{
    let format_id = match &raw.format_id {
        Some(id) => String::from_str(id.as_str()),
        None => return None,
    };
    let ext = match &raw.ext {
        Some(e) => String::from_str(e.as_str()),
        None => String::from_str("unknown"),
    };
    let filesize = match raw.filesize {
        Some(n) => Some(n),
        None => raw.filesize_approx,
    };
    let r = FormatSummary {
        format_id,
        ext,
        resolution: copy_opt(&raw.resolution),
        fps_text: copy_opt(&raw.fps_text),
        tbr_text: copy_opt(&raw.tbr_text),
        vcodec: copy_opt(&raw.vcodec),
        acodec: copy_opt(&raw.acodec),
        filesize,
        format_note: copy_opt(&raw.format_note),
        audio_only: is_none_str(&raw.vcodec),
        video_only: is_none_str(&raw.acodec),
    };
    assert(r@ =~= summary_spec(raw@)->0);
    Some(r)
}

/// Names what `decode_format_json` reads from the JSON text of one format
/// entry: its fields, or serde_json's error message.
pub uninterp spec fn format_entry(text: Seq<char>) -> Result<RawFormatView, Seq<char>>;

/// Decodes the JSON text of one format entry with `serde_json::from_str` and
/// picks its fields from the `serde_json::Value`: the texts with `as_str`, the
/// frame and bit rates with `as_number` and the number's `Display`, the sizes
/// with `as_u64`. The contract claims only that the fields, or the error's
/// message, are the named value of the text.
#[verifier::external_body]
fn decode_format_json(text: &str) -> (r: Result<RawFormat, String>)
    ensures
        match r {
            Ok(f) => format_entry(text@) == Ok::<RawFormatView, Seq<char>>(f@),
            Err(e) => format_entry(text@) == Err::<RawFormatView, Seq<char>>(e@),
        },
{
    let f: serde_json::Value = serde_json::from_str(text).map_err(|e| e.to_string())?;
    Ok(RawFormat {
        format_id: f["format_id"].as_str().map(String::from),
        ext: f["ext"].as_str().map(String::from),
        vcodec: f["vcodec"].as_str().map(String::from),
        acodec: f["acodec"].as_str().map(String::from),
        resolution: f["resolution"].as_str().map(String::from),
        fps_text: f["fps"].as_number().map(ToString::to_string),
        tbr_text: f["tbr"].as_number().map(ToString::to_string),
        filesize: f["filesize"].as_u64(),
        filesize_approx: f["filesize_approx"].as_u64(),
        format_note: f["format_note"].as_str().map(String::from),
    })
}

/// The summaries of the format entries, in their order: an entry is kept when
/// its text decodes and it has an id.
pub open spec fn summaries_spec(entries: Seq<Seq<char>>) -> Seq<FormatSummaryView>
    decreases entries.len(),
{
    if entries.len() == 0 {
        Seq::empty()
    } else {
        let rest = summaries_spec(entries.drop_last());
        match format_entry(entries.last()) {
            Ok(raw) => match summary_spec(raw) {
                Some(s) => rest.push(s),
                None => rest,
            },
            Err(_) => rest,
        }
    }
}

/// What yt-dlp's metadata document holds for the library: whether it is
/// `null`, the id, title and thumbnail texts, the duration number's text, and
/// the JSON text of each entry of `formats`.
pub struct YtDlpDoc {
    pub is_null: bool,
    pub id: Option<String>,
    pub title: Option<String>,
    pub thumbnail: Option<String>,
    pub duration_text: Option<String>,
    pub formats: Option<Vec<String>>,
}

/// The metadata document as texts.
#[verifier::ext_equal]
pub struct YtDlpDocView {
    pub is_null: bool,
    pub id: Option<Seq<char>>,
    pub title: Option<Seq<char>>,
    pub thumbnail: Option<Seq<char>>,
    pub duration_text: Option<Seq<char>>,
    pub formats: Option<Seq<Seq<char>>>,
}

/// The texts of a list of strings.
pub open spec fn texts(v: Seq<String>) -> Seq<Seq<char>> {
    v.map_values(|s: String| s@)
}

impl View for YtDlpDoc {
    type V = YtDlpDocView;

    open spec fn view(&self) -> YtDlpDocView {
        YtDlpDocView {
            is_null: self.is_null,
            id: opt_view(self.id),
            title: opt_view(self.title),
            thumbnail: opt_view(self.thumbnail),
            duration_text: opt_view(self.duration_text),
            formats: match self.formats {
                Some(v) => Some(texts(v@)),
                None => None,
            },
        }
    }
}

/// Names what `decode_ytdlp_json` reads from yt-dlp's JSON output: the
/// document, or serde_json's error message.
pub uninterp spec fn ytdlp_doc(text: Seq<char>) -> Result<YtDlpDocView, Seq<char>>;

/// Decodes yt-dlp's JSON output with `serde_json::from_str` and picks from the
/// `serde_json::Value` whether it is `null`, the texts with `as_str`, the
/// duration with `as_number` and the number's `Display`, and each entry of the
/// `formats` array as its JSON text (the value's `Display`). The contract claims
/// only that the document, or the error's message, is the named value of the
/// text.
#[verifier::external_body]
fn decode_ytdlp_json(json_str: &str) -> (r: Result<YtDlpDoc, String>)
    ensures
        match r {
            Ok(d) => ytdlp_doc(json_str@) == Ok::<YtDlpDocView, Seq<char>>(d@),
            Err(e) => ytdlp_doc(json_str@) == Err::<YtDlpDocView, Seq<char>>(e@),
        },
{
    let json: serde_json::Value = serde_json::from_str(json_str).map_err(|e| e.to_string())?;
    let formats = json["formats"].as_array().map(|a| a.iter().map(ToString::to_string).collect());
    Ok(YtDlpDoc {
        is_null: json.is_null(),
        id: json["id"].as_str().map(String::from),
        title: json["title"].as_str().map(String::from),
        thumbnail: json["thumbnail"].as_str().map(String::from),
        duration_text: json["duration"].as_number().map(ToString::to_string),
        formats,
    })
}

/// A video's metadata: id, title, thumbnail, the duration number's text and
/// the formats offered.
pub struct VideoMetadata {
    pub id: String,
    pub title: String,
    pub thumbnail: Option<String>,
    pub duration_text: Option<String>,
    pub formats: Vec<FormatSummary>,
}

/// A video's metadata as texts.
#[verifier::ext_equal]
pub struct VideoMetadataView {
    pub id: Seq<char>,
    pub title: Seq<char>,
    pub thumbnail: Option<Seq<char>>,
    pub duration_text: Option<Seq<char>>,
    pub formats: Seq<FormatSummaryView>,
}

/// The views of a list of summaries.
pub open spec fn summary_views(v: Seq<FormatSummary>) -> Seq<FormatSummaryView> {
    v.map_values(|f: FormatSummary| f@)
}

impl View for VideoMetadata {
    type V = VideoMetadataView;

    open spec fn view(&self) -> VideoMetadataView {
        VideoMetadataView {
            id: self.id@,
            title: self.title@,
            thumbnail: opt_view(self.thumbnail),
            duration_text: opt_view(self.duration_text),
            formats: summary_views(self.formats@),
        }
    }
}

/// The view of a metadata result.
pub open spec fn metadata_result_view(r: Result<VideoMetadata, String>) -> Result<
    VideoMetadataView,
    Seq<char>,
> {
    match r {
        Ok(m) => Ok(m@),
        Err(e) => Err(e@),
    }
}

/// The metadata of a decoded document: a `null` document holds no video;
/// else the id or "unknown", the title or "Untitled", the thumbnail, the
/// duration, and the summaries of the format entries (none without a
/// `formats` array).
pub open spec fn metadata_spec(d: YtDlpDocView) -> Result<VideoMetadataView, Seq<char>> {
    if d.is_null {
        Err("yt-dlp returned no video data."@)
    } else {
        Ok(
            VideoMetadataView {
                id: match d.id {
                    Some(x) => x,
                    None => "unknown"@,
                },
                title: match d.title {
                    Some(x) => x,
                    None => "Untitled"@,
                },
                thumbnail: d.thumbnail,
                duration_text: d.duration_text,
                formats: match d.formats {
                    Some(es) => summaries_spec(es),
                    None => Seq::empty(),
                },
            },
        )
    }
}

/// A document that is not `null` gives metadata with its own id and title
/// (or "unknown" and "Untitled"), its thumbnail and duration; a `null`
/// document gives the no-video error; without a `formats` array there are no
/// formats, and there are never more formats than entries.
pub proof fn law_metadata_follows_document(d: YtDlpDocView)
    ensures
        d.is_null ==> metadata_spec(d) == Err::<VideoMetadataView, Seq<char>>(
            "yt-dlp returned no video data."@,
        ),
        !d.is_null ==> {
            &&& metadata_spec(d) matches Ok(m)
            &&& (d.id matches Some(x) ==> m.id == x)
            &&& (d.id is None ==> m.id == "unknown"@)
            &&& (d.title matches Some(x) ==> m.title == x)
            &&& (d.title is None ==> m.title == "Untitled"@)
            &&& m.thumbnail == d.thumbnail
            &&& m.duration_text == d.duration_text
            &&& (d.formats is None ==> m.formats.len() == 0)
            &&& (d.formats matches Some(es) ==> m.formats.len() <= es.len())
        },
{
    if let Some(es) = d.formats {
        lemma_summaries_no_longer(es);
    }
}

/// The summaries never outnumber the entries.
proof fn lemma_summaries_no_longer(entries: Seq<Seq<char>>)
    ensures
        summaries_spec(entries).len() <= entries.len(),
    decreases entries.len(),
{
    if entries.len() > 0 {
        lemma_summaries_no_longer(entries.drop_last());
    }
}

/// The summaries of the format entries given as JSON texts.
fn summarize_entries(entries: &Vec<String>) -> (r: Vec<FormatSummary>)
    ensures
        summary_views(r@) == summaries_spec(texts(entries@)),
{
    let mut out: Vec<FormatSummary> = Vec::new();
    let mut i: usize = 0;
    while i < entries.len()
        invariant
            i <= entries@.len(),
            summary_views(out@) == summaries_spec(texts(entries@).take(i as int)),
        decreases entries@.len() - i,
    {
        let ghost before = out@;
        let decoded = decode_format_json(entries[i].as_str());
        match decoded {
            Ok(raw) => match summarize_format(&raw) {
                Some(s) => out.push(s),
                None => {},
            },
            Err(_) => {},
        }
        proof {
            let t = texts(entries@).take(i + 1);
            assert(t.drop_last() =~= texts(entries@).take(i as int));
            assert(t.last() == entries@[i as int]@);
            assert(summary_views(out@) =~= summaries_spec(t));
        }
        i = i + 1;
    }
    assert(texts(entries@).take(entries@.len() as int) =~= texts(entries@));
    out
}

/// The metadata of a decoded yt-dlp document.
pub fn metadata_from_doc(doc: &YtDlpDoc) -> (r: Result<VideoMetadata, String>)
    ensures
        metadata_result_view(r) == metadata_spec(doc@),
{
    let id = match &doc.id {
        Some(x) => Some(String::from_str(x.as_str())),
        None => None,
    };
    let title = match &doc.title {
        Some(x) => Some(String::from_str(x.as_str())),
        None => None,
    };
    let (id, title) = match video_identity(doc.is_null, id, title) {
        Ok(p) => p,
        Err(e) => return Err(e),
    };
    let formats = match &doc.formats {
        Some(es) => summarize_entries(es),
        None => Vec::new(),
    };
    let m = VideoMetadata {
        id,
        title,
        thumbnail: copy_opt(&doc.thumbnail),
        duration_text: copy_opt(&doc.duration_text),
        formats,
    };
    proof {
        if doc.formats is None {
            assert(summary_views(m.formats@) =~= Seq::empty());
        }
    }
    assert(m@ =~= metadata_spec(doc@)->Ok_0);
    Ok(m)
}

/// Reads yt-dlp's JSON output: text that does not decode gives "Invalid
/// yt-dlp JSON: " and the decoder's message; a decoded document gives its
/// metadata.
pub fn read_video_metadata(json_str: &str) -> (r: Result<VideoMetadata, String>)
    ensures
        match ytdlp_doc(json_str@) {
            Err(e) => metadata_result_view(r) == Err::<VideoMetadataView, Seq<char>>(
                "Invalid yt-dlp JSON: "@ + e,
            ),
            Ok(d) => metadata_result_view(r) == metadata_spec(d),
        },
{
    match decode_ytdlp_json(json_str) {
        Ok(doc) => metadata_from_doc(&doc),
        Err(e) => Err(invalid_json_error(e.as_str())),
    }
}

} // verus!
