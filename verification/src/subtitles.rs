//! Subtitles: finding a subtitle file beside a video, choosing the text
//! subtitle streams embedded in a video, and the commands that read them.
use vstd::prelude::*;
use crate::text::{
    i64_to_decimal, join2, join3, lowercase, same_text, signed_decimal, to_lowercase,
};

verus! {

/// Extensions of subtitle files, in the order they are looked for.
pub open spec fn subtitle_extension_list() -> Seq<Seq<char>> {
    seq!["srt"@, "vtt"@, "ass"@, "ssa"@, "sub"@]
}

/// The subtitle file extensions, for the subtitle dialog's filter and the
/// search beside a video.
pub fn subtitle_extensions() -> (r: Vec<&'static str>)
    ensures
        r.deep_view() == subtitle_extension_list(),
{
    let r = vec!["srt", "vtt", "ass", "ssa", "sub"];
    assert(r.deep_view() =~= subtitle_extension_list());
    r
}

/// The file names tried first, in this order: the video's stem with each
/// subtitle extension.
pub open spec fn subtitle_name_list(stem: Seq<char>) -> Seq<Seq<char>> {
    subtitle_extension_list().map_values(|e: Seq<char>| stem + "."@ + e)
}

/// The subtitle file names to look for beside a video with this stem.
pub fn subtitle_file_names(video_stem: &str) -> (r: Vec<String>)
    ensures
        r.deep_view() == subtitle_name_list(video_stem@),
{
    let exts = subtitle_extensions();
    let mut r: Vec<String> = Vec::new();
    let mut i: usize = 0;
    while i < exts.len()
        invariant
            i <= exts.len(),
            exts.deep_view() == subtitle_extension_list(),
            r.deep_view() == subtitle_name_list(video_stem@).take(i as int),
        decreases exts.len() - i,
    {
        let name = join3(video_stem, ".", exts[i]);
        let ghost before = r.deep_view();
        r.push(name);
        assert(exts.deep_view()[i as int] == exts[i as int]@);
        assert(subtitle_name_list(video_stem@).len() == exts.len());
        assert(subtitle_name_list(video_stem@)[i as int] == video_stem@ + "."@ + exts[i as int]@);
        assert(r.deep_view() =~= before.push(video_stem@ + "."@ + exts[i as int]@));
        assert(r.deep_view() =~= subtitle_name_list(video_stem@).take(i + 1));
        i = i + 1;
    }
    assert(subtitle_name_list(video_stem@).take(i as int) =~= subtitle_name_list(video_stem@));
    r
}

/// A file with this stem and extension is a subtitle of the video when the
/// stems agree ignoring case and the extension, lowercased, is a subtitle
/// extension.
pub open spec fn is_subtitle_match(video_stem: Seq<char>, stem: Seq<char>, ext: Seq<char>) -> bool {
    lowercase(stem) == lowercase(video_stem) && subtitle_extension_list().contains(lowercase(ext))
}

/// Whether a directory entry with this stem and extension is a subtitle file
/// for the video.
pub fn is_subtitle_for(video_stem: &str, file_stem: &str, file_ext: &str) -> (r: bool)
    ensures
        r == is_subtitle_match(video_stem@, file_stem@, file_ext@),
{
    let video_lower = to_lowercase(video_stem);
    let stem_lower = to_lowercase(file_stem);
    let ext_lower = to_lowercase(file_ext);
    if !same_text(stem_lower.as_str(), video_lower.as_str()) {
        return false;
    }
    let exts = subtitle_extensions();
    let mut i: usize = 0;
    while i < exts.len()
        invariant
            i <= exts.len(),
            exts.deep_view() == subtitle_extension_list(),
            ext_lower@ == lowercase(file_ext@),
            lowercase(file_stem@) == lowercase(video_stem@),
            forall|j: int| 0 <= j < i ==> #[trigger] subtitle_extension_list()[j] != ext_lower@,
        decreases exts.len() - i,
    {
        assert(exts.deep_view()[i as int] == exts[i as int]@);
        if same_text(ext_lower.as_str(), exts[i]) {
            assert(subtitle_extension_list()[i as int] == ext_lower@);
            return true;
        }
        i = i + 1;
    }
    false
}

/// The position of the first entry, as (stem, extension), that is a subtitle
/// file for the video.
pub fn first_subtitle_match(video_stem: &str, entries: &Vec<(String, String)>) -> (r: Option<
    usize,
>)
    ensures
        match r {
            Some(k) => k < entries.len() && is_subtitle_match(
                video_stem@,
                entries[k as int].0@,
                entries[k as int].1@,
            ) && forall|j: int|
                0 <= j < k ==> !is_subtitle_match(
                    video_stem@,
                    #[trigger] entries[j].0@,
                    entries[j].1@,
                ),
            None => forall|j: int|
                0 <= j < entries.len() ==> !is_subtitle_match(
                    video_stem@,
                    #[trigger] entries[j].0@,
                    entries[j].1@,
                ),
        },
{
    let mut i: usize = 0;
    while i < entries.len()
        invariant
            i <= entries.len(),
            forall|j: int|
                0 <= j < i ==> !is_subtitle_match(
                    video_stem@,
                    #[trigger] entries[j].0@,
                    entries[j].1@,
                ),
        decreases entries.len() - i,
    {
        if is_subtitle_for(video_stem, entries[i].0.as_str(), entries[i].1.as_str()) {
            return Some(i);
        }
        i = i + 1;
    }
    None
}

/// One stream as ffprobe describes it: the fields read from its JSON object.
pub struct ProbeStream {
    pub codec_name: Option<String>,
    pub index: Option<i64>,
    pub language: Option<String>,
    pub title: Option<String>,
}

/// A probe stream's fields as plain values.
pub struct ProbeStreamView {
    pub codec_name: Option<Seq<char>>,
    pub index: Option<i64>,
    pub language: Option<Seq<char>>,
    pub title: Option<Seq<char>>,
}

impl DeepView for ProbeStream {
    type V = ProbeStreamView;

    open spec fn deep_view(&self) -> ProbeStreamView {
        ProbeStreamView {
            codec_name: self.codec_name.deep_view(),
            index: self.index,
            language: self.language.deep_view(),
            title: self.title.deep_view(),
        }
    }
}

/// A text subtitle stream embedded in a video.
pub struct EmbeddedSubtitleTrack {
    pub index: i64,
    pub codec_name: String,
    pub language: Option<String>,
    pub title: Option<String>,
}

/// An embedded track's fields as plain values.
pub struct TrackView {
    pub index: i64,
    pub codec_name: Seq<char>,
    pub language: Option<Seq<char>>,
    pub title: Option<Seq<char>>,
}

impl DeepView for EmbeddedSubtitleTrack {
    type V = TrackView;

    open spec fn deep_view(&self) -> TrackView {
        TrackView {
            index: self.index,
            codec_name: self.codec_name@,
            language: self.language.deep_view(),
            title: self.title.deep_view(),
        }
    }
}

/// Subtitle codecs whose streams convert to text that the player shows.
pub open spec fn text_codec_list() -> Seq<Seq<char>> {
    seq!["subrip"@, "ass"@, "ssa"@, "webvtt"@, "mov_text"@, "srt"@, "text"@]
}

/// The text subtitle codecs are exactly these seven names, and a stream is
/// listed exactly when it has an index and its codec (or `unknown` when it
/// names none) is one of them; WebVTT streams are listed.
pub proof fn law_text_codecs(s: ProbeStreamView)
    ensures
        text_codec_list() == seq![
            "subrip"@,
            "ass"@,
            "ssa"@,
            "webvtt"@,
            "mov_text"@,
            "srt"@,
            "text"@,
        ],
        is_text_track(s) <==> (s.index is Some && seq![
            "subrip"@,
            "ass"@,
            "ssa"@,
            "webvtt"@,
            "mov_text"@,
            "srt"@,
            "text"@,
        ].contains(
            match s.codec_name {
                Some(c) => c,
                None => "unknown"@,
            },
        )),
        s.index is Some && s.codec_name == Some("webvtt"@) ==> is_text_track(s),
{
    let lit = seq!["subrip"@, "ass"@, "ssa"@, "webvtt"@, "mov_text"@, "srt"@, "text"@];
    assert(text_codec_list() =~= lit);
    assert(lit[3] == "webvtt"@);
}

/// A stream's codec name; a stream without one counts as `unknown`.
pub open spec fn codec_of(s: ProbeStreamView) -> Seq<char> {
    match s.codec_name {
        Some(c) => c,
        None => "unknown"@,
    }
}

/// A stream is kept when its codec is a text codec and it has an index.
pub open spec fn is_text_track(s: ProbeStreamView) -> bool {
    text_codec_list().contains(codec_of(s)) && s.index is Some
}

/// The track listed for a kept stream.
pub open spec fn track_of(s: ProbeStreamView) -> TrackView {
    TrackView {
        index: s.index.unwrap(),
        codec_name: codec_of(s),
        language: s.language,
        title: s.title,
    }
}

/// The tracks listed for a sequence of probed streams, in their order.
pub open spec fn text_tracks(streams: Seq<ProbeStreamView>) -> Seq<TrackView>
    decreases streams.len(),
{
    if streams.len() == 0 {
        seq![]
    } else if is_text_track(streams.last()) {
        text_tracks(streams.drop_last()).push(track_of(streams.last()))
    } else {
        text_tracks(streams.drop_last())
    }
}

/// Every listed track comes from a stream with a text codec and an index,
/// and keeps that stream's codec, index, language and title.
pub proof fn law_listed_tracks_are_text(streams: Seq<ProbeStreamView>, k: int)
    requires
        0 <= k < text_tracks(streams).len(),
    ensures
        exists|i: int|
            0 <= i < streams.len() && is_text_track(#[trigger] streams[i]) && text_tracks(
                streams,
            )[k] == track_of(streams[i]),
    decreases streams.len(),
{
    let init = streams.drop_last();
    let last = streams.last();
    if is_text_track(last) && k == text_tracks(init).len() {
        assert(streams[streams.len() - 1] == last);
    } else {
        law_listed_tracks_are_text(init, k);
        let i = choose|i: int|
            0 <= i < init.len() && is_text_track(#[trigger] init[i]) && text_tracks(init)[k]
                == track_of(init[i]);
        assert(streams[i] == init[i]);
    }
}

fn copy_opt_string(s: &Option<String>) -> (r: Option<String>)
    ensures
        r.deep_view() == s.deep_view(),
{
    match s {
        Some(t) => Some(t.clone()),
        None => None,
    }
}

/// Whether `codec` is one of the text subtitle codecs.
pub fn is_text_codec(codec: &str) -> (r: bool)
    ensures
        r == text_codec_list().contains(codec@),
{
    let codecs = vec!["subrip", "ass", "ssa", "webvtt", "mov_text", "srt", "text"];
    assert(codecs.deep_view() =~= text_codec_list());
    let mut i: usize = 0;
    while i < codecs.len()
        invariant
            i <= codecs.len(),
            codecs.deep_view() == text_codec_list(),
            forall|j: int| 0 <= j < i ==> #[trigger] text_codec_list()[j] != codec@,
        decreases codecs.len() - i,
    {
        assert(codecs.deep_view()[i as int] == codecs[i as int]@);
        if same_text(codec, codecs[i]) {
            return true;
        }
        i = i + 1;
    }
    false
}

/// The text subtitle tracks among the probed streams: bitmap subtitles and
/// streams without an index are skipped.
pub fn select_text_tracks(streams: &Vec<ProbeStream>) -> (r: Vec<EmbeddedSubtitleTrack>)
    ensures
        r.deep_view() == text_tracks(streams.deep_view()),
{
    let mut r: Vec<EmbeddedSubtitleTrack> = Vec::new();
    let mut i: usize = 0;
    while i < streams.len()
        invariant
            i <= streams.len(),
            r.deep_view() == text_tracks(streams.deep_view().take(i as int)),
        decreases streams.len() - i,
    {
        let s = &streams[i];
        let ghost sv = streams.deep_view()[i as int];
        assert(sv == s.deep_view());
        let codec = match &s.codec_name {
            Some(c) => c.clone(),
            None => String::from_str("unknown"),
        };
        assert(codec@ == codec_of(sv));
        assert(streams.deep_view().take(i + 1).drop_last() =~= streams.deep_view().take(
            i as int,
        ));
        assert(streams.deep_view().take(i + 1).last() == sv);
        if is_text_codec(codec.as_str()) {
            match s.index {
                Some(index) => {
                    let t = EmbeddedSubtitleTrack {
                        index,
                        codec_name: codec,
                        language: copy_opt_string(&s.language),
                        title: copy_opt_string(&s.title),
                    };
                    let ghost before = r.deep_view();
                    r.push(t);
                    assert(r.deep_view() =~= before.push(track_of(sv)));
                },
                None => {},
            }
        }
        assert(r.deep_view() =~= text_tracks(streams.deep_view().take(i + 1)));
        i = i + 1;
    }
    assert(streams.deep_view().take(i as int) =~= streams.deep_view());
    r
}

/// The streams that `serde_json` reads from ffprobe's JSON output: the
/// `streams` array, each element's `codec_name`, `index`, `tags.language`
/// and `tags.title`; `None` where the text is not JSON or has no such array.
pub uninterp spec fn probe_json_streams(text: Seq<char>) -> Option<Seq<ProbeStreamView>>;

/// Wraps `serde_json::from_str` into a `serde_json::Value` and the
/// `Index`, `as_array`, `as_str` and `as_i64` reads of the stream fields; the
/// result is the named reading of the text.
#[verifier::external_body]
fn parse_probe_streams(text: &str) -> (r: Option<Vec<ProbeStream>>)
    ensures
        r.deep_view() == probe_json_streams(text@),
{
    let v: serde_json::Value = serde_json::from_str(text).ok()?;
    Some(v["streams"].as_array()?.iter().map(|s| ProbeStream {
        codec_name: s["codec_name"].as_str().map(String::from),
        index: s["index"].as_i64(),
        language: s["tags"]["language"].as_str().map(String::from),
        title: s["tags"]["title"].as_str().map(String::from),
    }).collect())
}

/// The tracks listed for ffprobe's output, given the streams read from it.
pub open spec fn probe_tracks(parsed: Option<Seq<ProbeStreamView>>) -> Seq<TrackView> {
    match parsed {
        Some(streams) => text_tracks(streams),
        None => seq![],
    }
}

/// The embedded text subtitle tracks listed in ffprobe's JSON output;
/// output that cannot be read lists none.
pub fn embedded_subtitle_tracks(probe_output: &str) -> (r: Vec<EmbeddedSubtitleTrack>)
    ensures
        r.deep_view() == probe_tracks(probe_json_streams(probe_output@)),
{
    match parse_probe_streams(probe_output) {
        Some(streams) => select_text_tracks(&streams),
        None => {
            let r: Vec<EmbeddedSubtitleTrack> = Vec::new();
            assert(r.deep_view() =~= seq![]);
            r
        },
    }
}

/// The arguments of the ffprobe run that lists a video's subtitle streams.
pub fn subtitle_probe_args(video_path: &str) -> (r: Vec<String>)
    ensures
        r.deep_view() == seq![
            "-v"@,
            "error"@,
            "-select_streams"@,
            "s"@,
            "-show_entries"@,
            "stream=index,codec_name:stream_tags=language,title"@,
            "-of"@,
            "json"@,
            video_path@,
        ],
{
    let r = vec![
        String::from_str("-v"),
        String::from_str("error"),
        String::from_str("-select_streams"),
        String::from_str("s"),
        String::from_str("-show_entries"),
        String::from_str("stream=index,codec_name:stream_tags=language,title"),
        String::from_str("-of"),
        String::from_str("json"),
        String::from_str(video_path),
    ];
    assert(r.deep_view() =~= seq![
        "-v"@,
        "error"@,
        "-select_streams"@,
        "s"@,
        "-show_entries"@,
        "stream=index,codec_name:stream_tags=language,title"@,
        "-of"@,
        "json"@,
        video_path@,
    ]);
    r
}

/// The arguments of the ffmpeg run that writes one embedded subtitle stream
/// as SRT to standard output; a negative stream index is refused.
pub fn subtitle_extract_args(video_path: &str, stream_index: i64) -> (r: Result<
    Vec<String>,
    String,
>)
    ensures
        stream_index < 0 ==> (r matches Err(e) && e@ == "Invalid stream index: "@
            + signed_decimal(stream_index as int)),
        stream_index >= 0 ==> (r matches Ok(a) && a.deep_view() == seq![
            "-v"@,
            "error"@,
            "-i"@,
            video_path@,
            "-map"@,
            "0:"@ + signed_decimal(stream_index as int),
            "-f"@,
            "srt"@,
            "pipe:1"@,
        ]),
{
    let n = i64_to_decimal(stream_index);
    if stream_index < 0 {
        return Err(join2("Invalid stream index: ", n.as_str()));
    }
    let r = vec![
        String::from_str("-v"),
        String::from_str("error"),
        String::from_str("-i"),
        String::from_str(video_path),
        String::from_str("-map"),
        join2("0:", n.as_str()),
        String::from_str("-f"),
        String::from_str("srt"),
        String::from_str("pipe:1"),
    ];
    assert(r.deep_view() =~= seq![
        "-v"@,
        "error"@,
        "-i"@,
        video_path@,
        "-map"@,
        "0:"@ + signed_decimal(stream_index as int),
        "-f"@,
        "srt"@,
        "pipe:1"@,
    ]);
    Ok(r)
}

/// The error reported when ffmpeg fails to extract a subtitle stream.
pub fn subtitle_extract_failure(stderr: &str) -> (r: String)
    ensures
        r@ == "FFmpeg failed to extract subtitle: "@ + stderr@,
{
    join2("FFmpeg failed to extract subtitle: ", stderr)
}

} // verus!
