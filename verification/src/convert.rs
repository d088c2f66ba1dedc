//! Converting a video to another container with ffmpeg: the output file's
//! name, the ffmpeg arguments per target format, and the progress reports.
use vstd::prelude::*;
use crate::paths::{
    path_extension, path_extension_of, path_file_stem, path_file_stem_of, path_parent,
    path_parent_of,
};
use crate::text::{join2, join3, same_text, to_uppercase, uppercase};

verus! {

/// The name of the converted file: the video's stem, `_converted`, a dot and
/// the target format.
pub fn converted_file_name(video_stem: &str, target_format: &str) -> (r: String)
    ensures
        r@ == video_stem@ + "_converted."@ + target_format@,
{
    join3(video_stem, "_converted.", target_format)
}

/// The codec arguments for a target format; `None` for an unsupported one.
pub open spec fn codec_args(target: Seq<char>) -> Option<Seq<Seq<char>>> {
    if target == "mp4"@ {
        Some(
            seq![
                "-c:v"@,
                "libx264"@,
                "-preset"@,
                "medium"@,
                "-crf"@,
                "23"@,
                "-c:a"@,
                "aac"@,
                "-b:a"@,
                "192k"@,
            ],
        )
    } else if target == "webm"@ {
        Some(seq!["-c:v"@, "libvpx-vp9"@, "-crf"@, "30"@, "-b:v"@, "0"@, "-c:a"@, "libopus"@])
    } else if target == "mkv"@ {
        Some(seq!["-c:v"@, "copy"@, "-c:a"@, "copy"@])
    } else {
        None
    }
}

fn strings_of(items: Vec<&str>) -> (r: Vec<String>)
    ensures
        r.deep_view() == items.deep_view(),
{
    let mut r: Vec<String> = Vec::new();
    let mut i: usize = 0;
    while i < items.len()
        invariant
            i <= items.len(),
            r.deep_view() == items.deep_view().take(i as int),
        decreases items.len() - i,
    {
        let ghost before = r.deep_view();
        r.push(String::from_str(items[i]));
        assert(r.deep_view() =~= before.push(items[i as int]@));
        assert(items.deep_view()[i as int] == items[i as int]@);
        assert(r.deep_view() =~= items.deep_view().take(i + 1));
        i = i + 1;
    }
    assert(items.deep_view().take(i as int) =~= items.deep_view());
    r
}

/// Where the converted file of a video goes, given the video's directory and
/// file stem: that directory, and the stem followed by `_converted.` and the
/// target format; refused when the directory or the stem is missing.
pub fn converted_location(parent: Option<String>, stem: Option<String>, target_format: &str) -> (r:
    Result<(String, String), String>)
    ensures
        parent is None ==> (r matches Err(e) && e@ == "Could not get video directory"@),
        parent is Some && stem is None ==> (r matches Err(e) && e@
            == "Could not get video filename"@),
        parent is Some && stem is Some ==> (r matches Ok((d, n)) && d@ == parent.unwrap()@ && n@
            == stem.unwrap()@ + "_converted."@ + target_format@),
{
    match parent {
        None => Err(String::from_str("Could not get video directory")),
        Some(d) => match stem {
            None => Err(String::from_str("Could not get video filename")),
            Some(t) => {
                let name = converted_file_name(t.as_str(), target_format);
                Ok((d, name))
            },
        },
    }
}

/// Where the converted file of the video at `video_path` goes: the
/// directory and file stem that std's `Path` reads from the path, handed to
/// `converted_location`.
pub fn converted_output_location(video_path: &str, target_format: &str) -> (r: Result<
    (String, String),
    String,
>)
    ensures
        path_parent_of(video_path@) is None ==> (r matches Err(e) && e@
            == "Could not get video directory"@),
        path_parent_of(video_path@) is Some && path_file_stem_of(video_path@) is None ==> (
        r matches Err(e) && e@ == "Could not get video filename"@),
        path_parent_of(video_path@) is Some && path_file_stem_of(video_path@) is Some ==> (
        r matches Ok((d, n)) && d@ == path_parent_of(video_path@).unwrap() && n@
            == path_file_stem_of(video_path@).unwrap() + "_converted."@ + target_format@),
        video_path@.len() == 0 ==> (r matches Err(e) && e@ == "Could not get video directory"@),
{
    let parent = path_parent(video_path);
    let stem = path_file_stem(video_path);
    converted_location(parent, stem, target_format)
}

/// The full ffmpeg argument list for converting `input_path` into
/// `output_path` in `target_format`, overwriting the output; an unsupported
/// format is refused with `Unsupported format: ` and its name.
pub fn ffmpeg_convert_args(input_path: &str, output_path: &str, target_format: &str) -> (r:
    Result<Vec<String>, String>)
    ensures
        match codec_args(target_format@) {
            Some(c) => r matches Ok(a) && a.deep_view() == seq!["-i"@, input_path@] + c + seq![
                "-y"@,
                output_path@,
            ],
            None => r matches Err(e) && e@ == "Unsupported format: "@ + target_format@,
        },
{
    let codec = if same_text(target_format, "mp4") {
        vec!["-c:v", "libx264", "-preset", "medium", "-crf", "23", "-c:a", "aac", "-b:a", "192k"]
    } else if same_text(target_format, "webm") {
        vec!["-c:v", "libvpx-vp9", "-crf", "30", "-b:v", "0", "-c:a", "libopus"]
    } else if same_text(target_format, "mkv") {
        vec!["-c:v", "copy", "-c:a", "copy"]
    } else {
        return Err(join2("Unsupported format: ", target_format));
    };
    assert(codec_args(target_format@) == Some(codec.deep_view()));
    let mut args = vec![String::from_str("-i"), String::from_str(input_path)];
    let mut middle = strings_of(codec);
    args.append(&mut middle);
    args.push(String::from_str("-y"));
    args.push(String::from_str(output_path));
    assert(args.deep_view() =~= seq!["-i"@, input_path@] + codec_args(target_format@).unwrap()
        + seq!["-y"@, output_path@]);
    Ok(args)
}

/// The error reported when ffmpeg fails to convert.
pub fn conversion_failure(stderr: &str) -> (r: String)
    ensures
        r@ == "FFmpeg conversion failed: "@ + stderr@,
{
    join2("FFmpeg conversion failed: ", stderr)
}

/// One progress report of a conversion.
pub struct ConversionUpdate {
    pub stage: String,
    pub percent: u32,
    pub message: String,
}

/// The report sent when a conversion starts.
pub fn conversion_started(target_format: &str) -> (r: ConversionUpdate)
    ensures
        r.stage@ == "starting"@,
        r.percent == 0,
        r.message@ == "Starting conversion to "@ + uppercase(target_format@) + "..."@,
{
    let upper = to_uppercase(target_format);
    ConversionUpdate {
        stage: String::from_str("starting"),
        percent: 0,
        message: join3("Starting conversion to ", upper.as_str(), "..."),
    }
}

/// The report sent while ffmpeg runs.
pub fn conversion_running(target_format: &str) -> (r: ConversionUpdate)
    ensures
        r.stage@ == "converting"@,
        r.percent == 50,
        r.message@ == "Converting to "@ + uppercase(target_format@) + "..."@,
{
    let upper = to_uppercase(target_format);
    ConversionUpdate {
        stage: String::from_str("converting"),
        percent: 50,
        message: join3("Converting to ", upper.as_str(), "..."),
    }
}

/// The report sent when a conversion has finished.
pub fn conversion_complete() -> (r: ConversionUpdate)
    ensures
        r.stage@ == "complete"@,
        r.percent == 100,
        r.message@ == "Conversion complete!"@,
{
    ConversionUpdate {
        stage: String::from_str("complete"),
        percent: 100,
        message: String::from_str("Conversion complete!"),
    }
}

/// The expected size of the converted file, in percent of the original, by
/// target format.
pub open spec fn size_ratio_percent(target: Seq<char>) -> u32 {
    if target == "mp4"@ {
        85
    } else if target == "webm"@ {
        70
    } else if target == "mkv"@ {
        90
    } else {
        100
    }
}

/// The rough size ratio of a conversion to `target_format`, in percent.
pub fn estimated_size_percent(target_format: &str) -> (r: u32)
    ensures
        r == size_ratio_percent(target_format@),
{
    if same_text(target_format, "mp4") {
        85
    } else if same_text(target_format, "webm") {
        70
    } else if same_text(target_format, "mkv") {
        90
    } else {
        100
    }
}

/// The display name of a video's format: its extension in upper case, or
/// `UNKNOWN` when it has none that reads as text.
pub fn video_format_name(extension: Option<&str>) -> (r: String)
    ensures
        match extension {
            Some(e) => r@ == uppercase(e@),
            None => r@ == uppercase("unknown"@),
        },
{
    match extension {
        Some(e) => to_uppercase(e),
        None => to_uppercase("unknown"),
    }
}

/// The display name of the format of the video at `video_path`.
pub fn video_format_of(video_path: &str) -> (r: String)
    ensures
        r@ == uppercase(
            match path_extension_of(video_path@) {
                Some(e) => e,
                None => "unknown"@,
            },
        ),
        video_path@.len() == 0 ==> r@ == uppercase("unknown"@),
{
    let ext = path_extension(video_path);
    match ext {
        Some(e) => video_format_name(Some(e.as_str())),
        None => video_format_name(None),
    }
}

} // verus!
