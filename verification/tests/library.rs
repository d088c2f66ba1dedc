use glucose::convert::{
    converted_location, converted_output_location, video_format_of, conversion_complete, conversion_failure, conversion_running, conversion_started,
    converted_file_name, estimated_size_percent, ffmpeg_convert_args, video_format_name,
};
use glucose::paths::{
    audio_extensions, convert_file_path, is_media_extension, is_media_file_name,
    local_path_of_file_url, media_extensions, media_files_from_args, media_files_from_urls,
    remove_occurrences, split_video_path, video_extensions, video_parts,
};
use glucose::pending::{offer_step, retry_delay_ms, OfferStep, PendingFiles, MAX_FILE_LOADING_ATTEMPTS};
use glucose::pip::{pip_position, screen_size, PipError, PipState, PipWindowConfig, WindowState};
use glucose::progress::{WatchProgress, WatchProgressStore};
use glucose::recent::{
    duration_probe_args, recent_order, recent_search_folders, select_recent_videos, VideoFile,
};
use glucose::sanitize_path;
use glucose::subtitles::{
    embedded_subtitle_tracks, first_subtitle_match, is_subtitle_for, select_text_tracks,
    subtitle_extract_args, subtitle_extract_failure, subtitle_file_names, subtitle_probe_args,
    ProbeStream,
};
use glucose::text::{i64_to_decimal, u64_to_decimal};

fn strings(v: &[&str]) -> Vec<String> {
    v.iter().map(|s| s.to_string()).collect()
}

#[test]
fn sanitize_trims_and_strips_quotes() {
    assert_eq!(sanitize_path("  \"C:\\Videos\\a b.mp4\"  "), "C:\\Videos\\a b.mp4");
}

#[test]
fn sanitize_strips_verbatim_prefix() {
    assert_eq!(sanitize_path("\\\\?\\C:\\x.mkv"), "C:\\x.mkv");
    assert_eq!(sanitize_path("\"\\\\?\\D:\\long\\path.avi\""), "D:\\long\\path.avi");
}

#[test]
fn sanitize_leaves_plain_paths() {
    assert_eq!(sanitize_path("/home/me/movie.mp4"), "/home/me/movie.mp4");
    assert_eq!(sanitize_path("\t/tmp/a.mp3\n"), "/tmp/a.mp3");
    assert_eq!(sanitize_path("\"\""), "");
    assert_eq!(sanitize_path("\"half.mp4"), "\"half.mp4");
    assert_eq!(sanitize_path(""), "");
}

#[test]
fn asset_url_of_a_path() {
    assert_eq!(convert_file_path("C:/v/a.mp4".to_string()), Ok("https://asset.localhost/C:/v/a.mp4".to_string()));
}

#[test]
fn extension_lists() {
    assert_eq!(video_extensions().len(), 11);
    assert_eq!(audio_extensions().len(), 9);
    let mut all = video_extensions();
    all.extend(audio_extensions());
    assert_eq!(all, media_extensions());
}

#[test]
fn media_names_ignore_case() {
    assert!(is_media_file_name("MOVIE.MKV"));
    assert!(is_media_file_name("/music/song.Flac"));
    assert!(!is_media_file_name("notes.txt"));
    assert!(!is_media_file_name("mp4"));
    assert!(!is_media_file_name("movie.mp4.part"));
    assert!(is_media_extension("WebM"));
    assert!(!is_media_extension(".mp4"));
    assert!(!is_media_extension("srt"));
}

#[test]
fn media_files_named_on_the_command_line() {
    let args = strings(&["glucose", "a.mp4", "notes.txt", " \"B.FLAC\" ", "\\\\?\\C:\\c.wmv"]);
    assert_eq!(media_files_from_args(&args), strings(&["a.mp4", "B.FLAC", "C:\\c.wmv"]));
    assert!(media_files_from_args(&strings(&["glucose"])).is_empty());
    assert!(media_files_from_args(&Vec::new()).is_empty());
    assert!(media_files_from_args(&strings(&["a.mp4"])).is_empty());
}

#[test]
fn remove_occurrences_removes_every_match() {
    assert_eq!(remove_occurrences("file://a/file://b", "file://"), "a/b");
    assert_eq!(remove_occurrences("aaa", "aa"), "a");
    assert_eq!(remove_occurrences("abc", ""), "abc");
}

#[test]
fn file_urls_are_decoded() {
    assert_eq!(local_path_of_file_url("file:///home/me/My%20Movie.mp4"), "/home/me/My Movie.mp4");
    assert_eq!(local_path_of_file_url("file:///tmp/%FF.mp4"), "");
    assert_eq!(local_path_of_file_url("file:///tmp/a+b.mp4"), "/tmp/a+b.mp4");
    let urls = strings(&[
        "file:///home/me/My%20Movie.mp4",
        "http://example.com/a.mp4",
        "file:///tmp/readme.txt",
        "file:///tmp/Song.OGG",
    ]);
    assert_eq!(media_files_from_urls(&urls), strings(&["/home/me/My Movie.mp4", "/tmp/Song.OGG"]));
}

#[test]
fn decimal_text() {
    assert_eq!(u64_to_decimal(0), "0");
    assert_eq!(u64_to_decimal(1234567890), "1234567890");
    assert_eq!(u64_to_decimal(u64::MAX), u64::MAX.to_string());
    assert_eq!(i64_to_decimal(-42), "-42");
    assert_eq!(i64_to_decimal(i64::MIN), i64::MIN.to_string());
    assert_eq!(i64_to_decimal(7), "7");
}

#[test]
fn pending_files_come_out_in_order() {
    let mut q = PendingFiles::new();
    assert!(q.process_video_files(&strings(&["a.mp4", "b.mkv"])));
    assert!(!q.process_video_files(&Vec::new()));
    assert!(q.process_video_files(&strings(&["c.avi"])));
    assert_eq!(q.len(), 3);
    assert_eq!(q.get_pending_file(), Some("a.mp4".to_string()));
    assert_eq!(q.get_pending_file(), Some("b.mkv".to_string()));
    assert_eq!(q.get_pending_file(), Some("c.avi".to_string()));
    assert_eq!(q.get_pending_file(), None);
}

#[test]
fn frontend_ready_keeps_the_queue() {
    let mut q = PendingFiles::new();
    q.process_video_files(&strings(&["a.mp4", "b.mkv"]));
    assert_eq!(q.frontend_ready(), strings(&["a.mp4", "b.mkv"]));
    assert_eq!(q.len(), 2);
    assert_eq!(q.get_pending_file(), Some("a.mp4".to_string()));
    let mut empty = PendingFiles::new();
    assert!(empty.frontend_ready().is_empty());
    assert_eq!(q.take_all(), strings(&["b.mkv"]));
    assert_eq!(q.len(), 0);
}

#[test]
fn marking_processed_stops_the_offers() {
    let mut q = PendingFiles::new();
    assert!(!q.processed());
    assert!(matches!(offer_step(1, q.processed()), OfferStep::Offer { wait_ms: Some(500) }));
    q.mark_file_processed();
    assert!(q.processed());
    assert!(matches!(offer_step(1, q.processed()), OfferStep::Stop));
}

#[test]
fn offer_schedule() {
    assert_eq!(retry_delay_ms(1), Some(500));
    for a in 2..=5 {
        assert_eq!(retry_delay_ms(a), Some(2000));
    }
    for a in 6..=15 {
        assert_eq!(retry_delay_ms(a), Some(1000));
    }
    for a in 16..=29 {
        assert_eq!(retry_delay_ms(a), Some(500));
    }
    assert_eq!(retry_delay_ms(30), None);
    assert!(matches!(offer_step(30, false), OfferStep::Offer { wait_ms: None }));
    let total: u64 = (1..MAX_FILE_LOADING_ATTEMPTS).map(|a| retry_delay_ms(a).unwrap()).sum();
    assert_eq!(total, 25500);
}

fn window() -> WindowState {
    WindowState { width: 1280, height: 720, x: 100, y: 50, decorations_enabled: false, resizable: false, pip_active: false }
}

#[test]
fn pip_round_trip_restores_the_window() {
    let mut pip = PipState::new();
    assert!(!pip.is_pip_active());
    pip.save_for_pip(window());
    assert!(pip.is_pip_active());
    let restored = pip.exit_pip().unwrap();
    let w = window();
    assert_eq!((restored.width, restored.height, restored.x, restored.y), (w.width, w.height, w.x, w.y));
    assert_eq!((restored.decorations_enabled, restored.resizable), (false, false));
    assert!(!pip.is_pip_active());
}

#[test]
fn pip_exit_refusals() {
    let mut pip = PipState::new();
    assert_eq!(pip.exit_pip(), Err(PipError::NoSavedState));
    assert_eq!(PipError::NoSavedState.message(), "Cannot exit PiP mode: no saved window state found");
    assert_eq!(PipError::NotActive.message(), "Cannot exit PiP mode: PiP mode is not currently active");
    pip.save_for_pip(window());
    assert!(pip.exit_pip().is_ok());
    assert_eq!(pip.exit_pip(), Err(PipError::NoSavedState));
}

#[test]
fn pip_window_placement() {
    let config = PipWindowConfig { width: 480, height: 270, padding: 20 };
    assert_eq!(screen_size(None), (1920, 1080));
    assert_eq!(screen_size(Some((2560, 1440))), (2560, 1440));
    assert_eq!(screen_size(Some((3_000_000_000, 5))), (3_000_000_000u32 as i32, 5));
    assert_eq!(pip_position(config, (1920, 1080)), (1420, 790));
    assert_eq!(pip_position(config, screen_size(Some((2560, 1440)))), (2060, 1150));
}

#[test]
fn video_path_parts() {
    assert_eq!(video_parts(None, Some("a".to_string())), Err("Could not get video directory".to_string()));
    assert_eq!(video_parts(Some("/v".to_string()), None), Err("Could not get video filename".to_string()));
    assert_eq!(video_parts(Some("/v".to_string()), Some("a".to_string())), Ok(("/v".to_string(), "a".to_string())));
    assert_eq!(split_video_path("/v/My Movie.mkv"), Ok(("/v".to_string(), "My Movie".to_string())));
    assert_eq!(split_video_path("clip.mp4"), Ok(("".to_string(), "clip".to_string())));
    assert_eq!(split_video_path(""), Err("Could not get video directory".to_string()));
    assert_eq!(split_video_path("/"), Err("Could not get video directory".to_string()));
}

#[test]
fn subtitle_names_beside_a_video() {
    assert_eq!(
        subtitle_file_names("My Movie"),
        strings(&["My Movie.srt", "My Movie.vtt", "My Movie.ass", "My Movie.ssa", "My Movie.sub"])
    );
}

#[test]
fn subtitle_matching_ignores_case() {
    assert!(is_subtitle_for("Movie", "MOVIE", "SRT"));
    assert!(is_subtitle_for("movie", "Movie", "ssa"));
    assert!(!is_subtitle_for("movie", "movie", "txt"));
    assert!(!is_subtitle_for("movie", "movie2", "srt"));
    let entries = vec![
        ("movie".to_string(), "mp4".to_string()),
        ("other".to_string(), "srt".to_string()),
        ("MOVIE".to_string(), "Vtt".to_string()),
        ("movie".to_string(), "srt".to_string()),
    ];
    assert_eq!(first_subtitle_match("Movie", &entries), Some(2));
    assert_eq!(first_subtitle_match("nothing", &entries), None);
}

const PROBE_OUTPUT: &str = r#"{
  "programs": [],
  "streams": [
    { "index": 2, "codec_name": "subrip", "tags": { "language": "eng", "title": "English" } },
    { "index": 3, "codec_name": "hdmv_pgs_subtitle", "tags": { "language": "ger" } },
    { "index": 4, "codec_name": "ass" },
    { "codec_name": "webvtt" },
    { "index": 6 },
    { "index": 7.5, "codec_name": "srt" },
    { "index": 8, "codec_name": "mov_text", "tags": { "language": 5 } }
  ]
}"#;

#[test]
fn embedded_text_tracks_from_ffprobe() {
    let tracks = embedded_subtitle_tracks(PROBE_OUTPUT);
    let summary: Vec<(i64, String, Option<String>, Option<String>)> = tracks
        .into_iter()
        .map(|t| (t.index, t.codec_name, t.language, t.title))
        .collect();
    assert_eq!(
        summary,
        vec![
            (2, "subrip".to_string(), Some("eng".to_string()), Some("English".to_string())),
            (4, "ass".to_string(), None, None),
            (8, "mov_text".to_string(), None, None),
        ]
    );
}

#[test]
fn unreadable_probe_output_lists_nothing() {
    assert!(embedded_subtitle_tracks("not json").is_empty());
    assert!(embedded_subtitle_tracks("{\"streams\": 3}").is_empty());
    assert!(embedded_subtitle_tracks("{}").is_empty());
}

#[test]
fn stream_without_codec_counts_as_unknown() {
    let streams = vec![
        ProbeStream { codec_name: None, index: Some(1), language: None, title: None },
        ProbeStream { codec_name: Some("text".to_string()), index: Some(9), language: None, title: Some("t".to_string()) },
    ];
    let tracks = select_text_tracks(&streams);
    assert_eq!(tracks.len(), 1);
    assert_eq!(tracks[0].index, 9);
    assert_eq!(tracks[0].title, Some("t".to_string()));
}

#[test]
fn subtitle_commands() {
    assert_eq!(
        subtitle_probe_args("/v/a.mkv"),
        strings(&["-v", "error", "-select_streams", "s", "-show_entries", "stream=index,codec_name:stream_tags=language,title", "-of", "json", "/v/a.mkv"])
    );
    assert_eq!(
        subtitle_extract_args("/v/a.mkv", 3),
        Ok(strings(&["-v", "error", "-i", "/v/a.mkv", "-map", "0:3", "-f", "srt", "pipe:1"]))
    );
    assert_eq!(subtitle_extract_args("/v/a.mkv", -2), Err("Invalid stream index: -2".to_string()));
    assert_eq!(subtitle_extract_failure("boom"), "FFmpeg failed to extract subtitle: boom");
}

#[test]
fn conversion_commands() {
    assert_eq!(
        ffmpeg_convert_args("in.avi", "out.mp4", "mp4"),
        Ok(strings(&["-i", "in.avi", "-c:v", "libx264", "-preset", "medium", "-crf", "23", "-c:a", "aac", "-b:a", "192k", "-y", "out.mp4"]))
    );
    assert_eq!(
        ffmpeg_convert_args("in.avi", "out.webm", "webm"),
        Ok(strings(&["-i", "in.avi", "-c:v", "libvpx-vp9", "-crf", "30", "-b:v", "0", "-c:a", "libopus", "-y", "out.webm"]))
    );
    assert_eq!(
        ffmpeg_convert_args("in.avi", "out.mkv", "mkv"),
        Ok(strings(&["-i", "in.avi", "-c:v", "copy", "-c:a", "copy", "-y", "out.mkv"]))
    );
    assert_eq!(ffmpeg_convert_args("in.avi", "out.MP4", "MP4"), Err("Unsupported format: MP4".to_string()));
    assert_eq!(conversion_failure("bad"), "FFmpeg conversion failed: bad");
}

#[test]
fn conversion_reports() {
    assert_eq!(converted_file_name("clip", "webm"), "clip_converted.webm");
    let s = conversion_started("webm");
    assert_eq!((s.stage.as_str(), s.percent, s.message.as_str()), ("starting", 0, "Starting conversion to WEBM..."));
    let r = conversion_running("mkv");
    assert_eq!((r.stage.as_str(), r.percent, r.message.as_str()), ("converting", 50, "Converting to MKV..."));
    let c = conversion_complete();
    assert_eq!((c.stage.as_str(), c.percent, c.message.as_str()), ("complete", 100, "Conversion complete!"));
}

#[test]
fn size_estimates_and_format_names() {
    assert_eq!(estimated_size_percent("mp4"), 85);
    assert_eq!(estimated_size_percent("webm"), 70);
    assert_eq!(estimated_size_percent("mkv"), 90);
    assert_eq!(estimated_size_percent("avi"), 100);
    assert_eq!(video_format_name(Some("mkv")), "MKV");
    assert_eq!(video_format_name(None), "UNKNOWN");
    assert_eq!(video_format_of("/v/a.mkv"), "MKV");
    assert_eq!(video_format_of("/v/noext"), "UNKNOWN");
    assert_eq!(
        converted_output_location("/v/clip.avi", "mp4"),
        Ok(("/v".to_string(), "clip_converted.mp4".to_string()))
    );
    assert_eq!(converted_output_location("", "mp4"), Err("Could not get video directory".to_string()));
}

fn progress(path: &str, t: f64, d: f64, when: u64) -> WatchProgress {
    WatchProgress { path: path.to_string(), current_time_bits: t.to_bits(), duration_bits: d.to_bits(), last_watched: when }
}

#[test]
fn saved_progress_is_read_back() {
    let mut store = WatchProgressStore::new();
    assert!(store.get_watch_progress("/v/a.mp4").is_none());
    store.save_watch_progress("/v/a.mp4".to_string(), 12.5f64.to_bits(), 100.0f64.to_bits(), 1000);
    let p = store.get_watch_progress("/v/a.mp4").unwrap();
    assert_eq!(p.path, "/v/a.mp4");
    assert_eq!(f64::from_bits(p.current_time_bits), 12.5);
    assert_eq!(f64::from_bits(p.duration_bits), 100.0);
    assert_eq!(p.last_watched, 1000);
}

#[test]
fn saving_again_replaces_only_that_video() {
    let mut store = WatchProgressStore::new();
    store.save_watch_progress("a".to_string(), 1.0f64.to_bits(), 10.0f64.to_bits(), 1);
    store.save_watch_progress("b".to_string(), 2.0f64.to_bits(), 20.0f64.to_bits(), 2);
    store.save_watch_progress("a".to_string(), 3.0f64.to_bits(), 10.0f64.to_bits(), 3);
    assert_eq!(store.len(), 2);
    assert_eq!(store.get_watch_progress("a").unwrap().last_watched, 3);
    assert_eq!(store.get_watch_progress("b").unwrap().last_watched, 2);
    let mut all: Vec<(String, u64)> = store.get_all_watch_progress().into_iter().map(|(k, v)| (k, v.last_watched)).collect();
    all.sort();
    assert_eq!(all, vec![("a".to_string(), 3), ("b".to_string(), 2)]);
}

#[test]
fn loading_pairs_keeps_the_later_entry() {
    let pairs = vec![
        ("a".to_string(), progress("a", 1.0, 2.0, 1)),
        ("b".to_string(), progress("elsewhere", 1.0, 2.0, 2)),
        ("a".to_string(), progress("a", 1.5, 2.0, 5)),
    ];
    let store = WatchProgressStore::from_pairs(&pairs);
    assert_eq!(store.len(), 2);
    assert_eq!(store.get_watch_progress("a").unwrap().last_watched, 5);
    assert_eq!(store.get_watch_progress("b").unwrap().path, "elsewhere");
    assert!(store.get_watch_progress("c").is_none());
}

#[test]
fn recent_order_newest_first_stable() {
    assert_eq!(recent_order(&vec![5, 9, 5, 1]), vec![1, 0, 2, 3]);
    assert_eq!(recent_order(&Vec::new()), Vec::<usize>::new());
    let many: Vec<u64> = (0..30).map(|i| (i % 7) as u64).collect();
    let order = recent_order(&many);
    assert_eq!(order.len(), 20);
    let mut expected: Vec<usize> = (0..30).collect();
    expected.sort_by(|a, b| many[*b].cmp(&many[*a]));
    expected.truncate(20);
    assert_eq!(order, expected);
}

fn video(name: &str, modified: u64) -> VideoFile {
    VideoFile { path: format!("/v/{}", name), name: name.to_string(), size: 1, modified, duration_bits: None }
}

#[test]
fn recent_videos_listing() {
    let videos = vec![video("old.mp4", 1), video("new.mkv", 50), video("mid.avi", 20)];
    let names: Vec<String> = select_recent_videos(&videos).into_iter().map(|v| v.name).collect();
    assert_eq!(names, strings(&["new.mkv", "mid.avi", "old.mp4"]));
    let lots: Vec<VideoFile> = (0..25).map(|i| video(&format!("{}.mp4", i), i)).collect();
    let listed = select_recent_videos(&lots);
    assert_eq!(listed.len(), 20);
    assert_eq!(listed[0].name, "24.mp4");
    assert_eq!(listed[19].name, "5.mp4");
}

#[test]
fn probe_commands_for_the_listing() {
    assert_eq!(recent_search_folders(), vec!["Videos", "Downloads", "Desktop", "Documents"]);
    assert_eq!(
        duration_probe_args("/v/a.mp4"),
        strings(&["-v", "error", "-show_entries", "format=duration", "-of", "default=noprint_wrappers=1:nokey=1", "/v/a.mp4"])
    );
}

#[test]
fn converted_location_from_path_parts() {
    assert_eq!(
        converted_location(Some("/videos".to_string()), Some("movie".to_string()), "mp4"),
        Ok(("/videos".to_string(), "movie_converted.mp4".to_string()))
    );
    assert_eq!(
        converted_location(None, Some("movie".to_string()), "mp4"),
        Err("Could not get video directory".to_string())
    );
    assert_eq!(
        converted_location(Some("/videos".to_string()), None, "mp4"),
        Err("Could not get video filename".to_string())
    );
    assert_eq!(
        converted_output_location("/videos/movie.avi", "mp4"),
        Ok(("/videos".to_string(), "movie_converted.mp4".to_string()))
    );
}

#[test]
fn pip_state_stays_empty_or_active() {
    let mut pip = PipState::new();
    for _ in 0..3 {
        if !pip.is_pip_active() {
            pip.save_for_pip(window());
        }
        pip.save_for_pip(window());
        assert_ne!(pip.exit_pip(), Err(PipError::NotActive));
        assert_eq!(pip.exit_pip(), Err(PipError::NoSavedState));
    }
}

#[test]
fn sanitize_ignores_surrounding_white_space() {
    let path = "\"C:\\Videos\\a.mp4\"";
    let expected = sanitize_path(path);
    assert_eq!(sanitize_path(&format!(" \t{}\n\u{a0}", path)), expected);
    assert_eq!(sanitize_path(path.trim()), expected);
    assert_eq!(sanitize_path(&format!("\u{3000}{}\u{2028}", path)), expected);
}

#[test]
fn offers_stop_after_the_last_attempt() {
    assert!(matches!(offer_step(31, false), OfferStep::Stop));
    assert!(matches!(offer_step(29, false), OfferStep::Offer { wait_ms: Some(500) }));
}

#[test]
fn video_format_from_path() {
    assert_eq!(video_format_of("/v/clip.Mp4"), "MP4");
    assert_eq!(video_format_of(""), "UNKNOWN");
    assert_eq!(split_video_path("/v/a.b.mkv"), Ok(("/v".to_string(), "a.b".to_string())));
}
