# glucose

The verified core of the Glucose desktop media player.

`src/` is a Verus library. Its functions carry contracts that Verus proves,
except a few small wrappers around std, `urlencoding` and `serde_json`
(white space, case mapping, path parts, percent-decoding, ffprobe's JSON),
whose contracts are trusted and name what those calls return:

- `text`: trimming, prefix and suffix tests, decimal formatting, and the
  case-mapping and white-space primitives of std behind small wrappers.
- `paths`: cleaning of command-line paths, media file recognition, and the
  paths of `file://` URLs (decoded with `urlencoding`).
- `pending`: the queue of files waiting for the user interface and the
  schedule on which the first of them is offered.
- `pip`: the picture-in-picture state (what is saved on entry, what is
  restored on exit) and the placement of the small window.
- `subtitles`: subtitle files beside a video, the text subtitle streams
  listed by ffprobe (read with `serde_json`), and the ffprobe/ffmpeg
  arguments.
- `convert`: ffmpeg arguments per target format, output names and progress
  reports.
- `progress`: the watch-progress store, keyed by video path.
- `recent`: the recent-videos listing, newest first, at most twenty.

`app/` is the Tauri shell: commands, file system and process I/O, the serde
forms of the library's types and the floating-point values.
