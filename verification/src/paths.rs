//! Cleaning of paths handed to the program and recognition of media files.
use vstd::prelude::*;
use crate::text::{
    all_white_space, lemma_trim_idempotent, lemma_trim_ignores_surrounding_white, ends_with, is_white_space, trim_end, trim_start, has_prefix, has_suffix, join2, lowercase, same_text, starts_with,
    to_lowercase, trim, trim_str,
};

verus! {

/// `t` without one pair of surrounding double quotes, when it has them.
pub open spec fn strip_quotes(t: Seq<char>) -> Seq<char> {
    if t.len() >= 2 && t[0] == '"' && t.last() == '"' {
        t.subrange(1, t.len() - 1)
    } else {
        t
    }
}

/// The Windows verbatim prefix `\\?\`.
pub open spec fn verbatim_prefix() -> Seq<char> {
    seq!['\\', '\\', '?', '\\']
}

/// `t` without a leading verbatim prefix, when it has one.
pub open spec fn strip_verbatim(t: Seq<char>) -> Seq<char> {
    if has_prefix(t, verbatim_prefix()) {
        t.subrange(4, t.len() as int)
    } else {
        t
    }
}

/// A path as handed over on the command line, cleaned: white space trimmed,
/// one pair of surrounding quotes removed, then a verbatim prefix removed.
pub open spec fn sanitized(s: Seq<char>) -> Seq<char> {
    strip_verbatim(strip_quotes(trim(s)))
}

/// Cleaning refuses a path that trims to a lone double quote.
pub open spec fn sanitizable(s: Seq<char>) -> bool {
    trim(s) != seq!['"']
}

/// A path without surrounding white space, quotes or verbatim prefix is
/// left as it is.
pub proof fn law_clean_path_unchanged(s: Seq<char>)
    requires
        s.len() > 0 ==> !is_white_space(s[0]) && !is_white_space(s.last()),
        !(s.len() >= 2 && s[0] == '"' && s.last() == '"'),
        !has_prefix(s, verbatim_prefix()),
    ensures
        sanitizable(s) ==> sanitized(s) == s,
{
    assert(trim_start(s) == s);
    assert(trim_end(s) == s);
}

/// White space around a path does not change how it is cleaned, nor
/// whether it can be.
pub proof fn law_sanitize_ignores_surrounding_white_space(a: Seq<char>, s: Seq<char>, b: Seq<char>)
    requires
        all_white_space(a),
        all_white_space(b),
    ensures
        sanitizable(a + s + b) == sanitizable(s),
        sanitized(a + s + b) == sanitized(s),
{
    lemma_trim_ignores_surrounding_white(a, s, b);
}

/// Cleaning a path that was trimmed first gives what cleaning the path
/// itself gives, and is refused on the same paths.
pub proof fn law_sanitize_after_trim(s: Seq<char>)
    ensures
        sanitizable(trim(s)) == sanitizable(s),
        sanitized(trim(s)) == sanitized(s),
{
    lemma_trim_idempotent(s);
}

/// Cleans a path handed over on the command line: trims white space,
/// removes one pair of surrounding double quotes and then a leading `\\?\`.
pub fn sanitize_path(path: &str) -> (r: String)
    requires
        sanitizable(path@),
    ensures
        r@ == sanitized(path@),
{
    let t = trim_str(path);
    let n = t.unicode_len();
    let t2 = if n >= 2 && t.get_char(0) == '"' && t.get_char(n - 1) == '"' {
        t.substring_char(1, n - 1)
    } else {
        proof {
            if n == 1 && t@[0] == '"' {
                assert(t@ =~= seq!['"']);
            }
        }
        t
    };
    assert(t2@ == strip_quotes(trim(path@)));
    let prefix = "\\\\?\\";
    proof {
        reveal_strlit("\\\\?\\");
        assert(prefix@ =~= verbatim_prefix());
    }
    if starts_with(t2, prefix) {
        String::from_str(t2.substring_char(4, t2.unicode_len()))
    } else {
        String::from_str(t2)
    }
}

/// The asset URL under which the web view loads a local file.
pub fn convert_file_path(path: String) -> (r: Result<String, String>)
    ensures
        r matches Ok(u) && u@ == "https://asset.localhost/"@ + path@,
{
    Ok(join2("https://asset.localhost/", path.as_str()))
}

/// Video file extensions the program opens.
pub open spec fn video_extension_list() -> Seq<Seq<char>> {
    seq![
        "mp4"@, "mkv"@, "avi"@, "mov"@, "wmv"@, "flv"@, "webm"@, "m4v"@, "mpg"@, "mpeg"@,
        "ogv"@,
    ]
}

/// Audio file extensions the program opens.
pub open spec fn audio_extension_list() -> Seq<Seq<char>> {
    seq!["mp3"@, "flac"@, "wav"@, "aac"@, "ogg"@, "opus"@, "m4a"@, "aiff"@, "wma"@]
}

/// All media extensions: the video ones, then the audio ones.
pub open spec fn media_extension_list() -> Seq<Seq<char>> {
    video_extension_list() + audio_extension_list()
}

/// The video file extensions, for the open-file dialog's filter.
pub fn video_extensions() -> (r: Vec<&'static str>)
    ensures
        r.deep_view() == video_extension_list(),
{
    let r = vec!["mp4", "mkv", "avi", "mov", "wmv", "flv", "webm", "m4v", "mpg", "mpeg", "ogv"];
    assert(r.deep_view() =~= video_extension_list());
    r
}

/// The audio file extensions, for the open-file dialog's filter.
pub fn audio_extensions() -> (r: Vec<&'static str>)
    ensures
        r.deep_view() == audio_extension_list(),
{
    let r = vec!["mp3", "flac", "wav", "aac", "ogg", "opus", "m4a", "aiff", "wma"];
    assert(r.deep_view() =~= audio_extension_list());
    r
}

/// All media extensions recognised by the program.
pub fn media_extensions() -> (r: Vec<&'static str>)
    ensures
        r.deep_view() == media_extension_list(),
{
    let r = vec![
        "mp4", "mkv", "avi", "mov", "wmv", "flv", "webm", "m4v", "mpg", "mpeg", "ogv", "mp3",
        "flac", "wav", "aac", "ogg", "opus", "m4a", "aiff", "wma",
    ];
    assert(r.deep_view() =~= media_extension_list());
    r
}

/// A name is a media file name when, lowercased, it ends in `.` and one of
/// the media extensions.
pub open spec fn is_media_name(name: Seq<char>) -> bool {
    exists|i: int|
        0 <= i < media_extension_list().len() && has_suffix(
            lowercase(name),
            "."@ + #[trigger] media_extension_list()[i],
        )
}

/// Whether `name` names a media file by its extension (case-insensitive).
pub fn is_media_file_name(name: &str) -> (r: bool)
    ensures
        r == is_media_name(name@),
{
    let lower = to_lowercase(name);
    let exts = media_extensions();
    let mut i: usize = 0;
    while i < exts.len()
        invariant
            exts.deep_view() == media_extension_list(),
            lower@ == lowercase(name@),
            i <= exts.len(),
            forall|j: int|
                0 <= j < i ==> !has_suffix(lower@, "."@ + #[trigger] media_extension_list()[j]),
        decreases exts.len() - i,
    {
        let dotted = join2(".", exts[i]);
        assert(exts.deep_view()[i as int] == exts[i as int]@);
        if ends_with(lower.as_str(), dotted.as_str()) {
            return true;
        }
        i = i + 1;
    }
    false
}

/// An extension is a media extension when, lowercased, it is one of the list.
pub open spec fn is_media_ext(ext: Seq<char>) -> bool {
    media_extension_list().contains(lowercase(ext))
}

/// The twenty media extensions, written out: eleven video and nine audio.
pub open spec fn twenty_media_extensions() -> Seq<Seq<char>> {
    seq![
        "mp4"@, "mkv"@, "avi"@, "mov"@, "wmv"@, "flv"@, "webm"@, "m4v"@, "mpg"@, "mpeg"@,
        "ogv"@, "mp3"@, "flac"@, "wav"@, "aac"@, "ogg"@, "opus"@, "m4a"@, "aiff"@, "wma"@,
    ]
}

/// An extension is recognised exactly when, lowercased, it is one of the
/// twenty video and audio extensions; audio extensions such as `mp3` count.
pub proof fn law_media_extension_is_video_or_audio(ext: Seq<char>)
    ensures
        is_media_ext(ext) <==> twenty_media_extensions().contains(lowercase(ext)),
        lowercase(ext) == "mp3"@ ==> is_media_ext(ext),
        lowercase(ext) == "wma"@ ==> is_media_ext(ext),
{
    assert(media_extension_list() =~= twenty_media_extensions());
    assert(twenty_media_extensions()[11] == "mp3"@);
    assert(twenty_media_extensions()[19] == "wma"@);
}

/// A name is a media file name exactly when, lowercased, it ends in a dot
/// followed by one of the twenty extensions; every one of them counts, the
/// last (`wma`) included.
pub proof fn law_media_name_by_suffix(name: Seq<char>, i: int)
    requires
        0 <= i < 20,
    ensures
        has_suffix(lowercase(name), "."@ + twenty_media_extensions()[i]) ==> is_media_name(name),
        is_media_name(name) ==> exists|j: int|
            0 <= j < 20 && has_suffix(lowercase(name), "."@ + #[trigger] twenty_media_extensions()[j]),
        has_suffix(lowercase(name), "."@ + "wma"@) ==> is_media_name(name),
{
    assert(media_extension_list() =~= twenty_media_extensions());
    assert(twenty_media_extensions()[19] == "wma"@);
    assert(media_extension_list()[i] == twenty_media_extensions()[i]);
    assert(media_extension_list()[19] == "wma"@);
    if is_media_name(name) {
        let j = choose|j: int|
            0 <= j < media_extension_list().len() && has_suffix(
                lowercase(name),
                "."@ + #[trigger] media_extension_list()[j],
            );
        assert(twenty_media_extensions()[j] == media_extension_list()[j]);
    }
}

/// Whether a file extension (without the dot) is a media extension
/// (case-insensitive).
pub fn is_media_extension(ext: &str) -> (r: bool)
    ensures
        r == is_media_ext(ext@),
{
    let lower = to_lowercase(ext);
    let exts = media_extensions();
    let mut i: usize = 0;
    while i < exts.len()
        invariant
            exts.deep_view() == media_extension_list(),
            lower@ == lowercase(ext@),
            i <= exts.len(),
            forall|j: int| 0 <= j < i ==> #[trigger] media_extension_list()[j] != lower@,
        decreases exts.len() - i,
    {
        assert(exts.deep_view()[i as int] == exts[i as int]@);
        if same_text(lower.as_str(), exts[i]) {
            return true;
        }
        i = i + 1;
    }
    false
}

/// The media file names among `names`, in their order.
pub open spec fn media_names(names: Seq<Seq<char>>) -> Seq<Seq<char>>
    decreases names.len(),
{
    if names.len() == 0 {
        seq![]
    } else if is_media_name(names.last()) {
        media_names(names.drop_last()).push(names.last())
    } else {
        media_names(names.drop_last())
    }
}

/// Keeping the media file names keeps exactly those: everything kept names a
/// media file and was among the names, and every media file name among them
/// is kept.
pub proof fn law_media_names_keep_exactly_media(names: Seq<Seq<char>>, x: Seq<char>)
    ensures
        media_names(names).contains(x) <==> (names.contains(x) && is_media_name(x)),
    decreases names.len(),
{
    if names.len() > 0 {
        let init = names.drop_last();
        law_media_names_keep_exactly_media(init, x);
        assert(names =~= init.push(names.last()));
        if names.contains(x) && x != names.last() {
            let i = choose|i: int| 0 <= i < names.len() && names[i] == x;
            assert(init[i] == x);
        }
        if init.contains(x) {
            let i = choose|i: int| 0 <= i < init.len() && init[i] == x;
            assert(names[i] == x);
        }
        if is_media_name(names.last()) {
            let rest = media_names(init);
            assert(rest.push(names.last())[rest.len() as int] == names.last());
            if rest.contains(x) {
                let i = choose|i: int| 0 <= i < rest.len() && rest[i] == x;
                assert(rest.push(names.last())[i] == x);
            }
            if rest.push(names.last()).contains(x) && x != names.last() {
                let i = choose|i: int| 0 <= i < rest.len() + 1 && rest.push(names.last())[i] == x;
                assert(rest[i] == x);
            }
        }
        assert(names[names.len() - 1] == names.last());
    }
}

/// The command-line arguments after the program name, each cleaned.
pub open spec fn cleaned_args(args: Seq<Seq<char>>) -> Seq<Seq<char>> {
    if args.len() == 0 {
        seq![]
    } else {
        args.skip(1).map_values(|a: Seq<char>| sanitized(a))
    }
}

/// The media files named on a command line: every argument after the
/// program name is cleaned and kept when it names a media file.
pub fn media_files_from_args(args: &Vec<String>) -> (r: Vec<String>)
    requires
        forall|i: int| 1 <= i < args.len() ==> sanitizable(#[trigger] args[i]@),
    ensures
        r.deep_view() == media_names(cleaned_args(args.deep_view())),
{
    let mut r: Vec<String> = Vec::new();
    let mut i: usize = 1;
    let ghost all = cleaned_args(args.deep_view());
    if args.len() == 0 {
        assert(all =~= seq![]);
        assert(r.deep_view() =~= media_names(all));
        return r;
    }
    while i < args.len()
        invariant
            1 <= i <= args.len(),
            all == cleaned_args(args.deep_view()),
            all.len() == args.len() - 1,
            forall|k: int| 1 <= k < args.len() ==> sanitizable(#[trigger] args[k]@),
            r.deep_view() == media_names(all.take(i - 1)),
        decreases args.len() - i,
    {
        let clean = sanitize_path(args[i].as_str());
        assert(all[i - 1] == sanitized(args.deep_view()[i as int]));
        assert(all.take(i as int).drop_last() =~= all.take(i - 1));
        if is_media_file_name(clean.as_str()) {
            r.push(clean);
        }
        assert(r.deep_view() =~= media_names(all.take(i as int)));
        i = i + 1;
    }
    assert(all.take(i - 1) =~= all);
    r
}

/// `s` with every occurrence of `p` removed, scanning left to right, as
/// std's `str::replace(p, "")` gives it.
pub open spec fn remove_all(s: Seq<char>, p: Seq<char>) -> Seq<char>
    decreases s.len(),
{
    if p.len() == 0 || s.len() == 0 {
        s
    } else if has_prefix(s, p) {
        remove_all(s.skip(p.len() as int), p)
    } else {
        seq![s[0]] + remove_all(s.skip(1), p)
    }
}

/// Whether `p` occurs in `s` at position `i`.
fn occurs_at(s: &str, i: usize, p: &str) -> (r: bool)
    requires
        i <= s@.len(),
    ensures
        r == has_prefix(s@.skip(i as int), p@),
{
    let n = s.unicode_len();
    let m = p.unicode_len();
    if m > n - i {
        return false;
    }
    let mut j: usize = 0;
    while j < m
        invariant
            j <= m,
            i + m <= n,
            n == s@.len(),
            m == p@.len(),
            forall|k: int| 0 <= k < j ==> s@[i + k] == p@[k],
        decreases m - j,
    {
        if s.get_char(i + j) != p.get_char(j) {
            assert(s@.skip(i as int).subrange(0, m as int)[j as int] != p@[j as int]);
            return false;
        }
        j = j + 1;
    }
    assert(s@.skip(i as int).subrange(0, m as int) =~= p@);
    true
}

/// `s` with every occurrence of `p` removed.
pub fn remove_occurrences(s: &str, p: &str) -> (r: String)
    ensures
        r@ == remove_all(s@, p@),
{
    let n = s.unicode_len();
    let m = p.unicode_len();
    if m == 0 {
        return String::from_str(s);
    }
    let mut r = String::new();
    let mut i: usize = 0;
    assert(s@.skip(0) =~= s@);
    while i < n
        invariant
            i <= n,
            n == s@.len(),
            m == p@.len(),
            m > 0,
            remove_all(s@, p@) == r@ + remove_all(s@.skip(i as int), p@),
        decreases n - i,
    {
        if occurs_at(s, i, p) {
            assert(s@.skip(i as int).skip(m as int) =~= s@.skip(i + m));
            i = i + m;
        } else {
            let c = s.substring_char(i, i + 1);
            assert(s@.skip(i as int).skip(1) =~= s@.skip(i + 1));
            assert(c@ =~= seq![s@.skip(i as int)[0]]);
            let ghost before = r@;
            r.append(c);
            assert(before + (c@ + remove_all(s@.skip(i + 1), p@)) =~= r@ + remove_all(
                s@.skip(i + 1),
                p@,
            ));
            i = i + 1;
        }
    }
    assert(s@.skip(i as int) =~= seq![]);
    r
}

/// The directory that std's `Path::parent` reads from a path, as text; a
/// lexical function of the text for the platform the library is built for.
pub uninterp spec fn path_parent_of(path: Seq<char>) -> Option<Seq<char>>;

/// The file stem that std's `Path::file_stem` reads from a path, as text.
pub uninterp spec fn path_file_stem_of(path: Seq<char>) -> Option<Seq<char>>;

/// The extension that std's `Path::extension` reads from a path, as text.
pub uninterp spec fn path_extension_of(path: Seq<char>) -> Option<Seq<char>>;

/// Wraps std's `Path::parent` on a path given as text, read back as text:
/// the result is the named directory; the documentation says that the empty
/// path has no parent.
#[verifier::external_body]
pub(crate) fn path_parent(path: &str) -> (r: Option<String>)
    ensures
        r.deep_view() == path_parent_of(path@),
        path@.len() == 0 ==> r is None,
{
    std::path::Path::new(path).parent().map(|p| p.to_string_lossy().into_owned())
}

/// Wraps std's `Path::file_stem` on a path given as text, read back as
/// text: the result is the named stem; the empty path has no file name and
/// so no stem.
#[verifier::external_body]
pub(crate) fn path_file_stem(path: &str) -> (r: Option<String>)
    ensures
        r.deep_view() == path_file_stem_of(path@),
        path@.len() == 0 ==> r is None,
{
    std::path::Path::new(path).file_stem().map(|p| p.to_string_lossy().into_owned())
}

/// Wraps std's `Path::extension` on a path given as text: the result is the
/// named extension; the empty path has no file name and so no extension.
#[verifier::external_body]
pub(crate) fn path_extension(path: &str) -> (r: Option<String>)
    ensures
        r.deep_view() == path_extension_of(path@),
        path@.len() == 0 ==> r is None,
{
    std::path::Path::new(path).extension().and_then(|e| e.to_str()).map(String::from)
}

/// A video's directory and file stem, given what the path reports of them:
/// a path without a directory or without a file name is refused.
pub fn video_parts(parent: Option<String>, stem: Option<String>) -> (r: Result<
    (String, String),
    String,
>)
    ensures
        parent is None ==> (r matches Err(e) && e@ == "Could not get video directory"@),
        parent is Some && stem is None ==> (r matches Err(e) && e@
            == "Could not get video filename"@),
        parent is Some && stem is Some ==> (r matches Ok((d, t)) && d@ == parent.unwrap()@
            && t@ == stem.unwrap()@),
{
    match parent {
        None => Err(String::from_str("Could not get video directory")),
        Some(d) => match stem {
            None => Err(String::from_str("Could not get video filename")),
            Some(t) => Ok((d, t)),
        },
    }
}

/// The directory and file stem of a video path, as std's `Path` reads them;
/// refused as `video_parts` says when either is missing.
pub fn split_video_path(video_path: &str) -> (r: Result<(String, String), String>)
    ensures
        path_parent_of(video_path@) is None ==> (r matches Err(e) && e@
            == "Could not get video directory"@),
        path_parent_of(video_path@) is Some && path_file_stem_of(video_path@) is None ==> (
        r matches Err(e) && e@ == "Could not get video filename"@),
        path_parent_of(video_path@) is Some && path_file_stem_of(video_path@) is Some ==> (
        r matches Ok((d, t)) && d@ == path_parent_of(video_path@).unwrap() && t@
            == path_file_stem_of(video_path@).unwrap()),
        video_path@.len() == 0 ==> (r matches Err(e) && e@ == "Could not get video directory"@),
{
    let parent = path_parent(video_path);
    let stem = path_file_stem(video_path);
    video_parts(parent, stem)
}

/// The text that `urlencoding::decode` gives for `s`, or `None` where the
/// percent-decoded bytes are not UTF-8.
pub uninterp spec fn percent_decoded(s: Seq<char>) -> Option<Seq<char>>;

/// Wraps `urlencoding::decode`. The result is the named decoding; and, as the
/// crate's source shows, text without any `%` comes back unchanged.
#[verifier::external_body]
fn url_decode(s: &str) -> (r: Option<String>)
    ensures
        match r {
            Some(d) => percent_decoded(s@) == Some(d@),
            None => percent_decoded(s@) is None,
        },
        !s@.contains('%') ==> r is Some && r.unwrap()@ == s@,
{
    urlencoding::decode(s).ok().map(|d| d.into_owned())
}

/// The local path of a `file://` URL: every `file://` removed, then
/// percent-decoded; text that does not decode gives the empty path.
pub open spec fn file_url_path(url: Seq<char>) -> Seq<char> {
    match percent_decoded(remove_all(url, "file://"@)) {
        Some(d) => d,
        None => seq![],
    }
}

/// The media file paths among opened URLs, in their order: only `file://`
/// URLs count, and a URL is kept when its local path names a media file.
pub open spec fn media_url_paths(urls: Seq<Seq<char>>) -> Seq<Seq<char>>
    decreases urls.len(),
{
    if urls.len() == 0 {
        seq![]
    } else {
        let rest = media_url_paths(urls.drop_last());
        let u = urls.last();
        if has_prefix(u, "file://"@) && is_media_name(file_url_path(u)) {
            rest.push(file_url_path(u))
        } else {
            rest
        }
    }
}

/// The local path of one `file://` URL.
pub fn local_path_of_file_url(url: &str) -> (r: String)
    ensures
        r@ == file_url_path(url@),
{
    let path = remove_occurrences(url, "file://");
    match url_decode(path.as_str()) {
        Some(d) => d,
        None => String::new(),
    }
}

/// The media files among the URLs the operating system asks the program to
/// open.
pub fn media_files_from_urls(urls: &Vec<String>) -> (r: Vec<String>)
    ensures
        r.deep_view() == media_url_paths(urls.deep_view()),
{
    let mut r: Vec<String> = Vec::new();
    let mut i: usize = 0;
    while i < urls.len()
        invariant
            i <= urls.len(),
            r.deep_view() == media_url_paths(urls.deep_view().take(i as int)),
        decreases urls.len() - i,
    {
        let u = urls[i].as_str();
        assert(urls.deep_view().take(i + 1).drop_last() =~= urls.deep_view().take(i as int));
        assert(urls.deep_view().take(i + 1).last() == u@);
        if starts_with(u, "file://") {
            let decoded = local_path_of_file_url(u);
            if is_media_file_name(decoded.as_str()) {
                r.push(decoded);
            }
        }
        assert(r.deep_view() =~= media_url_paths(urls.deep_view().take(i + 1)));
        i = i + 1;
    }
    assert(urls.deep_view().take(i as int) =~= urls.deep_view());
    r
}

} // verus!
