//! Reading videos and video URLs from the system clipboard, and putting
//! files on it.
use vstd::prelude::*;
use clipboard_rs::Clipboard;
use crate::path::{extension, path_extension};
use crate::text::{
    ascii_lower, is_ascii_char, last_index, lemma_last_index_facts,
    after_last, before_first, chars_of, contains_seq, find_char, has_infix, lowercase, push_chars,
    rfind_char, starts_with, string_of, string_of_range, to_lowercase, trim, trim_chars,
};

verus! {

// ---------------------------------------------------------------------------
// Video files and URLs
// ---------------------------------------------------------------------------

/// Video file extensions we support.
pub open spec fn video_extensions() -> Seq<Seq<char>> {
    seq![
        "mp4"@,
        "mov"@,
        "avi"@,
        "mkv"@,
        "webm"@,
        "m4v"@,
        "wmv"@,
        "flv"@,
        "mpeg"@,
        "mpg"@,
    ]
}

fn video_extension(i: usize) -> (r: &'static str)
    requires
        i < 10,
    ensures
        r@ == video_extensions()[i as int],
{
    if i == 0 {
        "mp4"
    } else if i == 1 {
        "mov"
    } else if i == 2 {
        "avi"
    } else if i == 3 {
        "mkv"
    } else if i == 4 {
        "webm"
    } else if i == 5 {
        "m4v"
    } else if i == 6 {
        "wmv"
    } else if i == 7 {
        "flv"
    } else if i == 8 {
        "mpeg"
    } else {
        "mpg"
    }
}

/// The video extensions are exactly mp4, mov, avi, mkv, webm, m4v, wmv, flv,
/// mpeg and mpg; an extension in any letter case that lowercases to one of
/// them names a video.
pub proof fn lemma_video_extensions(e: Seq<char>)
    ensures
        video_extensions().contains(e) == (e == "mp4"@ || e == "mov"@ || e == "avi"@ || e
            == "mkv"@ || e == "webm"@ || e == "m4v"@ || e == "wmv"@ || e == "flv"@ || e
            == "mpeg"@ || e == "mpg"@),
        is_video_ext(e) == (lowercase(e) == "mp4"@ || lowercase(e) == "mov"@ || lowercase(e)
            == "avi"@ || lowercase(e) == "mkv"@ || lowercase(e) == "webm"@ || lowercase(e)
            == "m4v"@ || lowercase(e) == "wmv"@ || lowercase(e) == "flv"@ || lowercase(e)
            == "mpeg"@ || lowercase(e) == "mpg"@),
{
    let l = video_extensions();
    assert forall|x: Seq<char>| l.contains(x) implies (x == "mp4"@ || x == "mov"@ || x == "avi"@
        || x == "mkv"@ || x == "webm"@ || x == "m4v"@ || x == "wmv"@ || x == "flv"@ || x
        == "mpeg"@ || x == "mpg"@) by {
        let k = choose|k: int| 0 <= k < l.len() && l[k] == x;
        assert(0 <= k < 10);
    }
    if e == "mp4"@ { assert(l[0] == e); }
    if e == "mov"@ { assert(l[1] == e); }
    if e == "avi"@ { assert(l[2] == e); }
    if e == "mkv"@ { assert(l[3] == e); }
    if e == "webm"@ { assert(l[4] == e); }
    if e == "m4v"@ { assert(l[5] == e); }
    if e == "wmv"@ { assert(l[6] == e); }
    if e == "flv"@ { assert(l[7] == e); }
    if e == "mpeg"@ { assert(l[8] == e); }
    if e == "mpg"@ { assert(l[9] == e); }
    let le = lowercase(e);
    if le == "mp4"@ { assert(l[0] == le); }
    if le == "mov"@ { assert(l[1] == le); }
    if le == "avi"@ { assert(l[2] == le); }
    if le == "mkv"@ { assert(l[3] == le); }
    if le == "webm"@ { assert(l[4] == le); }
    if le == "m4v"@ { assert(l[5] == le); }
    if le == "wmv"@ { assert(l[6] == le); }
    if le == "flv"@ { assert(l[7] == le); }
    if le == "mpeg"@ { assert(l[8] == le); }
    if le == "mpg"@ { assert(l[9] == le); }
}

/// An extension names a video once lowercased.
pub open spec fn is_video_ext(ext: Seq<char>) -> bool {
    video_extensions().contains(lowercase(ext))
}

/// Whether `ext` is one of the video extensions, exactly as written.
pub fn is_listed_video_extension(ext: &str) -> (r: bool)
    ensures
        r == video_extensions().contains(ext@),
{
    let e = String::from_str(ext);
    let mut i: usize = 0;
    while i < 10
        invariant
            i <= 10,
            e@ == ext@,
            forall|j: int| 0 <= j < i ==> video_extensions()[j] != ext@,
        decreases 10 - i,
    {
        let listed = String::from_str(video_extension(i));
        if e == listed {
            assert(video_extensions()[i as int] == ext@);
            return true;
        }
        i = i + 1;
    }
    assert(!video_extensions().contains(ext@)) by {
        if video_extensions().contains(ext@) {
            let k = choose|k: int| 0 <= k < 10 && video_extensions()[k] == ext@;
            assert(video_extensions()[k] != ext@);
        }
    }
    false
}

/// Whether `ext`, lowercased, is a video extension.
pub fn is_video_extension(ext: &str) -> (r: bool)
    ensures
        r == is_video_ext(ext@),
        (forall|i: int| 0 <= i < ext@.len() ==> is_ascii_char(#[trigger] ext@[i])) ==> r
            == video_extensions().contains(ext@.map_values(|c: char| ascii_lower(c))),
{
    let lower = to_lowercase(ext);
    is_listed_video_extension(lower.as_str())
}

/// A path names a video file: its extension is a video extension.
pub open spec fn video_file(path: Seq<char>) -> bool {
    match extension(path) {
        Some(e) => is_video_ext(e),
        None => false,
    }
}

/// A URL looks like a video: it is `http` or `https`, and its path (the query
/// left out) has a video extension after its last `.`, or holds `/video/`
/// or `/vid/`.
pub open spec fn video_url(url: Seq<char>) -> bool {
    let path = before_first(url, '?');
    &&& ("http://"@.is_prefix_of(url) || "https://"@.is_prefix_of(url))
    &&& (is_video_ext(after_last(path, '.')) || has_infix(path, "/video/"@) || has_infix(
        path,
        "/vid/"@,
    ))
}

/// Check if a path has a video extension
pub fn is_video_file(path: &str) -> (r: bool)
    ensures
        r == video_file(path@),
{
    match path_extension(path) {
        Some(e) => is_video_extension(e.as_str()),
        None => false,
    }
}

/// Which URLs are taken for videos: only `http://` and `https://` ones, and
/// of those every one whose path (the part before the first `?`) holds
/// `/video/` or `/vid/`, or ends in a `.` and a video extension.
pub proof fn lemma_video_urls(u: Seq<char>, stem: Seq<char>, ext: Seq<char>)
    ensures
        !("http://"@.is_prefix_of(u) || "https://"@.is_prefix_of(u)) ==> !video_url(u),
        ("http://"@.is_prefix_of(u) || "https://"@.is_prefix_of(u)) && (has_infix(
            before_first(u, '?'),
            "/video/"@,
        ) || has_infix(before_first(u, '?'), "/vid/"@)) ==> video_url(u),
        ("http://"@.is_prefix_of(u) || "https://"@.is_prefix_of(u)) && before_first(u, '?')
            == stem + seq!['.'] + ext && !ext.contains('.') && is_video_ext(ext) ==> video_url(u),
{
    let path = stem + seq!['.'] + ext;
    if before_first(u, '?') == path && !ext.contains('.') {
        lemma_last_index_facts(path, '.');
        let k = stem.len() as int;
        assert(path[k] == '.');
        match last_index(path, '.') {
            Some(i) => {
                if i < k {
                    assert(path.skip(i + 1)[k - i - 1] == '.');
                } else if i > k {
                    assert(ext[i - k - 1] == path[i]);
                }
                assert(i == k);
                assert(path.skip(k + 1) =~= ext);
            },
            None => {},
        }
    }
}

/// Check if a URL looks like a video URL
pub fn is_video_url(url: &str) -> (r: bool)
    ensures
        r == video_url(url@),
{
    let v = chars_of(url);
    let http = chars_of("http://");
    let https = chars_of("https://");
    if !starts_with(v.as_slice(), http.as_slice()) && !starts_with(v.as_slice(), https.as_slice()) {
        return false;
    }
    let cut = match find_char(v.as_slice(), '?') {
        Some(i) => i,
        None => v.len(),
    };
    let path = string_of_range(v.as_slice(), 0, cut);
    let pv = chars_of(path.as_str());
    assert(pv@ == before_first(url@, '?'));
    let found = rfind_char(pv.as_slice(), '.');
    let start = match found {
        Some(j) => j + 1,
        None => 0,
    };
    assert(pv@.skip(0) =~= pv@);
    let ext = string_of_range(pv.as_slice(), start, pv.len());
    assert(ext@ =~= after_last(pv@, '.'));
    if is_video_extension(ext.as_str()) {
        return true;
    }
    let video = chars_of("/video/");
    let vid = chars_of("/vid/");
    contains_seq(pv.as_slice(), video.as_slice()) || contains_seq(pv.as_slice(), vid.as_slice())
}

// ---------------------------------------------------------------------------
// Choosing what the clipboard held
// ---------------------------------------------------------------------------

/// The video files among `files`, in order.
pub open spec fn video_files(files: Seq<Seq<char>>) -> Seq<Seq<char>> {
    files.filter(|p: Seq<char>| video_file(p))
}

/// The videos to take from the files on the clipboard: an error when there are
/// no files or no video among them, else the video files in order.
pub open spec fn video_selection(files: Seq<Seq<char>>) -> Result<Seq<Seq<char>>, Seq<char>> {
    if files.len() == 0 {
        Err("No files in clipboard"@)
    } else if video_files(files).len() == 0 {
        Err("No video files in clipboard"@)
    } else {
        Ok(video_files(files))
    }
}

/// The texts of a list of strings, or an error message, as a value.
pub open spec fn list_result_view(r: Result<Vec<String>, String>) -> Result<Seq<Seq<char>>, Seq<char>> {
    match r {
        Ok(v) => Ok(v.deep_view()),
        Err(e) => Err(e@),
    }
}

/// Keep the video files among the files found on the clipboard.
pub fn select_video_files(files: Vec<String>) -> (r: Result<Vec<String>, String>)
    ensures
        list_result_view(r) == video_selection(files.deep_view()),
{
    if files.len() == 0 {
        return Err(String::from_str("No files in clipboard"));
    }
    let ghost all = files.deep_view();
    let mut videos: Vec<String> = Vec::new();
    let n = files.len();
    let mut i: usize = 0;
    assert(all.take(0) =~= Seq::<Seq<char>>::empty());
    while i < n
        invariant
            n == files@.len() == all.len(),
            all == files.deep_view(),
            i <= n,
            videos.deep_view() == video_files(all.take(i as int)),
        decreases n - i,
    {
        proof {
            reveal_with_fuel(Seq::<_>::filter, 1);
            assert(all.take(i + 1).drop_last() =~= all.take(i as int));
        }
        if is_video_file(files[i].as_str()) {
            videos.push(files[i].clone());
            assert(videos.deep_view() =~= video_files(all.take(i as int)).push(all[i as int]));
        } else {
            assert(videos.deep_view() =~= video_files(all.take(i as int)));
        }
        i = i + 1;
    }
    assert(all.take(n as int) =~= all);
    if videos.len() == 0 {
        return Err(String::from_str("No video files in clipboard"));
    }
    Ok(videos)
}

/// The first of the clipboard's text contents that, trimmed, looks like a
/// video URL; `None` marks contents that are not text.
pub open spec fn first_video_url(texts: Seq<Option<Seq<char>>>) -> Option<Seq<char>>
    decreases texts.len(),
{
    if texts.len() == 0 {
        None
    } else {
        match texts[0] {
            Some(t) if video_url(trim(t)) => Some(trim(t)),
            _ => first_video_url(texts.drop_first()),
        }
    }
}

/// Find a video URL among the clipboard's contents.
pub fn find_video_url(texts: &Vec<Option<String>>) -> (r: Option<String>)
    ensures
        r.deep_view() == first_video_url(texts.deep_view()),
{
    let ghost all = texts.deep_view();
    let n = texts.len();
    let mut i: usize = 0;
    assert(all.skip(0) =~= all);
    while i < n
        invariant
            n == texts@.len() == all.len(),
            all == texts.deep_view(),
            i <= n,
            first_video_url(all) == first_video_url(all.skip(i as int)),
        decreases n - i,
    {
        assert(all.skip(i as int).drop_first() =~= all.skip(i + 1));
        assert(all.skip(i as int)[0] == all[i as int]);
        match &texts[i] {
            Some(t) => {
                let tv = trim_chars(chars_of(t.as_str()).as_slice());
                let trimmed = string_of(tv.as_slice());
                if is_video_url(trimmed.as_str()) {
                    return Some(trimmed);
                }
            },
            None => {},
        }
        i = i + 1;
    }
    None
}

// ---------------------------------------------------------------------------
// The clipboard itself
// ---------------------------------------------------------------------------

#[verifier::external_type_specification]
#[verifier::external_body]
pub struct ExClipboardContext(clipboard_rs::ClipboardContext);

/// Calls `clipboard_rs::ClipboardContext::new`, connecting to the system
/// clipboard; its error is rendered as text. Whether it succeeds depends on the
/// system, so nothing is claimed of the result.
#[verifier::external_body]
fn clipboard_context() -> (r: Result<clipboard_rs::ClipboardContext, String>) {
    clipboard_rs::ClipboardContext::new().map_err(|e| e.to_string())
}

/// Calls `Clipboard::get_files`: the files on the clipboard, as text. What the
/// clipboard holds is outside state, so nothing is claimed of the result.
#[verifier::external_body]
fn clipboard_files(ctx: &clipboard_rs::ClipboardContext) -> (r: Result<Vec<String>, String>) {
    ctx.get_files().map_err(|e| e.to_string())
}

/// Calls `Clipboard::set_files`, putting the given files on the clipboard.
/// Nothing is claimed of the result, which depends on the system.
#[verifier::external_body]
fn clipboard_set_files(ctx: &clipboard_rs::ClipboardContext, files: Vec<String>) -> (r: Result<
    (),
    String,
>) {
    ctx.set_files(files).map_err(|e| e.to_string())
}

/// Calls `Clipboard::has` with `ContentFormat::Text`: whether the clipboard
/// holds text. Nothing is claimed of the result.
#[verifier::external_body]
fn clipboard_has_text(ctx: &clipboard_rs::ClipboardContext) -> (r: bool) {
    ctx.has(clipboard_rs::ContentFormat::Text)
}

/// Calls `Clipboard::get` with `[ContentFormat::Text]`; each content is
/// converted to its text, or `None` when it is of another kind. Nothing is
/// claimed of the result.
#[verifier::external_body]
fn clipboard_texts(ctx: &clipboard_rs::ClipboardContext) -> (r: Result<Vec<Option<String>>, String>) {
    match ctx.get(&[clipboard_rs::ContentFormat::Text]) {
        Ok(contents) => Ok(
            contents.into_iter().map(|c| match c {
                clipboard_rs::ClipboardContent::Text(t) => Some(t),
                _ => None,
            }).collect(),
        ),
        Err(e) => Err(e.to_string()),
    }
}

/// `prefix` followed by `detail`, as a new `String`.
fn message(prefix: &str, detail: &String) -> (r: String)
    ensures
        r@ == prefix@ + detail@,
        prefix@.is_prefix_of(r@),
{
    let mut m = String::from_str(prefix);
    push_chars(&mut m, chars_of(detail.as_str()).as_slice());
    m
}

/// Get video file paths from clipboard
/// Returns all video files found in clipboard
pub fn get_videos_from_clipboard() -> (r: Result<Vec<String>, String>)
    ensures
        r matches Err(e) ==> e@ == "No files in clipboard"@ || e@ == "No video files in clipboard"@
            || "Failed to access clipboard: "@.is_prefix_of(e@)
            || "Failed to read files from clipboard: "@.is_prefix_of(e@),
        r matches Ok(v) ==> exists|files: Seq<Seq<char>>|
            video_selection(files) == Ok::<Seq<Seq<char>>, Seq<char>>(v.deep_view()),
        r matches Ok(v) ==> v@.len() > 0 && forall|i: int|
            0 <= i < v@.len() ==> video_file(#[trigger] v@[i]@),
{
    let ctx = match clipboard_context() {
        Ok(c) => c,
        Err(e) => return Err(message("Failed to access clipboard: ", &e)),
    };
    let files = match clipboard_files(&ctx) {
        Ok(f) => f,
        Err(e) => return Err(message("Failed to read files from clipboard: ", &e)),
    };
    let ghost fv = files.deep_view();
    let r = select_video_files(files);
    proof {
        if r is Ok {
            let v = r->Ok_0;
            assert(v.deep_view() == video_files(fv));
            assert forall|i: int| 0 <= i < v@.len() implies video_file(#[trigger] v@[i]@) by {
                fv.lemma_filter_pred(|p: Seq<char>| video_file(p), i);
                assert(v.deep_view()[i] == v@[i]@);
            }
        }
    }
    r
}

/// The list of files handed to the clipboard for the given paths: the paths
/// themselves, in order.
pub fn clipboard_file_list(paths: &Vec<String>) -> (r: Vec<String>)
    ensures
        r.deep_view() == paths.deep_view(),
{
    let mut list: Vec<String> = Vec::new();
    let n = paths.len();
    let mut i: usize = 0;
    while i < n
        invariant
            n == paths@.len(),
            i <= n,
            list.deep_view() == paths.deep_view().take(i as int),
        decreases n - i,
    {
        list.push(paths[i].clone());
        assert(paths.deep_view().take(i + 1) =~= paths.deep_view().take(i as int).push(
            paths@[i as int]@,
        ));
        assert(list.deep_view() =~= paths.deep_view().take(i + 1));
        i = i + 1;
    }
    assert(paths.deep_view().take(n as int) =~= paths.deep_view());
    list
}

/// The list of paths for copying the single file `path`: `[path]`.
pub fn single_file_list(path: &str) -> (r: Vec<String>)
    ensures
        r.deep_view() == seq![path@],
{
    let mut list: Vec<String> = Vec::new();
    list.push(String::from_str(path));
    assert(list.deep_view() =~= seq![path@]);
    list
}

/// Copy a file to the clipboard (so it can be pasted in Finder, etc.): the
/// list `single_file_list(path)`, that is `[path]`, is put on the clipboard
/// as `copy_files_to_clipboard` does.
pub fn copy_file_to_clipboard(path: &str) -> (r: Result<(), String>)
    ensures
        r matches Err(e) ==> "Failed to access clipboard: "@.is_prefix_of(e@)
            || "Failed to copy files to clipboard: "@.is_prefix_of(e@),
{
    let paths = single_file_list(path);
    copy_files_to_clipboard(&paths)
}

/// Copy multiple files to the clipboard: the list `clipboard_file_list(paths)`,
/// which is `paths` in order, is handed to `Clipboard::set_files`.
pub fn copy_files_to_clipboard(paths: &Vec<String>) -> (r: Result<(), String>)
    ensures
        r matches Err(e) ==> "Failed to access clipboard: "@.is_prefix_of(e@)
            || "Failed to copy files to clipboard: "@.is_prefix_of(e@),
{
    let ctx = match clipboard_context() {
        Ok(c) => c,
        Err(e) => return Err(message("Failed to access clipboard: ", &e)),
    };
    let files = clipboard_file_list(paths);
    match clipboard_set_files(&ctx, files) {
        Ok(()) => Ok(()),
        Err(e) => Err(message("Failed to copy files to clipboard: ", &e)),
    }
}

/// Get video URL from clipboard text
pub fn get_url_from_clipboard() -> (r: Result<Option<String>, String>)
    ensures
        r matches Err(e) ==> "Failed to access clipboard: "@.is_prefix_of(e@)
            || "Failed to read clipboard: "@.is_prefix_of(e@),
        r matches Ok(Some(u)) ==> video_url(u@),
{
    let ctx = match clipboard_context() {
        Ok(c) => c,
        Err(e) => return Err(message("Failed to access clipboard: ", &e)),
    };
    if !clipboard_has_text(&ctx) {
        return Ok(None);
    }
    let texts = match clipboard_texts(&ctx) {
        Ok(t) => t,
        Err(e) => return Err(message("Failed to read clipboard: ", &e)),
    };
    let found = find_video_url(&texts);
    proof {
        lemma_first_video_url_is_video(texts.deep_view());
    }
    Ok(found)
}

proof fn lemma_first_video_url_is_video(texts: Seq<Option<Seq<char>>>)
    ensures
        first_video_url(texts) matches Some(u) ==> video_url(u),
    decreases texts.len(),
{
    if texts.len() > 0 {
        lemma_first_video_url_is_video(texts.drop_first());
    }
}

} // verus!
