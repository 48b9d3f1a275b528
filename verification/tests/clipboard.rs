use gifer::clipboard::{
    clipboard_file_list, find_video_url, single_file_list, is_listed_video_extension, is_video_extension, is_video_file, is_video_url,
    select_video_files,
};

#[test]
fn test_is_video_file() {
    assert!(is_video_file("test.mp4"));
    assert!(is_video_file("test.MOV"));
    assert!(is_video_file("/path/to/video.mkv"));
    assert!(!is_video_file("test.txt"));
    assert!(!is_video_file("test.gif"));
    assert!(!is_video_file("test"));
}

#[test]
fn test_is_video_url() {
    // Valid video URLs
    assert!(is_video_url("https://example.com/video.mp4"));
    assert!(is_video_url("http://example.com/path/to/video.webm"));
    assert!(is_video_url("https://example.com/video.mp4?query=param"));
    assert!(is_video_url(
        "https://video.twimg.com/vid/avc1/file.mp4?tag=16"
    ));

    // Invalid
    assert!(!is_video_url("ftp://example.com/video.mp4"));
    assert!(!is_video_url("https://example.com/image.png"));
    assert!(!is_video_url("not a url"));
    assert!(!is_video_url("/local/path/video.mp4"));
}

#[test]
fn video_extension_is_matched_lowercased() {
    assert!(is_video_extension("mp4"));
    assert!(is_video_extension("WebM"));
    assert!(is_video_extension("M4V"));
    assert!(!is_video_extension("gif"));
    assert!(!is_video_extension(""));
    // Lowercasing is what lets upper-case names through.
    assert!(is_video_file("CLIP.AVI"));
    assert!(!is_video_file(".mp4"));
    // A trailing separator does not hide the file name.
    assert!(is_video_file("dir.mp4/"));
}

#[test]
fn listed_extensions_are_lower_case() {
    assert!(is_listed_video_extension("mpeg"));
    assert!(is_listed_video_extension("flv"));
    assert!(!is_listed_video_extension("MP4"));
    assert!(!is_listed_video_extension("mp"));
}

#[test]
fn video_url_by_path_marker() {
    assert!(is_video_url("https://example.com/video/12345"));
    assert!(is_video_url("https://example.com/a/vid/b"));
    assert!(!is_video_url("https://example.com/a?x=/video/"));
    assert!(!is_video_url("https://example.com/videos/12345"));
}

#[test]
fn select_video_files_without_files() {
    assert_eq!(select_video_files(vec![]), Err("No files in clipboard".to_string()));
}

#[test]
fn select_video_files_without_videos() {
    let files = vec!["notes.txt".to_string(), "image.png".to_string()];
    assert_eq!(select_video_files(files), Err("No video files in clipboard".to_string()));
}

#[test]
fn select_video_files_keeps_videos_in_order() {
    let files = vec![
        "/a/one.mov".to_string(),
        "/a/readme.md".to_string(),
        "/b/two.MP4".to_string(),
    ];
    assert_eq!(
        select_video_files(files),
        Ok(vec!["/a/one.mov".to_string(), "/b/two.MP4".to_string()])
    );
}

#[test]
fn find_video_url_takes_first_trimmed_match() {
    let texts = vec![
        None,
        Some("hello".to_string()),
        Some("  https://example.com/clip.webm \n".to_string()),
        Some("https://example.com/other.mp4".to_string()),
    ];
    assert_eq!(find_video_url(&texts), Some("https://example.com/clip.webm".to_string()));
    let none = vec![Some("https://example.com/page.html".to_string()), None];
    assert_eq!(find_video_url(&none), None);
}

#[test]
fn file_lists_handed_to_the_clipboard() {
    let paths = vec!["/o/a.gif".to_string(), "/o/b c.gif".to_string()];
    assert_eq!(clipboard_file_list(&paths), paths);
    assert_eq!(clipboard_file_list(&vec![]), Vec::<String>::new());
    assert_eq!(single_file_list("/o/a.gif"), vec!["/o/a.gif".to_string()]);
}
