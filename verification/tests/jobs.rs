use gifer::job::{format_size, ConversionJob, ConversionProgress, InputSource, JobStatus};

fn reference_size(bytes: u64) -> String {
    const KB: u64 = 1024;
    const MB: u64 = 1024 * KB;
    const GB: u64 = 1024 * MB;
    if bytes >= GB {
        format!("{:.1}GB", bytes as f64 / GB as f64)
    } else if bytes >= MB {
        format!("{:.1}MB", bytes as f64 / MB as f64)
    } else if bytes >= KB {
        format!("{:.1}KB", bytes as f64 / KB as f64)
    } else {
        format!("{}B", bytes)
    }
}

#[test]
fn format_size_exact_values() {
    assert_eq!(format_size(0), "0B");
    assert_eq!(format_size(1023), "1023B");
    assert_eq!(format_size(1024), "1.0KB");
    assert_eq!(format_size(1536), "1.5KB");
    // 1.25 is written with ties to even.
    assert_eq!(format_size(1280), "1.2KB");
    assert_eq!(format_size(1048576), "1.0MB");
    assert_eq!(format_size(1073741824), "1.0GB");
    assert_eq!(format_size(u64::MAX), "17179869184.0GB");
}

#[test]
fn format_size_matches_float_formatting() {
    let mut samples: Vec<u64> = vec![
        1, 999, 1000, 1024, 1075, 1076, 1126, 1127, 10240, 102399, 1048575, 1048576,
        1153433, 1101004, 5767168, 1073741823, 1073741824, 1181116006, 1288490188,
        1610612736, 109951162777, 1099511627776, u64::MAX - 1, u64::MAX,
    ];
    let mut x: u64 = 0x9e3779b97f4a7c15;
    for _ in 0..3000 {
        x ^= x << 13;
        x ^= x >> 7;
        x ^= x << 17;
        let shift = (x % 64) as u32;
        samples.push(x >> shift);
    }
    for b in samples {
        assert_eq!(format_size(b), reference_size(b), "bytes = {}", b);
    }
}

#[test]
fn display_names() {
    let f = InputSource::LocalFile("/videos/clip one.mov".to_string());
    assert_eq!(f.display_name(), "clip one.mov");
    assert_eq!(f.ffmpeg_input(), "/videos/clip one.mov");
    assert_eq!(f.file_stem(), Some("clip one".to_string()));
    let u = InputSource::RemoteUrl("https://example.com/a/movie.mp4?x=1".to_string());
    assert_eq!(u.display_name(), "movie.mp4");
    assert_eq!(u.file_stem(), Some("movie".to_string()));
    let long = "https://example.com/watch/abcdefghijklmnopqrstuvwxyz";
    let lu = InputSource::RemoteUrl(long.to_string());
    assert_eq!(lu.display_name(), format!("{}...", &long[..37]));
    assert_eq!(lu.file_stem(), None);
    let short = InputSource::RemoteUrl("https://e.com/v/".to_string());
    assert_eq!(short.display_name(), "https://e.com/v/");
    assert_eq!(InputSource::LocalFile("/".to_string()).display_name(), "unknown");
}

#[test]
fn dedup_keys() {
    let f = InputSource::LocalFile("a/b.mov".to_string());
    assert_eq!(f.dedup_key(&Some("/abs/a/b.mov".to_string())), "/abs/a/b.mov");
    assert_eq!(f.dedup_key(&None), "a/b.mov");
    let u = InputSource::RemoteUrl("https://x.com/v.mp4".to_string());
    assert_eq!(u.dedup_key(&Some("ignored".to_string())), "https://x.com/v.mp4");
}

#[test]
fn new_job_is_pending_with_no_progress() {
    let job = ConversionJob::new(
        InputSource::LocalFile("/v/in.mov".to_string()),
        "/out/dir/in.gif".to_string(),
    );
    assert_eq!(job.status, JobStatus::Pending);
    assert_eq!(job.progress.frame, 0);
    assert!(job.progress.total_frames.is_none());
    assert_eq!(job.input_filename(), "in.mov");
    assert_eq!(job.output_filename(), "in.gif");
    assert_eq!(job.output_display(), "dir/in.gif");
    assert_eq!(job.size_display(), None);
    let other = ConversionJob::new(
        InputSource::LocalFile("/v/in.mov".to_string()),
        "in.gif".to_string(),
    );
    assert_ne!(job.id, other.id);
    assert_eq!(other.output_display(), "in.gif");
}

#[test]
fn size_display_uses_output_size() {
    let mut job = ConversionJob::new(
        InputSource::LocalFile("in.mov".to_string()),
        "out.gif".to_string(),
    );
    job.progress = ConversionProgress {
        frame: 10,
        total_frames: Some(20),
        speed: None,
        output_size: Some(2621440),
    };
    assert_eq!(job.size_display(), Some("2.5MB".to_string()));
    let empty = ConversionProgress::default();
    assert_eq!(empty.frame, 0);
    assert!(empty.output_size.is_none());
}

#[test]
fn cancel_settles_and_is_idempotent() {
    let mut job = ConversionJob::new(
        InputSource::LocalFile("in.mov".to_string()),
        "out.gif".to_string(),
    );
    job.status = JobStatus::Converting;
    job.cancel();
    assert_eq!(job.status, JobStatus::Cancelled);
    job.cancel();
    assert_eq!(job.status, JobStatus::Cancelled);
    job.status = JobStatus::Complete;
    job.cancel();
    assert_eq!(job.status, JobStatus::Complete);
    job.status = JobStatus::Failed("e".to_string());
    job.cancel();
    assert_eq!(job.status, JobStatus::Failed("e".to_string()));
}

#[test]
fn status_icons_and_classes() {
    assert_eq!(JobStatus::Pending.icon(), "\u{25cb}");
    assert_eq!(JobStatus::Cancelled.icon(), "\u{2298}");
    assert!(JobStatus::Complete.is_terminal());
    assert!(JobStatus::Cancelled.is_terminal());
    assert!(JobStatus::Failed("x".to_string()).is_terminal());
    assert!(!JobStatus::Pending.is_terminal());
    assert!(!JobStatus::Converting.is_terminal());
    assert!(JobStatus::Converting.is_converting());
    assert!(JobStatus::Pending.is_pending());
    assert!(JobStatus::Complete.is_complete());
}
