use gifer::ffmpeg::{ProgressAction, ProgressReader};
use gifer::job::{InputSource, JobStatus};
use gifer::settings::{FpsPreset, LoopCount, Quality, Scale, Settings};
use gifer::worker::{action_update, conversion_args, duration_probe_args, finished_update};

#[test]
fn conversion_arguments() {
    let mut settings = Settings::default();
    settings.scale = Scale::H360;
    settings.fps = FpsPreset::Fps15;
    settings.quality = Quality::High;
    settings.loop_count = LoopCount::Once;
    let input = InputSource::RemoteUrl("https://e.com/v.mp4".to_string());
    let args = conversion_args(&input, "/out/v.gif", &settings);
    assert_eq!(
        args,
        vec![
            "-i",
            "https://e.com/v.mp4",
            "-filter_complex",
            "[0:v]fps=15,scale=-1:360:flags=lanczos,split[a][b];[a]palettegen=stats_mode=diff[palette];[b][palette]paletteuse=dither=floyd_steinberg",
            "-loop",
            "-1",
            "-progress",
            "pipe:1",
            "-nostats",
            "-y",
            "/out/v.gif",
        ]
    );
}

#[test]
fn probe_arguments() {
    assert_eq!(
        duration_probe_args("/v/in.mov"),
        vec![
            "-v",
            "error",
            "-show_entries",
            "format=duration",
            "-of",
            "default=noprint_wrappers=1:nokey=1",
            "/v/in.mov",
        ]
    );
}

#[test]
fn cancellation_stops_before_reading() {
    let mut reader = ProgressReader::new();
    assert_eq!(reader.next_line(false, &Some("frame=5".to_string())), ProgressAction::Continue);
    assert_eq!(reader.current_frame, 5);
    assert_eq!(reader.next_line(true, &Some("frame=9".to_string())), ProgressAction::Cancel);
    assert_eq!(reader.current_frame, 5);
    assert_eq!(reader.next_line(false, &None), ProgressAction::Continue);
    assert_eq!(
        reader.next_line(false, &Some("out_time_us=10".to_string())),
        ProgressAction::Report { frame: 5, out_time_us: 10 }
    );
}

#[test]
fn updates_for_steps() {
    let report = action_update(7, ProgressAction::Report { frame: 12, out_time_us: 99 }).unwrap();
    assert_eq!(report.job_id, 7);
    assert!(report.status.is_none());
    assert_eq!(report.progress.as_ref().map(|p| p.frame), Some(12));
    let cancel = action_update(7, ProgressAction::Cancel).unwrap();
    assert_eq!(cancel.status, Some(JobStatus::Cancelled));
    assert!(cancel.progress.is_none());
    assert!(action_update(7, ProgressAction::Finish).is_none());
    assert!(action_update(7, ProgressAction::Continue).is_none());
}

#[test]
fn final_updates() {
    let done = finished_update(3, true, true, "", 40, Some(2048));
    assert_eq!(done.job_id, 3);
    assert_eq!(done.status, Some(JobStatus::Complete));
    let p = done.progress.unwrap();
    assert_eq!(p.frame, 40);
    assert_eq!(p.output_size, Some(2048));
    let failed = finished_update(3, true, false, "x\nOutput file is empty\n", 40, None);
    assert_eq!(failed.status, Some(JobStatus::Failed("Output file is empty".to_string())));
    assert!(failed.progress.is_none());
    let crashed = finished_update(3, false, true, "", 0, Some(1));
    assert_eq!(crashed.status, Some(JobStatus::Failed("Unknown error".to_string())));
}
