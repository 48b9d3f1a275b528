use gifer::ffmpeg::{
    build_filter_chain, conversion_outcome, get_loop_arg, last_error_line, parse_progress_line,
    which_output_path, ProgressAction, ProgressLine, ProgressReader,
};
use gifer::settings::{FpsPreset, LoopCount, Quality, Scale, Settings};

#[test]
fn test_build_filter_chain_with_scale() {
    let mut settings = Settings::default();
    settings.scale = Scale::H480;
    settings.fps = FpsPreset::Fps10;
    settings.quality = Quality::Medium;

    let filter = build_filter_chain(&settings);
    assert!(filter.contains("fps=10"));
    assert!(filter.contains("scale=-1:480"));
    assert!(filter.contains("palettegen"));
    assert!(filter.contains("sierra2_4a"));
}

#[test]
fn test_build_filter_chain_original() {
    let mut settings = Settings::default();
    settings.scale = Scale::Original;
    settings.fps = FpsPreset::Fps15;
    settings.quality = Quality::High;

    let filter = build_filter_chain(&settings);
    assert!(filter.contains("fps=15"));
    assert!(!filter.contains("scale="));
    assert!(filter.contains("floyd_steinberg"));
}

#[test]
fn test_build_filter_chain_percent() {
    let mut settings = Settings::default();
    settings.scale = Scale::Percent50;
    settings.fps = FpsPreset::Fps10;

    let filter = build_filter_chain(&settings);
    assert!(filter.contains("iw*0.5:ih*0.5"));
}

#[test]
fn test_loop_arg() {
    let mut settings = Settings::default();

    settings.loop_count = LoopCount::Infinite;
    assert_eq!(get_loop_arg(&settings), "0");

    settings.loop_count = LoopCount::Once;
    assert_eq!(get_loop_arg(&settings), "-1");

    settings.loop_count = LoopCount::Count(3);
    assert_eq!(get_loop_arg(&settings), "3");
}

#[test]
fn filter_chain_exact_text() {
    let mut settings = Settings::default();
    settings.scale = Scale::Percent75;
    settings.fps = FpsPreset::Fps24;
    settings.quality = Quality::Low;
    assert_eq!(
        build_filter_chain(&settings),
        "[0:v]fps=24,scale=iw*0.75:ih*0.75:flags=lanczos,split[a][b];[a]palettegen=stats_mode=diff[palette];[b][palette]paletteuse=dither=bayer:bayer_scale=5"
    );
    settings.scale = Scale::Original;
    settings.fps = FpsPreset::Fps5;
    settings.quality = Quality::Medium;
    assert_eq!(
        build_filter_chain(&settings),
        "[0:v]fps=5,split[a][b];[a]palettegen=stats_mode=diff[palette];[b][palette]paletteuse=dither=sierra2_4a"
    );
}

#[test]
fn loop_arg_large_count() {
    let mut settings = Settings::default();
    settings.loop_count = LoopCount::Count(10);
    assert_eq!(get_loop_arg(&settings), "10");
    settings.loop_count = LoopCount::Count(0);
    assert_eq!(get_loop_arg(&settings), "0");
}

#[test]
fn progress_lines_are_read() {
    assert_eq!(parse_progress_line("frame=42"), ProgressLine::Frame(42));
    assert_eq!(parse_progress_line(" frame = 7 "), ProgressLine::Frame(7));
    assert_eq!(parse_progress_line("out_time_us=1500000"), ProgressLine::OutTimeUs(1500000));
    assert_eq!(parse_progress_line("progress=end"), ProgressLine::End);
    assert_eq!(parse_progress_line("progress=continue"), ProgressLine::Other);
    assert_eq!(parse_progress_line("frame=abc"), ProgressLine::Other);
    assert_eq!(parse_progress_line("frame=-3"), ProgressLine::Other);
    assert_eq!(parse_progress_line("frame=+3"), ProgressLine::Frame(3));
    assert_eq!(parse_progress_line("out_time_us=18446744073709551616"), ProgressLine::Other);
    assert_eq!(parse_progress_line("speed=2.5x"), ProgressLine::Other);
    assert_eq!(parse_progress_line("no equals sign"), ProgressLine::Other);
}

#[test]
fn progress_reader_reports_with_last_frame() {
    let mut reader = ProgressReader::new();
    assert_eq!(reader.read_line("frame=10"), ProgressAction::Continue);
    assert_eq!(
        reader.read_line("out_time_us=2000000"),
        ProgressAction::Report { frame: 10, out_time_us: 2000000 }
    );
    assert_eq!(reader.read_line("frame=25"), ProgressAction::Continue);
    assert_eq!(reader.read_line("bitrate=100kbits/s"), ProgressAction::Continue);
    assert_eq!(
        reader.read_line("out_time_us=3000000"),
        ProgressAction::Report { frame: 25, out_time_us: 3000000 }
    );
    assert_eq!(reader.read_line("progress=end"), ProgressAction::Finish);
    assert_eq!(reader.current_frame, 25);
}

#[test]
fn error_line_is_last_meaningful_one() {
    let stderr = "ffmpeg version 6\n  built with gcc\nInput #0, mov\ninput.mov: No such file or directory\n   \n";
    assert_eq!(last_error_line(stderr), "input.mov: No such file or directory");
    assert_eq!(last_error_line("first\r\nsecond\r\n  indented\n"), "second");
    assert_eq!(last_error_line(""), "Unknown error");
    assert_eq!(last_error_line("  only indented\n\n"), "Unknown error");
}

#[test]
fn conversion_outcomes() {
    assert_eq!(conversion_outcome(true, true, "noise"), Ok(()));
    assert_eq!(conversion_outcome(true, false, "a\nbad thing\n"), Err("bad thing".to_string()));
    assert_eq!(conversion_outcome(false, true, ""), Err("Unknown error".to_string()));
}

#[test]
fn which_output_is_trimmed() {
    assert_eq!(which_output_path("/usr/bin/ffmpeg\n"), Some("/usr/bin/ffmpeg".to_string()));
    assert_eq!(which_output_path("  \n"), None);
}
