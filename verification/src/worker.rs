//! What a conversion worker hands FFmpeg and ffprobe, and the updates it
//! sends back while and after FFmpeg runs.
use vstd::prelude::*;
use crate::ffmpeg::{
    build_filter_chain, conversion_outcome, filter_chain, get_loop_arg, run_outcome, ProgressAction,
};
use crate::job::{ConversionProgress, InputSource, JobStatus, ProgressUpdate};
use crate::settings::Settings;
use crate::text::signed_decimal;

verus! {

/// The arguments of the FFmpeg run that turns `input` into the GIF `output`:
/// the input, the filter graph, the loop option, the progress report on
/// standard output, no statistics on standard error, and overwriting.
pub open spec fn conversion_arg_list(
    input: Seq<char>,
    filter: Seq<char>,
    loop_arg: Seq<char>,
    output: Seq<char>,
) -> Seq<Seq<char>> {
    seq![
        "-i"@,
        input,
        "-filter_complex"@,
        filter,
        "-loop"@,
        loop_arg,
        "-progress"@,
        "pipe:1"@,
        "-nostats"@,
        "-y"@,
        output,
    ]
}

/// The arguments of the ffprobe run that prints the duration of `input`, in
/// seconds, and nothing else.
pub open spec fn probe_arg_list(input: Seq<char>) -> Seq<Seq<char>> {
    seq![
        "-v"@,
        "error"@,
        "-show_entries"@,
        "format=duration"@,
        "-of"@,
        "default=noprint_wrappers=1:nokey=1"@,
        input,
    ]
}

/// The FFmpeg arguments that convert `input` to the GIF at `output_path`
/// with `settings`.
pub fn conversion_args(input: &InputSource, output_path: &str, settings: &Settings) -> (r: Vec<
    String,
>)
    ensures
        r.deep_view() == conversion_arg_list(
            input.location(),
            filter_chain(*settings),
            signed_decimal(settings.loop_count.loop_value() as int),
            output_path@,
        ),
{
    let mut r: Vec<String> = Vec::new();
    r.push(String::from_str("-i"));
    r.push(input.ffmpeg_input());
    r.push(String::from_str("-filter_complex"));
    r.push(build_filter_chain(settings));
    r.push(String::from_str("-loop"));
    r.push(get_loop_arg(settings));
    r.push(String::from_str("-progress"));
    r.push(String::from_str("pipe:1"));
    r.push(String::from_str("-nostats"));
    r.push(String::from_str("-y"));
    r.push(String::from_str(output_path));
    assert(r.deep_view() =~= conversion_arg_list(
        input.location(),
        filter_chain(*settings),
        signed_decimal(settings.loop_count.loop_value() as int),
        output_path@,
    ));
    r
}

/// The ffprobe arguments that print the duration of `input`.
pub fn duration_probe_args(input: &str) -> (r: Vec<String>)
    ensures
        r.deep_view() == probe_arg_list(input@),
{
    let mut r: Vec<String> = Vec::new();
    r.push(String::from_str("-v"));
    r.push(String::from_str("error"));
    r.push(String::from_str("-show_entries"));
    r.push(String::from_str("format=duration"));
    r.push(String::from_str("-of"));
    r.push(String::from_str("default=noprint_wrappers=1:nokey=1"));
    r.push(String::from_str(input));
    assert(r.deep_view() =~= probe_arg_list(input@));
    r
}

/// The update sent for a step of the progress report: the frames written so
/// far with each report, the cancellation of the job, and nothing else.
pub fn action_update(job_id: u128, action: ProgressAction) -> (r: Option<ProgressUpdate>)
    ensures
        match action {
            ProgressAction::Report { frame, .. } => r == Some(
                ProgressUpdate {
                    job_id,
                    status: None,
                    progress: Some(
                        ConversionProgress {
                            frame,
                            total_frames: None,
                            speed: None,
                            output_size: None,
                        },
                    ),
                },
            ),
            ProgressAction::Cancel => r == Some(
                ProgressUpdate { job_id, status: Some(JobStatus::Cancelled), progress: None },
            ),
            _ => r is None,
        },
{
    match action {
        ProgressAction::Report { frame, .. } => Some(
            ProgressUpdate {
                job_id,
                status: None,
                progress: Some(
                    ConversionProgress { frame, total_frames: None, speed: None, output_size: None },
                ),
            },
        ),
        ProgressAction::Cancel => Some(
            ProgressUpdate { job_id, status: Some(JobStatus::Cancelled), progress: None },
        ),
        _ => None,
    }
}

/// The last update of a finished FFmpeg run: complete, with the frames
/// written and the size of the output file, when FFmpeg exited successfully
/// and the output exists; otherwise failed, with the last meaningful line of
/// FFmpeg's error output.
pub fn finished_update(
    job_id: u128,
    success: bool,
    output_exists: bool,
    stderr: &str,
    frame: u64,
    output_size: Option<u64>,
) -> (r: ProgressUpdate)
    ensures
        r.job_id == job_id,
        match run_outcome(success, output_exists, stderr@) {
            Ok(()) => r.status == Some(JobStatus::Complete) && r.progress == Some(
                ConversionProgress { frame, total_frames: None, speed: None, output_size },
            ),
            Err(m) => r.status matches Some(JobStatus::Failed(e)) && e@ == m && r.progress is None,
        },
{
    match conversion_outcome(success, output_exists, stderr) {
        Ok(()) => ProgressUpdate {
            job_id,
            status: Some(JobStatus::Complete),
            progress: Some(
                ConversionProgress { frame, total_frames: None, speed: None, output_size },
            ),
        },
        Err(m) => ProgressUpdate { job_id, status: Some(JobStatus::Failed(m)), progress: None },
    }
}

} // verus!
