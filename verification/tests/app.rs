use gifer::app::{App, AppAction, FocusedSection, NameSearch, PastedInput, SettingsField};
use gifer::event::{
    is_down_key, is_left_key, is_paste_key, is_quit_key, is_right_key, is_up_key, KeyCode,
    KeyEvent, KeyModifiers,
};
use gifer::job::{ConversionJob, ConversionProgress, InputSource, JobStatus, ProgressUpdate};
use gifer::settings::{LoopCount, Scale, Settings};

fn home() -> Option<String> {
    Some("/home/ann".to_string())
}

fn plain() -> KeyModifiers {
    KeyModifiers { shift: false, control: false, alt: false, super_key: false, hyper: false, meta: false }
}

fn key(code: KeyCode) -> KeyEvent {
    KeyEvent { code, modifiers: plain() }
}

fn ch(c: char) -> KeyEvent {
    key(KeyCode::Char(c))
}

fn app() -> App {
    let h = home();
    App::new_with_home(Settings::default_with_home(&h), &h)
}

fn press(app: &mut App, k: KeyEvent) -> AppAction {
    app.handle_key_with_home(&k, &home())
}

fn item(path: &str, key: &str, out: &str) -> PastedInput {
    PastedInput {
        input: InputSource::LocalFile(path.to_string()),
        canonical: Some(key.to_string()),
        output_path: out.to_string(),
    }
}

fn with_jobs(n: usize) -> App {
    let mut a = app();
    let items: Vec<PastedInput> = (0..n)
        .map(|i| item(&format!("/v/{}.mov", i), &format!("/v/{}.mov", i), &format!("/o/{}.gif", i)))
        .collect();
    a.add_pasted_files(items);
    a
}

#[test]
fn new_app_state() {
    let a = app();
    assert_eq!(a.focused_section, FocusedSection::JobList);
    assert_eq!(a.selected_setting, SettingsField::Scale);
    assert_eq!(a.output_input, "~/gifs");
    assert!(a.jobs.is_empty());
    assert!(a.message.is_none());
    assert!(!a.should_quit);
}

#[test]
fn key_predicates() {
    let mut cmd_v = ch('v');
    cmd_v.modifiers.super_key = true;
    assert!(is_paste_key(&cmd_v));
    let mut ctrl_v = ch('v');
    ctrl_v.modifiers.control = true;
    assert!(is_paste_key(&ctrl_v));
    ctrl_v.modifiers.shift = true;
    assert!(!is_paste_key(&ctrl_v));
    assert!(!is_paste_key(&ch('v')));
    assert!(is_quit_key(&ch('q')));
    assert!(is_quit_key(&key(KeyCode::Esc)));
    assert!(is_up_key(&ch('k')) && is_up_key(&key(KeyCode::Up)));
    assert!(is_down_key(&ch('j')) && is_down_key(&key(KeyCode::Down)));
    assert!(is_left_key(&ch('h')) && is_left_key(&key(KeyCode::Left)));
    assert!(is_right_key(&ch('l')) && is_right_key(&key(KeyCode::Right)));
    assert!(!is_right_key(&ch('x')));
}

#[test]
fn quit_and_paste_keys() {
    let mut a = app();
    assert!(matches!(press(&mut a, ch('p')), AppAction::Paste));
    assert!(!a.should_quit);
    assert!(matches!(press(&mut a, ch('q')), AppAction::Nothing));
    assert!(a.should_quit);
}

#[test]
fn tab_toggles_focus_and_back() {
    let mut a = app();
    press(&mut a, key(KeyCode::Tab));
    assert_eq!(a.focused_section, FocusedSection::Settings);
    press(&mut a, key(KeyCode::BackTab));
    assert_eq!(a.focused_section, FocusedSection::JobList);
}

#[test]
fn settings_navigation_and_adjustment() {
    let mut a = app();
    press(&mut a, key(KeyCode::Tab));
    press(&mut a, key(KeyCode::Right));
    assert_eq!(a.settings.scale, Scale::Percent33);
    press(&mut a, ch('h'));
    assert_eq!(a.settings.scale, Scale::Percent50);
    // Five fields, cycling.
    for _ in 0..5 {
        press(&mut a, ch('j'));
    }
    assert_eq!(a.selected_setting, SettingsField::Scale);
    press(&mut a, ch('k'));
    assert_eq!(a.selected_setting, SettingsField::OutputDir);
    press(&mut a, key(KeyCode::Right));
    assert_eq!(a.settings.output_dir, "/home/ann/Pictures/gifs");
    assert_eq!(a.output_input, "~/Pictures/gifs");
    press(&mut a, ch('k'));
    assert_eq!(a.selected_setting, SettingsField::Loop);
    press(&mut a, ch('l'));
    assert_eq!(a.settings.loop_count, LoopCount::Once);
    assert_eq!(SettingsField::Loop.next(), SettingsField::OutputDir);
    assert_eq!(SettingsField::Scale.prev(), SettingsField::OutputDir);
}

#[test]
fn loop_underflow_is_detected() {
    let mut a = app();
    a.focused_section = FocusedSection::Settings;
    a.selected_setting = SettingsField::Loop;
    a.settings.loop_count = LoopCount::Count(0);
    assert!(a.would_underflow(&ch('h')));
    assert!(!a.would_underflow(&ch('l')));
    a.settings.loop_count = LoopCount::Count(1);
    assert!(!a.would_underflow(&ch('h')));
}

#[test]
fn editing_output_directory() {
    let mut a = app();
    a.focused_section = FocusedSection::Settings;
    a.selected_setting = SettingsField::OutputDir;
    press(&mut a, key(KeyCode::Enter));
    assert!(a.editing_output);
    assert_eq!(a.output_input, "~/gifs");
    press(&mut a, key(KeyCode::Backspace));
    assert_eq!(a.output_input, "~/gif");
    press(&mut a, ch('s'));
    assert_eq!(a.output_input, "~/gifs");
    // Typing `q` while editing does not quit.
    press(&mut a, ch('q'));
    assert!(!a.should_quit);
    match press(&mut a, key(KeyCode::Tab)) {
        AppAction::Autocomplete { input } => assert_eq!(input, "/home/ann/gifsq"),
        other => panic!("unexpected action {:?}", other),
    }
    press(&mut a, key(KeyCode::Enter));
    assert!(!a.editing_output);
    assert_eq!(a.settings.output_dir, "/home/ann/gifsq");
    assert_eq!(a.message.as_deref(), Some("Output directory updated"));
    assert!(!a.message_is_error);
}

#[test]
fn escape_cancels_output_edit() {
    let mut a = app();
    a.focused_section = FocusedSection::Settings;
    a.selected_setting = SettingsField::OutputDir;
    press(&mut a, key(KeyCode::Enter));
    press(&mut a, ch('x'));
    press(&mut a, key(KeyCode::Esc));
    assert!(!a.editing_output);
    assert!(!a.should_quit);
    assert_eq!(a.output_input, "~/gifs");
    assert_eq!(a.settings.output_dir, "/home/ann/gifs");
}

#[test]
fn paste_files_adds_and_skips_duplicates() {
    let mut a = app();
    a.add_pasted_files(vec![
        item("/v/a.mov", "/v/a.mov", "/o/a.gif"),
        item("/v/b.mov", "/v/b.mov", "/o/b.gif"),
        item("/v/a.mov", "/v/a.mov", "/o/a_1.gif"),
    ]);
    assert_eq!(a.jobs.len(), 2);
    assert_eq!(a.jobs[1].output_path, "/o/b.gif");
    assert_eq!(a.message.as_deref(), Some("Added 2 video(s), 1 skipped (duplicate)"));
    assert!(!a.message_is_error);
    // Pasting the same files again adds nothing.
    a.add_pasted_files(vec![item("/v/a.mov", "/v/a.mov", "/o/x.gif"), item("/v/b.mov", "/v/b.mov", "/o/y.gif")]);
    assert_eq!(a.jobs.len(), 2);
    assert_eq!(a.message.as_deref(), Some("2 video(s) already in queue"));
    assert!(a.message_is_error);
    a.add_pasted_files(vec![item("/v/c.mov", "/v/c.mov", "/o/c.gif")]);
    assert_eq!(a.message.as_deref(), Some("Added 1 video(s) to queue"));
}

#[test]
fn paste_url_outcomes() {
    let mut a = app();
    let url = "https://e.com/v.mp4";
    let p = PastedInput {
        input: InputSource::RemoteUrl(url.to_string()),
        canonical: None,
        output_path: "/o/v.gif".to_string(),
    };
    a.finish_paste_url(Ok(Some(p)));
    assert_eq!(a.jobs.len(), 1);
    assert_eq!(a.message.as_deref(), Some("Added URL to queue"));
    let again = PastedInput {
        input: InputSource::RemoteUrl(url.to_string()),
        canonical: None,
        output_path: "/o/v_1.gif".to_string(),
    };
    a.finish_paste_url(Ok(Some(again)));
    assert_eq!(a.jobs.len(), 1);
    assert_eq!(a.message.as_deref(), Some("URL already in queue"));
    a.finish_paste_url(Ok(None));
    assert_eq!(a.message.as_deref(), Some("No video file or URL in clipboard"));
    a.finish_paste_url(Err("no access".to_string()));
    assert_eq!(a.message.as_deref(), Some("Clipboard: no access"));
    assert!(a.message_is_error);
}

#[test]
fn job_selection_wraps() {
    let mut a = with_jobs(3);
    press(&mut a, ch('k'));
    assert_eq!(a.selected_job_index, 2);
    press(&mut a, ch('j'));
    assert_eq!(a.selected_job_index, 0);
    press(&mut a, ch('j'));
    press(&mut a, ch('k'));
    assert_eq!(a.selected_job_index, 0);
}

#[test]
fn starting_respects_the_limit() {
    let mut a = with_jobs(5);
    assert!(a.tick());
    let started = a.start_pending_jobs(&Ok(()));
    assert_eq!(started, vec![0, 1, 2]);
    assert_eq!(a.jobs[3].status, JobStatus::Pending);
    assert!(!a.tick());
    let id = a.jobs[1].id;
    a.handle_progress_update(ProgressUpdate { job_id: id, status: Some(JobStatus::Complete), progress: None });
    assert!(a.tick());
    assert_eq!(a.start_pending_jobs(&Ok(())), vec![3]);
    assert_eq!(a.jobs[4].status, JobStatus::Pending);
}

#[test]
fn output_dir_error_fails_pending_jobs() {
    let mut a = with_jobs(2);
    let started = a.start_pending_jobs(&Err("denied".to_string()));
    assert!(started.is_empty());
    assert_eq!(a.jobs[0].status, JobStatus::Failed("Output dir error: denied".to_string()));
    assert_eq!(a.jobs[1].status, JobStatus::Failed("Output dir error: denied".to_string()));
    assert!(!a.tick());
}

#[test]
fn progress_updates_apply_to_matching_job() {
    let mut a = with_jobs(2);
    let id = a.jobs[1].id;
    let p = ConversionProgress { frame: 12, total_frames: Some(40), speed: Some("1.5x".to_string()), output_size: None };
    a.handle_progress_update(ProgressUpdate { job_id: id, status: None, progress: Some(p) });
    assert_eq!(a.jobs[1].progress.frame, 12);
    assert_eq!(a.jobs[1].status, JobStatus::Pending);
    assert_eq!(a.jobs[0].progress.frame, 0);
    let mut missing: u128 = 0;
    while a.jobs.iter().any(|j| j.id == missing) {
        missing += 1;
    }
    a.handle_progress_update(ProgressUpdate { job_id: missing, status: Some(JobStatus::Cancelled), progress: None });
    assert_eq!(a.jobs[1].status, JobStatus::Pending);
}

#[test]
fn messages_expire_after_twenty_ticks() {
    let mut a = app();
    a.set_message("hello".to_string(), false);
    assert_eq!(a.message_timeout, 20);
    for _ in 0..19 {
        a.tick();
    }
    assert_eq!(a.message.as_deref(), Some("hello"));
    a.tick();
    assert!(a.message.is_none());
    a.tick();
    assert_eq!(a.message_timeout, 0);
}

#[test]
fn scroll_offset_wraps() {
    let mut a = app();
    a.scroll_offset = u16::MAX;
    a.tick();
    assert_eq!(a.scroll_offset, 0);
}

#[test]
fn delete_selected_job() {
    let mut a = with_jobs(2);
    a.selected_job_index = 1;
    match press(&mut a, ch('x')) {
        AppAction::DeleteJob { index } => assert_eq!(index, 1),
        other => panic!("unexpected action {:?}", other),
    }
    a.delete_job(&None);
    assert_eq!(a.jobs.len(), 1);
    assert_eq!(a.selected_job_index, 0);
    assert_eq!(a.message.as_deref(), Some("Job deleted"));
    // The deleted input can be queued again.
    a.add_pasted_files(vec![item("/v/1.mov", "/v/1.mov", "/o/1.gif")]);
    assert_eq!(a.jobs.len(), 2);
    let mut empty = app();
    assert!(matches!(press(&mut empty, ch('x')), AppAction::Nothing));
}

#[test]
fn copy_only_completed_jobs() {
    let mut a = with_jobs(1);
    press(&mut a, ch('y'));
    assert_eq!(a.message.as_deref(), Some("Can only copy completed jobs"));
    assert!(a.message_is_error);
    a.jobs[0].status = JobStatus::Complete;
    match press(&mut a, ch('y')) {
        AppAction::Copy { path } => assert_eq!(path, "/o/0.gif"),
        other => panic!("unexpected action {:?}", other),
    }
    a.finish_copy(Ok(()));
    assert_eq!(a.message.as_deref(), Some("Copied: 0.gif"));
    a.finish_copy(Err("busy".to_string()));
    assert_eq!(a.message.as_deref(), Some("Copy failed: busy"));
}

#[test]
fn renaming_a_pending_job() {
    let mut a = with_jobs(1);
    press(&mut a, ch('r'));
    assert!(a.editing_rename);
    assert_eq!(a.rename_input, "0");
    press(&mut a, key(KeyCode::Backspace));
    for c in " new/name ".chars() {
        press(&mut a, ch(c));
    }
    assert_eq!(a.rename_input, " newname ");
    assert!(matches!(press(&mut a, key(KeyCode::Enter)), AppAction::Nothing));
    assert!(!a.editing_rename);
    assert_eq!(a.jobs[0].output_path, "/home/ann/gifs/newname.gif");
    assert_eq!(a.message.as_deref(), Some("Renamed"));
}

#[test]
fn renaming_rules() {
    let mut a = with_jobs(1);
    a.jobs[0].status = JobStatus::Converting;
    press(&mut a, ch('r'));
    assert!(!a.editing_rename);
    assert_eq!(a.message.as_deref(), Some("Can only rename pending or completed jobs"));
    a.jobs[0].status = JobStatus::Complete;
    press(&mut a, ch('r'));
    press(&mut a, key(KeyCode::Backspace));
    press(&mut a, key(KeyCode::Enter));
    assert_eq!(a.message.as_deref(), Some("Filename cannot be empty"));
    assert!(a.editing_rename);
    press(&mut a, ch('z'));
    match press(&mut a, key(KeyCode::Enter)) {
        AppAction::RenameFile { from, to } => {
            assert_eq!(from, "/o/0.gif");
            assert_eq!(to, "/home/ann/gifs/z.gif");
            a.finish_rename(to, Ok(()));
        }
        other => panic!("unexpected action {:?}", other),
    }
    assert_eq!(a.jobs[0].output_path, "/home/ann/gifs/z.gif");
    assert!(!a.editing_rename);
    a.finish_rename("/x.gif".to_string(), Err("no such file".to_string()));
    assert_eq!(a.message.as_deref(), Some("Rename failed: no such file"));
    assert_eq!(a.jobs[0].output_path, "/home/ann/gifs/z.gif");
}

#[test]
fn output_names() {
    let a = app();
    let local = InputSource::LocalFile("/v/clip.mov".to_string());
    assert_eq!(App::output_stem(&local, 5), "clip");
    let url = InputSource::RemoteUrl("https://e.com/watch".to_string());
    assert_eq!(App::output_stem(&url, 1700000000), "video-1700000000");
    assert_eq!(a.output_path_candidate("clip", 0), "/home/ann/gifs/clip.gif");
    assert_eq!(a.output_path_candidate("clip", 3), "/home/ann/gifs/clip_3.gif");
}

#[test]
fn autocomplete_single_and_common_prefix() {
    let h = home();
    let mut a = app();
    a.apply_autocomplete(&vec!["/home/ann/Pictures".to_string()], "/home/ann/Pic", &h);
    assert_eq!(a.output_input, "~/Pictures/");
    let several = vec!["/home/ann/Pics".to_string(), "/home/ann/Pictures".to_string()];
    assert!(!a.autocomplete_would_panic(&several, "/home/ann/P"));
    a.apply_autocomplete(&several, "/home/ann/P", &h);
    assert_eq!(a.output_input, "~/Pic");
    let before = a.output_input.clone();
    a.apply_autocomplete(&several, "/home/ann/Pic", &h);
    assert_eq!(a.output_input, before);
    a.apply_autocomplete(&vec![], "/home/ann/Q", &h);
    assert_eq!(a.output_input, before);
}

#[test]
fn autocomplete_cut_inside_a_character_is_detected() {
    let a = app();
    // Shared prefix of 3 characters, but the first two are 2 bytes each: cutting
    // at byte 3 splits the second character.
    let matches = vec!["\u{e9}\u{e9}a1".to_string(), "\u{e9}\u{e9}a2".to_string()];
    assert!(a.autocomplete_would_panic(&matches, "x"));
}

#[test]
fn new_job_from_parts() {
    let job = ConversionJob::new(InputSource::LocalFile("/v/a.mov".to_string()), "/o/a.gif".to_string());
    assert_eq!(job.status, JobStatus::Pending);
}

#[test]
fn handle_key_with_the_user_home() {
    let mut a = App::new(Settings::default());
    assert!(matches!(a.handle_key(&ch('p')), AppAction::Paste));
    assert!(matches!(a.handle_key(&key(KeyCode::Esc)), AppAction::Nothing));
    assert!(a.should_quit);
}

#[test]
fn output_candidates_are_all_different() {
    let a = app();
    let names: Vec<String> = (0..200).map(|c| a.output_path_candidate("clip", c)).collect();
    for i in 0..names.len() {
        for j in (i + 1)..names.len() {
            assert_ne!(names[i], names[j]);
        }
    }
    assert_eq!(names[1], "/home/ann/gifs/clip_1.gif");
    assert_eq!(names[10], "/home/ann/gifs/clip_10.gif");
}

#[test]
fn starting_touches_only_pending_jobs() {
    let mut a = with_jobs(4);
    a.jobs[0].status = JobStatus::Complete;
    a.jobs[1].status = JobStatus::Failed("bad".to_string());
    a.jobs[2].status = JobStatus::Cancelled;
    let started = a.start_pending_jobs(&Ok(()));
    assert_eq!(started, vec![3]);
    assert_eq!(a.jobs[0].status, JobStatus::Complete);
    assert_eq!(a.jobs[1].status, JobStatus::Failed("bad".to_string()));
    assert_eq!(a.jobs[2].status, JobStatus::Cancelled);
    assert_eq!(a.jobs[3].status, JobStatus::Converting);
}

#[test]
fn one_paste_queues_each_input_once() {
    let mut a = with_jobs(1);
    a.add_pasted_files(vec![
        item("/v/x.mov", "/v/x.mov", "/o/x.gif"),
        item("/v/x.mov", "/v/x.mov", "/o/x_1.gif"),
        item("/v/0.mov", "/v/0.mov", "/o/0_1.gif"),
        item("/v/y.mov", "/v/y.mov", "/o/y.gif"),
    ]);
    assert_eq!(a.jobs.len(), 3);
    assert_eq!(a.jobs[1].output_path, "/o/x.gif");
    assert_eq!(a.jobs[2].output_path, "/o/y.gif");
    assert_eq!(a.message.as_deref(), Some("Added 2 video(s), 2 skipped (duplicate)"));
}

#[test]
fn right_then_left_restores_each_setting() {
    let mut a = app();
    a.focused_section = FocusedSection::Settings;
    for _ in 0..5 {
        let before = a.settings.clone();
        press(&mut a, key(KeyCode::Right));
        press(&mut a, key(KeyCode::Left));
        assert_eq!(a.settings.scale, before.scale);
        assert_eq!(a.settings.fps, before.fps);
        assert_eq!(a.settings.quality, before.quality);
        assert_eq!(a.settings.loop_count, before.loop_count);
        assert_eq!(a.settings.output_dir, before.output_dir);
        press(&mut a, ch('j'));
    }
}

#[test]
fn pasted_files_are_keyed_by_canonical_path() {
    let mut a = app();
    let p = |path: &str, canonical: Option<&str>, out: &str| PastedInput {
        input: InputSource::LocalFile(path.to_string()),
        canonical: canonical.map(|c| c.to_string()),
        output_path: out.to_string(),
    };
    a.add_pasted_files(vec![
        p("clip.mov", Some("/home/ann/clip.mov"), "/o/clip.gif"),
        p("../ann/clip.mov", Some("/home/ann/clip.mov"), "/o/clip_1.gif"),
        p("other.mov", None, "/o/other.gif"),
        p("other.mov", None, "/o/other_1.gif"),
    ]);
    assert_eq!(a.jobs.len(), 2);
    assert_eq!(a.processed_inputs, vec!["/home/ann/clip.mov".to_string(), "other.mov".to_string()]);
}

#[test]
fn output_path_search_steps() {
    let a = app();
    match a.output_path_step("clip", 0, true) {
        NameSearch::Try(next) => assert_eq!(next, 1),
        other => panic!("unexpected {:?}", other),
    }
    match a.output_path_step("clip", 1, false) {
        NameSearch::Use(path) => assert_eq!(path, "/home/ann/gifs/clip_1.gif"),
        other => panic!("unexpected {:?}", other),
    }
}

#[test]
fn many_ticks_after_a_message() {
    let mut a = app();
    a.scroll_offset = 65530;
    a.set_message("oops".to_string(), true);
    for _ in 0..50 {
        a.tick();
    }
    assert!(a.message.is_none());
    assert!(a.message_is_error);
    assert_eq!(a.message_timeout, 0);
    assert_eq!(a.scroll_offset, ((65530u32 + 50) % 0x10000) as u16);
}
