//! The application's state and what each key press, tick and report from
//! a conversion does to it. Work outside the process (the clipboard, the
//! file system, starting conversions) is asked for with an `AppAction`; the
//! caller performs it and hands the outcome back.
use vstd::prelude::*;
use crate::event::{
    down_key, is_down_key, is_left_key, is_paste_key, is_quit_key, is_right_key, is_up_key,
    left_key, paste_key, quit_key, right_key, up_key, KeyCode, KeyEvent, KeyModifiers,
};
use crate::job::{ConversionJob, InputSource, JobStatus, ProgressUpdate, StatusView};
use crate::path::{file_stem, join_path, path_file_stem, path_join};
use crate::settings::{
    collapsed, expand_tilde_with, expanded, home_dir, in_loop_cycle,
    lemma_fps_cycle, lemma_loop_cycle, lemma_output_dir_cycle, lemma_quality_cycle,
    lemma_scale_cycle, next_dir, plain_home, prev_dir, suggestion_index, LoopCount, Settings,
};
use crate::text::{
    chars_of, decimal, lemma_decimal_injective, pop_char, push_char, push_chars, push_decimal,
    string_of, trim, trim_chars,
};

verus! {

/// Which section of the UI is currently focused
#[derive(Debug, Clone, Copy, PartialEq, Eq, Structural)]
pub enum FocusedSection {
    Settings,
    JobList,
}

/// Which setting field is currently selected
#[derive(Debug, Clone, Copy, PartialEq, Eq, Structural)]
pub enum SettingsField {
    Scale,
    Fps,
    Quality,
    Loop,
    OutputDir,
}

impl SettingsField {
    /// The field below this one, wrapping from the last to the first.
    pub open spec fn succ(self) -> SettingsField {
        match self {
            SettingsField::Scale => SettingsField::Fps,
            SettingsField::Fps => SettingsField::Quality,
            SettingsField::Quality => SettingsField::Loop,
            SettingsField::Loop => SettingsField::OutputDir,
            SettingsField::OutputDir => SettingsField::Scale,
        }
    }

    /// The field above this one, wrapping from the first to the last.
    pub open spec fn pred(self) -> SettingsField {
        match self {
            SettingsField::Scale => SettingsField::OutputDir,
            SettingsField::Fps => SettingsField::Scale,
            SettingsField::Quality => SettingsField::Fps,
            SettingsField::Loop => SettingsField::Quality,
            SettingsField::OutputDir => SettingsField::Loop,
        }
    }

    pub fn next(&self) -> (r: Self)
        ensures
            r == self.succ(),
    {
        match self {
            SettingsField::Scale => SettingsField::Fps,
            SettingsField::Fps => SettingsField::Quality,
            SettingsField::Quality => SettingsField::Loop,
            SettingsField::Loop => SettingsField::OutputDir,
            SettingsField::OutputDir => SettingsField::Scale,
        }
    }

    pub fn prev(&self) -> (r: Self)
        ensures
            r == self.pred(),
    {
        match self {
            SettingsField::Scale => SettingsField::OutputDir,
            SettingsField::Fps => SettingsField::Scale,
            SettingsField::Quality => SettingsField::Fps,
            SettingsField::Loop => SettingsField::Quality,
            SettingsField::OutputDir => SettingsField::Loop,
        }
    }
}

/// Work the caller performs for the application, then reports back.
#[derive(Debug)]
pub enum AppAction {
    /// Nothing to do
    Nothing,
    /// Read the clipboard, then call `add_pasted_files` or `finish_paste_url`
    Paste,
    /// Put the file at `path` on the clipboard, then call `finish_copy`
    Copy { path: String },
    /// Rename the file `from` to `to` on disk, then call `finish_rename`
    RenameFile { from: String, to: String },
    /// Complete the directory being typed, `input` (with `~` expanded),
    /// against the file system, then call `apply_autocomplete`
    Autocomplete { input: String },
    /// Signal the conversion of the job at `index` to stop, find the canonical
    /// path of its input, then call `delete_job`
    DeleteJob { index: usize },
}

/// Main application state
pub struct App {
    /// Current focused section
    pub focused_section: FocusedSection,
    /// Currently selected setting field
    pub selected_setting: SettingsField,
    /// Currently selected job index
    pub selected_job_index: usize,
    /// Application settings
    pub settings: Settings,
    /// List of conversion jobs
    pub jobs: Vec<ConversionJob>,
    /// Processed inputs for duplicate detection (canonicalized paths or URLs), each once
    pub processed_inputs: Vec<String>,
    /// Whether the app should quit
    pub should_quit: bool,
    /// Temporary message to display
    pub message: Option<String>,
    /// Whether the message is an error
    pub message_is_error: bool,
    /// Counter for message timeout
    pub message_timeout: u8,
    /// Text input mode for output directory
    pub editing_output: bool,
    /// Text buffer for output directory editing
    pub output_input: String,
    /// Text input mode for renaming output file
    pub editing_rename: bool,
    /// Text buffer for rename editing (filename only, no path)
    pub rename_input: String,
    /// Scroll offset for horizontal text scrolling in status bar
    pub scroll_offset: u16,
}

/// The number of ticks a message stays shown.
pub open spec fn message_ticks() -> u8 {
    20
}

/// What a tick does: the message's countdown goes down by one, and the
/// message goes when it reaches zero; the scrolling text advances by one
/// (wrapping round); nothing else changes.
pub open spec fn tick_step(old: App, new: App) -> bool {
    &&& new.message_timeout == (if old.message_timeout > 0 {
        (old.message_timeout - 1) as u8
    } else {
        0u8
    })
    &&& new.message == (if old.message_timeout == 1 {
        None
    } else {
        old.message
    })
    &&& new.scroll_offset == old.scroll_offset.wrapping_add(1)
    &&& new == (App {
        message: new.message,
        message_timeout: new.message_timeout,
        scroll_offset: new.scroll_offset,
        ..old
    })
}

impl App {
    /// The set of inputs already queued.
    pub open spec fn processed(self) -> Set<Seq<char>> {
        self.processed_inputs.deep_view().to_set()
    }

    /// The state every operation keeps: the selected job exists when there is
    /// any (and is the first slot otherwise), and no input is recorded twice.
    pub open spec fn wf(self) -> bool {
        &&& (self.selected_job_index < self.jobs@.len() || (self.jobs@.len() == 0
            && self.selected_job_index == 0))
        &&& self.processed_inputs.deep_view().no_duplicates()
    }

    /// `self` shows `text` as a fresh message, an error or not.
    pub open spec fn shows(self, text: Seq<char>, is_error: bool) -> bool {
        &&& self.message matches Some(m) && m@ == text
        &&& self.message_is_error == is_error
        &&& self.message_timeout == message_ticks()
    }

    /// `new` is `self` with a fresh message and nothing else changed.
    pub open spec fn with_message(self, new: App, text: Seq<char>, is_error: bool) -> bool {
        &&& new.shows(text, is_error)
        &&& new == (App {
            message: new.message,
            message_is_error: is_error,
            message_timeout: message_ticks(),
            ..self
        })
    }

    /// The status of each job.
    pub open spec fn statuses(self) -> Seq<StatusView> {
        self.jobs@.map_values(|j: ConversionJob| j.status@)
    }

    /// The initial state, with `~` in the output directory read against `home`.
    pub fn new_with_home(settings: Settings, home: &Option<String>) -> (r: Self)
        ensures
            r.wf(),
            r.focused_section == FocusedSection::JobList,
            r.selected_setting == SettingsField::Scale,
            r.selected_job_index == 0,
            r.settings == settings,
            r.jobs@.len() == 0,
            r.processed_inputs@.len() == 0,
            !r.should_quit,
            r.message is None,
            !r.message_is_error,
            r.message_timeout == 0,
            !r.editing_output,
            r.output_input@ == collapsed(settings.output_dir@, home.deep_view()),
            !r.editing_rename,
            r.rename_input@.len() == 0,
            r.scroll_offset == 0,
    {
        let output_input = settings.output_dir_display_with(home);
        let r = App {
            focused_section: FocusedSection::JobList,
            selected_setting: SettingsField::Scale,
            selected_job_index: 0,
            settings,
            jobs: Vec::new(),
            processed_inputs: Vec::new(),
            should_quit: false,
            message: None,
            message_is_error: false,
            message_timeout: 0,
            editing_output: false,
            output_input,
            editing_rename: false,
            rename_input: String::new(),
            scroll_offset: 0,
        };
        assert(r.processed_inputs.deep_view() =~= Seq::<Seq<char>>::empty());
        r
    }

    pub fn new(settings: Settings) -> (r: Self)
        ensures
            r.wf(),
            r.focused_section == FocusedSection::JobList,
            r.selected_setting == SettingsField::Scale,
            r.selected_job_index == 0,
            r.settings == settings,
            r.jobs@.len() == 0,
            r.processed_inputs@.len() == 0,
            !r.should_quit,
            r.message is None,
            !r.message_is_error,
            r.message_timeout == 0,
            !r.editing_output,
            exists|home: Option<Seq<char>>|
                r.output_input@ == collapsed(settings.output_dir@, home),
            !r.editing_rename,
            r.rename_input@.len() == 0,
            r.scroll_offset == 0,
    {
        let home = home_dir();
        App::new_with_home(settings, &home)
    }

    /// Set a temporary message to display
    pub fn set_message(&mut self, msg: String, is_error: bool)
        ensures
            old(self).with_message(*final(self), msg@, is_error),
            final(self).message == Some(msg),
    {
        self.message = Some(msg);
        self.message_is_error = is_error;
        self.message_timeout = 20;
    }

    /// Show `text` as a message.
    fn say(&mut self, text: &str, is_error: bool)
        ensures
            old(self).with_message(*final(self), text@, is_error),
    {
        self.set_message(String::from_str(text), is_error);
    }

    /// Whether `tick` found pending jobs it may start: the caller then makes
    /// sure the output directory exists and calls `start_pending_jobs`.
    pub open spec fn wants_to_start(self) -> bool {
        start_slots(self.settings.max_concurrent as nat, self.statuses()) > 0 && self.statuses().contains(
            StatusView::Pending,
        )
    }

    /// Count down the message, advance the scrolling text, and tell whether
    /// pending jobs may be started.
    pub fn tick(&mut self) -> (r: bool)
        ensures
            tick_step(*old(self), *final(self)),
            r == old(self).wants_to_start(),
    {
        if self.message_timeout > 0 {
            self.message_timeout = self.message_timeout - 1;
            if self.message_timeout == 0 {
                self.message = None;
            }
        }
        self.scroll_offset = self.scroll_offset.wrapping_add(1);
        let running = self.count_converting();
        let slots = self.settings.max_concurrent.saturating_sub(running);
        slots > 0 && self.has_pending()
    }

    /// The number of jobs converting.
    fn count_converting(&self) -> (r: usize)
        ensures
            r == count_converting(self.statuses()),
    {
        let n = self.jobs.len();
        let mut count: usize = 0;
        let mut i: usize = 0;
        let ghost st = self.statuses();
        assert(st.take(0) =~= Seq::<StatusView>::empty());
        while i < n
            invariant
                n == self.jobs@.len() == st.len(),
                st == self.statuses(),
                i <= n,
                count == count_converting(st.take(i as int)),
                count <= i,
            decreases n - i,
        {
            assert(st.take(i + 1).drop_last() =~= st.take(i as int));
            if self.jobs[i].status.is_converting() {
                count = count + 1;
            }
            i = i + 1;
        }
        assert(st.take(n as int) =~= st);
        count
    }

    /// Whether any job is pending.
    fn has_pending(&self) -> (r: bool)
        ensures
            r == self.statuses().contains(StatusView::Pending),
    {
        let n = self.jobs.len();
        let mut i: usize = 0;
        while i < n
            invariant
                n == self.jobs@.len(),
                i <= n,
                forall|j: int| 0 <= j < i ==> self.statuses()[j] != StatusView::Pending,
            decreases n - i,
        {
            if self.jobs[i].status.is_pending() {
                assert(self.statuses()[i as int] == StatusView::Pending);
                return true;
            }
            i = i + 1;
        }
        false
    }

    /// Start pending jobs up to the `max_concurrent` limit. `dir_ready` is the
    /// outcome of making sure the output directory exists; when it failed,
    /// each pending job reached fails with that error. Returns the indices of
    /// the jobs to start, which are now converting.
    pub fn start_pending_jobs(&mut self, dir_ready: &Result<(), String>) -> (started: Vec<usize>)
        ensures
            final(self).statuses() == planned_statuses(
                old(self).statuses(),
                start_slots(old(self).settings.max_concurrent as nat, old(self).statuses()),
                dir_error(*dir_ready),
            ),
            final(self).jobs@.len() == old(self).jobs@.len(),
            forall|i: int|
                0 <= i < old(self).jobs@.len() ==> {
                    &&& (#[trigger] final(self).jobs@[i]).id == old(self).jobs@[i].id
                    &&& final(self).jobs@[i].input == old(self).jobs@[i].input
                    &&& final(self).jobs@[i].output_path == old(self).jobs@[i].output_path
                    &&& final(self).jobs@[i].progress == old(self).jobs@[i].progress
                },
            *final(self) == (App { jobs: final(self).jobs, ..*old(self) }),
            forall|k: int|
                0 <= k < started@.len() ==> {
                    &&& (#[trigger] started@[k]) < old(self).jobs@.len()
                    &&& old(self).statuses()[started@[k] as int] == StatusView::Pending
                    &&& final(self).statuses()[started@[k] as int] == StatusView::Converting
                },
            forall|i: int|
                0 <= i < old(self).jobs@.len() && old(self).statuses()[i] == StatusView::Pending
                    && final(self).statuses()[i] == StatusView::Converting ==> started@.contains(
                    i as usize,
                ),
            forall|a: int, b: int| 0 <= a < b < started@.len() ==> started@[a] < started@[b],
    {
        let running = self.count_converting();
        let mut slots = self.settings.max_concurrent.saturating_sub(running);
        let ghost slots0 = slots as nat;
        let ghost old_st = self.statuses();
        let ghost old_jobs = self.jobs@;
        let ghost err = dir_error(*dir_ready);
        let mut started: Vec<usize> = Vec::new();
        let n = self.jobs.len();
        let mut i: usize = 0;
        assert(old_st.skip(0) =~= old_st);
        assert(self.statuses().take(0) =~= Seq::<StatusView>::empty());
        while i < n && slots > 0
            invariant
                n == self.jobs@.len() == old_jobs.len() == old_st.len(),
                i <= n,
                *self == (App { jobs: self.jobs, ..*old(self) }),
                old_st == old_jobs.map_values(|j: ConversionJob| j.status@),
                err == dir_error(*dir_ready),
                planned_statuses(old_st, slots0, err) == self.statuses().take(i as int)
                    + planned_statuses(old_st.skip(i as int), slots as nat, err),
                forall|j: int| i <= j < n ==> #[trigger] self.jobs@[j] == old_jobs[j],
                forall|j: int|
                    0 <= j < n ==> {
                        &&& (#[trigger] self.jobs@[j]).id == old_jobs[j].id
                        &&& self.jobs@[j].input == old_jobs[j].input
                        &&& self.jobs@[j].output_path == old_jobs[j].output_path
                        &&& self.jobs@[j].progress == old_jobs[j].progress
                    },
                forall|k: int|
                    0 <= k < started@.len() ==> {
                        &&& (#[trigger] started@[k]) < i
                        &&& old_st[started@[k] as int] == StatusView::Pending
                        &&& self.statuses()[started@[k] as int] == StatusView::Converting
                    },
                forall|j: int|
                    0 <= j < i && old_st[j] == StatusView::Pending && self.statuses()[j]
                        == StatusView::Converting ==> started@.contains(j as usize),
                forall|a: int, b: int| 0 <= a < b < started@.len() ==> started@[a] < started@[b],
            decreases n - i,
        {
            let ghost before = self.statuses();
            let ghost started_before = started@;
            assert(old_st.skip(i as int).drop_first() =~= old_st.skip(i + 1));
            assert(old_st.skip(i as int)[0] == old_st[i as int]);
            if self.jobs[i].status.is_pending() {
                match dir_ready {
                    Err(e) => {
                        let mut msg = String::from_str("Output dir error: ");
                        push_chars(&mut msg, chars_of(e.as_str()).as_slice());
                        self.jobs[i].status = JobStatus::Failed(msg);
                    },
                    Ok(()) => {
                        self.jobs[i].status = JobStatus::Converting;
                        started.push(i);
                        slots = slots - 1;
                    },
                }
            }
            assert(self.statuses().take(i + 1) =~= before.take(i as int).push(
                self.statuses()[i as int],
            ));
            assert forall|j: int|
                0 <= j < i + 1 && old_st[j] == StatusView::Pending && self.statuses()[j]
                    == StatusView::Converting implies started@.contains(j as usize) by {
                if j == i {
                    assert(started@[started@.len() - 1] == i);
                } else {
                    assert(before[j] == self.statuses()[j]);
                    assert(started_before.contains(j as usize));
                    let k = choose|k: int|
                        0 <= k < started_before.len() && started_before[k] == j as usize;
                    assert(started@[k] == j as usize);
                }
            }
            i = i + 1;
        }
        proof {
            assert(self.statuses() =~= self.statuses().take(i as int) + self.statuses().skip(
                i as int,
            ));
            assert(self.statuses().skip(i as int) =~= old_st.skip(i as int));
        }
        started
    }

    /// Process a progress update from a worker: the first job with the
    /// update's id takes the new status and progress that it carries.
    pub fn handle_progress_update(&mut self, update: ProgressUpdate)
        requires
            old(self).wf(),
        ensures
            final(self).wf(),
            match job_index(old(self).jobs@, update.job_id) {
                Some(i) => {
                    &&& final(self).jobs@ == old(self).jobs@.update(
                        i,
                        ConversionJob {
                            status: match update.status {
                                Some(s) => s,
                                None => old(self).jobs@[i].status,
                            },
                            progress: match update.progress {
                                Some(p) => p,
                                None => old(self).jobs@[i].progress,
                            },
                            ..old(self).jobs@[i]
                        },
                    )
                },
                None => final(self).jobs@ == old(self).jobs@,
            },
            *final(self) == (App { jobs: final(self).jobs, ..*old(self) }),
    {
        let ProgressUpdate { job_id, status, progress } = update;
        let ghost gs = status;
        let ghost gp = progress;
        let ghost old_jobs = self.jobs@;
        let found = find_job(&self.jobs, job_id);
        match found {
            Some(i) => {
                assert(job_index(old_jobs, job_id) == Some(i as int));
                if let Some(st) = status {
                    self.jobs[i].status = st;
                }
                if let Some(p) = progress {
                    self.jobs[i].progress = p;
                }
                assert(self.jobs@ =~= old_jobs.update(
                    i as int,
                    ConversionJob {
                        status: match gs {
                            Some(s) => s,
                            None => old_jobs[i as int].status,
                        },
                        progress: match gp {
                            Some(p) => p,
                            None => old_jobs[i as int].progress,
                        },
                        ..old_jobs[i as int]
                    },
                ));
            },
            None => {
                assert(job_index(old_jobs, job_id) is None);
            },
        }
    }
}


// ---------------------------------------------------------------------------
// Keys
// ---------------------------------------------------------------------------

/// `s` without its last character, if any.
pub open spec fn drop_last_char(s: Seq<char>) -> Seq<char> {
    if s.len() > 0 {
        s.drop_last()
    } else {
        s
    }
}

/// Characters left out of a file name being typed.
pub open spec fn forbidden_in_name(c: char) -> bool {
    c == '/' || c == '\\' || c == ':' || c == '*' || c == '?' || c == '"' || c == '<' || c == '>'
        || c == '|'
}

/// The other section.
pub open spec fn other_section(f: FocusedSection) -> FocusedSection {
    match f {
        FocusedSection::Settings => FocusedSection::JobList,
        FocusedSection::JobList => FocusedSection::Settings,
    }
}

/// The file name a job is renamed to: the typed name, trimmed, with `.gif`.
pub open spec fn renamed_file(typed: Seq<char>) -> Seq<char> {
    trim(typed) + seq!['.', 'g', 'i', 'f']
}

/// What a key does while the output directory is being typed.
pub open spec fn output_edit_step(
    old: App,
    new: App,
    key: KeyEvent,
    home: Option<Seq<char>>,
    action: AppAction,
) -> bool {
    match key.code {
        KeyCode::Enter => {
            &&& action is Nothing
            &&& new.settings.output_dir@ == expanded(old.output_input@, home)
            &&& (App {
                settings: Settings { output_dir: new.settings.output_dir, ..old.settings },
                editing_output: false,
                ..old
            }).with_message(new, "Output directory updated"@, false)
        },
        KeyCode::Esc => {
            &&& action is Nothing
            &&& new.output_input@ == collapsed(old.settings.output_dir@, home)
            &&& new == (App { editing_output: false, output_input: new.output_input, ..old })
        },
        KeyCode::Backspace => {
            &&& action is Nothing
            &&& new.output_input@ == drop_last_char(old.output_input@)
            &&& new == (App { output_input: new.output_input, ..old })
        },
        KeyCode::Tab => {
            &&& action matches AppAction::Autocomplete { input } && input@ == expanded(
                old.output_input@,
                home,
            )
            &&& new == old
        },
        KeyCode::Char(c) => {
            &&& action is Nothing
            &&& new.output_input@ == old.output_input@.push(c)
            &&& new == (App { output_input: new.output_input, ..old })
        },
        _ => action is Nothing && new == old,
    }
}

/// What a key does while a new name for the selected job's output is typed.
pub open spec fn rename_edit_step(old: App, new: App, key: KeyEvent, action: AppAction) -> bool {
    match key.code {
        KeyCode::Enter => {
            let name = trim(old.rename_input@);
            let i = old.selected_job_index as int;
            if name.len() == 0 {
                action is Nothing && old.with_message(new, "Filename cannot be empty"@, true)
            } else if i < old.jobs@.len() {
                let job = old.jobs@[i];
                let target = path_join(old.settings.output_dir@, renamed_file(old.rename_input@));
                if job.status == JobStatus::Complete {
                    &&& action matches AppAction::RenameFile { from, to } && from@
                        == job.output_path@ && to@ == target
                    &&& new == old
                } else {
                    &&& action is Nothing
                    &&& new.jobs@ == old.jobs@.update(
                        i,
                        ConversionJob { output_path: new.jobs@[i].output_path, ..job },
                    )
                    &&& new.jobs@[i].output_path@ == target
                    &&& (App { jobs: new.jobs, editing_rename: false, ..old }).with_message(
                        new,
                        "Renamed"@,
                        false,
                    )
                }
            } else {
                action is Nothing && (App { editing_rename: false, ..old }).with_message(
                    new,
                    "Renamed"@,
                    false,
                )
            }
        },
        KeyCode::Esc => action is Nothing && new == (App { editing_rename: false, ..old }),
        KeyCode::Backspace => {
            &&& action is Nothing
            &&& new.rename_input@ == drop_last_char(old.rename_input@)
            &&& new == (App { rename_input: new.rename_input, ..old })
        },
        KeyCode::Char(c) => {
            &&& action is Nothing
            &&& if forbidden_in_name(c) {
                new == old
            } else {
                new.rename_input@ == old.rename_input@.push(c) && new == (App {
                    rename_input: new.rename_input,
                    ..old
                })
            }
        },
        _ => action is Nothing && new == old,
    }
}

/// What stepping the selected setting forward (`up`) or back does.
pub open spec fn adjust_step(old: App, new: App, up: bool, home: Option<Seq<char>>) -> bool {
    let s = old.settings;
    match old.selected_setting {
        SettingsField::Scale => new == (App {
            settings: Settings {
                scale: if up {
                    s.scale.succ()
                } else {
                    s.scale.pred()
                },
                ..s
            },
            ..old
        }),
        SettingsField::Fps => new == (App {
            settings: Settings {
                fps: if up {
                    s.fps.succ()
                } else {
                    s.fps.pred()
                },
                ..s
            },
            ..old
        }),
        SettingsField::Quality => new == (App {
            settings: Settings {
                quality: if up {
                    s.quality.succ()
                } else {
                    s.quality.pred()
                },
                ..s
            },
            ..old
        }),
        SettingsField::Loop => new == (App {
            settings: Settings {
                loop_count: if up {
                    s.loop_count.succ()
                } else {
                    s.loop_count.pred()
                },
                ..s
            },
            ..old
        }),
        SettingsField::OutputDir => {
            &&& new.settings.output_dir@ == (if up {
                next_dir(s.output_dir@, home)
            } else {
                prev_dir(s.output_dir@, home)
            })
            &&& new.output_input@ == collapsed(new.settings.output_dir@, home)
            &&& new == (App {
                settings: Settings { output_dir: new.settings.output_dir, ..s },
                output_input: new.output_input,
                ..old
            })
        },
    }
}

/// What a navigation key does in the settings section.
pub open spec fn settings_key_step(old: App, new: App, key: KeyEvent, home: Option<Seq<char>>) -> bool {
    if down_key(key) {
        new == (App { selected_setting: old.selected_setting.succ(), ..old })
    } else if up_key(key) {
        new == (App { selected_setting: old.selected_setting.pred(), ..old })
    } else if right_key(key) {
        adjust_step(old, new, true, home)
    } else if left_key(key) {
        adjust_step(old, new, false, home)
    } else {
        new == old
    }
}

/// What a navigation key does in the job list: move the selection, wrapping
/// around, and restart the scrolling text.
pub open spec fn job_list_key_step(old: App, new: App, key: KeyEvent) -> bool {
    let n = old.jobs@.len();
    let i = old.selected_job_index;
    if down_key(key) && n > 0 {
        new == (App { selected_job_index: ((i + 1) % (n as int)) as usize, scroll_offset: 0, ..old })
    } else if up_key(key) && n > 0 {
        new == (App {
            selected_job_index: if i == 0 {
                (n - 1) as usize
            } else {
                (i - 1) as usize
            },
            scroll_offset: 0,
            ..old
        })
    } else {
        new == old
    }
}

/// What a key does when no text is being typed.
pub open spec fn command_step(
    old: App,
    new: App,
    key: KeyEvent,
    home: Option<Seq<char>>,
    action: AppAction,
) -> bool {
    let i = old.selected_job_index as int;
    let has_job = i < old.jobs@.len();
    if quit_key(key) {
        action is Nothing && new == (App { should_quit: true, ..old })
    } else if paste_key(key) || key.code == KeyCode::Char('p') {
        action is Paste && new == old
    } else if key.code == KeyCode::Tab || key.code == KeyCode::BackTab {
        action is Nothing && new == (App { focused_section: other_section(old.focused_section), ..old })
    } else if key.code == KeyCode::Char('y') {
        if !has_job {
            action is Nothing && new == old
        } else if old.jobs@[i].status == JobStatus::Complete {
            &&& action matches AppAction::Copy { path } && path@ == old.jobs@[i].output_path@
            &&& new == old
        } else {
            action is Nothing && old.with_message(new, "Can only copy completed jobs"@, true)
        }
    } else if key.code == KeyCode::Char('x') {
        if old.jobs@.len() == 0 {
            action is Nothing && new == old
        } else {
            action matches AppAction::DeleteJob { index } && index == old.selected_job_index
                && new == old
        }
    } else if key.code == KeyCode::Char('r') {
        &&& action is Nothing
        &&& if !has_job {
            new == old
        } else if old.jobs@[i].status != JobStatus::Pending && old.jobs@[i].status
            != JobStatus::Complete {
            old.with_message(new, "Can only rename pending or completed jobs"@, true)
        } else {
            &&& new.rename_input@ == (match file_stem(old.jobs@[i].output_path@) {
                Some(st) => st,
                None => "output"@,
            })
            &&& new == (App { rename_input: new.rename_input, editing_rename: true, ..old })
        }
    } else if key.code == KeyCode::Enter {
        &&& action is Nothing
        &&& if old.focused_section == FocusedSection::Settings && old.selected_setting
            == SettingsField::OutputDir {
            &&& new.output_input@ == collapsed(old.settings.output_dir@, home)
            &&& new == (App { editing_output: true, output_input: new.output_input, ..old })
        } else {
            new == old
        }
    } else {
        &&& action is Nothing
        &&& match old.focused_section {
            FocusedSection::Settings => settings_key_step(old, new, key, home),
            FocusedSection::JobList => job_list_key_step(old, new, key),
        }
    }
}

/// What a key press does: `new` is the state after it and `action` the work
/// it asks of the caller.
pub open spec fn key_step(
    old: App,
    new: App,
    key: KeyEvent,
    home: Option<Seq<char>>,
    action: AppAction,
) -> bool {
    if old.editing_output {
        output_edit_step(old, new, key, home, action)
    } else if old.editing_rename {
        rename_edit_step(old, new, key, action)
    } else {
        command_step(old, new, key, home, action)
    }
}

/// The key steps the loop count back from `Count(0)`, which would underflow.
pub open spec fn loop_underflow(app: App, key: KeyEvent) -> bool {
    &&& !app.editing_output
    &&& !app.editing_rename
    &&& app.focused_section == FocusedSection::Settings
    &&& app.selected_setting == SettingsField::Loop
    &&& app.settings.loop_count == LoopCount::Count(0)
    &&& left_key(key)
}

impl App {
    /// Whether handling `key` would step the loop count back from `Count(0)`.
    pub fn would_underflow(&self, key: &KeyEvent) -> (r: bool)
        ensures
            r == loop_underflow(*self, *key),
    {
        !self.editing_output && !self.editing_rename && self.focused_section
            == FocusedSection::Settings && self.selected_setting == SettingsField::Loop
            && self.settings.loop_count == LoopCount::Count(0) && is_left_key(key)
    }

    /// Handle a key, with `~` read against `home`.
    pub fn handle_key_with_home(&mut self, key: &KeyEvent, home: &Option<String>) -> (action: AppAction)
        requires
            old(self).wf(),
            !loop_underflow(*old(self), *key),
        ensures
            final(self).wf(),
            key_step(*old(self), *final(self), *key, home.deep_view(), action),
    {
        if self.editing_output {
            return self.handle_output_input(key, home);
        }
        if self.editing_rename {
            return self.handle_rename_input(key);
        }
        if is_quit_key(key) {
            self.should_quit = true;
            return AppAction::Nothing;
        }
        if is_paste_key(key) || key.code == KeyCode::Char('p') {
            return AppAction::Paste;
        }
        match key.code {
            KeyCode::Tab | KeyCode::BackTab => {
                self.focused_section = match self.focused_section {
                    FocusedSection::Settings => FocusedSection::JobList,
                    FocusedSection::JobList => FocusedSection::Settings,
                };
                AppAction::Nothing
            },
            KeyCode::Char('y') => self.copy_selected_output(),
            KeyCode::Char('x') => {
                if self.jobs.len() == 0 {
                    AppAction::Nothing
                } else {
                    AppAction::DeleteJob { index: self.selected_job_index }
                }
            },
            KeyCode::Char('r') => {
                self.start_rename();
                AppAction::Nothing
            },
            KeyCode::Enter => {
                if self.focused_section == FocusedSection::Settings && self.selected_setting
                    == SettingsField::OutputDir {
                    self.editing_output = true;
                    self.output_input = self.settings.output_dir_display_with(home);
                }
                AppAction::Nothing
            },
            _ => {
                match self.focused_section {
                    FocusedSection::Settings => self.handle_settings_key(key, home),
                    FocusedSection::JobList => self.handle_job_list_key(key),
                }
                AppAction::Nothing
            },
        }
    }

    /// Handle key events
    pub fn handle_key(&mut self, key: &KeyEvent) -> (action: AppAction)
        requires
            old(self).wf(),
            !loop_underflow(*old(self), *key),
        ensures
            final(self).wf(),
            exists|home: Option<Seq<char>>| key_step(*old(self), *final(self), *key, home, action),
    {
        let home = home_dir();
        self.handle_key_with_home(key, &home)
    }

    fn handle_output_input(&mut self, key: &KeyEvent, home: &Option<String>) -> (action: AppAction)
        requires
            old(self).wf(),
        ensures
            final(self).wf(),
            output_edit_step(*old(self), *final(self), *key, home.deep_view(), action),
    {
        match key.code {
            KeyCode::Enter => {
                let path = expand_tilde_with(self.output_input.as_str(), home);
                self.settings.output_dir = path;
                self.editing_output = false;
                self.say("Output directory updated", false);
                AppAction::Nothing
            },
            KeyCode::Esc => {
                self.editing_output = false;
                self.output_input = self.settings.output_dir_display_with(home);
                AppAction::Nothing
            },
            KeyCode::Backspace => {
                pop_char(&mut self.output_input);
                AppAction::Nothing
            },
            KeyCode::Tab => AppAction::Autocomplete {
                input: expand_tilde_with(self.output_input.as_str(), home),
            },
            KeyCode::Char(c) => {
                push_char(&mut self.output_input, c);
                AppAction::Nothing
            },
            _ => AppAction::Nothing,
        }
    }

    fn start_rename(&mut self)
        requires
            old(self).wf(),
            !old(self).editing_output,
            !old(self).editing_rename,
        ensures
            final(self).wf(),
            command_step(
                *old(self),
                *final(self),
                KeyEvent { code: KeyCode::Char('r'), modifiers: crate::event::no_modifiers() },
                None,
                AppAction::Nothing,
            ),
    {
        let i = self.selected_job_index;
        if i < self.jobs.len() {
            let st = &self.jobs[i].status;
            if !(st.is_pending() || st.is_complete()) {
                self.say("Can only rename pending or completed jobs", true);
                return;
            }
            let stem = match path_file_stem(self.jobs[i].output_path.as_str()) {
                Some(s) => s,
                None => {
                    proof {
                        reveal_strlit("output");
                    }
                    String::from_str("output")
                },
            };
            self.rename_input = stem;
            self.editing_rename = true;
        }
    }

    fn handle_rename_input(&mut self, key: &KeyEvent) -> (action: AppAction)
        requires
            old(self).wf(),
        ensures
            final(self).wf(),
            rename_edit_step(*old(self), *final(self), *key, action),
    {
        match key.code {
            KeyCode::Enter => {
                let name = trim_chars(chars_of(self.rename_input.as_str()).as_slice());
                if name.len() == 0 {
                    self.say("Filename cannot be empty", true);
                    return AppAction::Nothing;
                }
                let i = self.selected_job_index;
                if i < self.jobs.len() {
                    let mut file = string_of(name.as_slice());
                    push_char(&mut file, '.');
                    push_char(&mut file, 'g');
                    push_char(&mut file, 'i');
                    push_char(&mut file, 'f');
                    assert(file@ =~= renamed_file(self.rename_input@));
                    let new_path = join_path(self.settings.output_dir.as_str(), file.as_str());
                    if self.jobs[i].status.is_complete() {
                        return AppAction::RenameFile {
                            from: self.jobs[i].output_path.clone(),
                            to: new_path,
                        };
                    }
                    let ghost before = self.jobs@;
                    self.jobs[i].output_path = new_path;
                    assert(self.jobs@ =~= before.update(
                        i as int,
                        ConversionJob { output_path: self.jobs@[i as int].output_path, ..before[i as int] },
                    ));
                }
                self.editing_rename = false;
                self.say("Renamed", false);
                AppAction::Nothing
            },
            KeyCode::Esc => {
                self.editing_rename = false;
                AppAction::Nothing
            },
            KeyCode::Backspace => {
                pop_char(&mut self.rename_input);
                AppAction::Nothing
            },
            KeyCode::Char(c) => {
                if !(c == '/' || c == '\\' || c == ':' || c == '*' || c == '?' || c == '"' || c
                    == '<' || c == '>' || c == '|') {
                    push_char(&mut self.rename_input, c);
                }
                AppAction::Nothing
            },
            _ => AppAction::Nothing,
        }
    }

    fn handle_settings_key(&mut self, key: &KeyEvent, home: &Option<String>)
        requires
            old(self).wf(),
            !(old(self).selected_setting == SettingsField::Loop && old(self).settings.loop_count
                == LoopCount::Count(0) && left_key(*key)),
        ensures
            final(self).wf(),
            settings_key_step(*old(self), *final(self), *key, home.deep_view()),
    {
        if is_down_key(key) {
            self.selected_setting = self.selected_setting.next();
        } else if is_up_key(key) {
            self.selected_setting = self.selected_setting.prev();
        } else if is_right_key(key) {
            self.adjust_setting(true, home);
        } else if is_left_key(key) {
            self.adjust_setting(false, home);
        }
    }

    fn handle_job_list_key(&mut self, key: &KeyEvent)
        requires
            old(self).wf(),
        ensures
            final(self).wf(),
            job_list_key_step(*old(self), *final(self), *key),
    {
        let n = self.jobs.len();
        if is_down_key(key) && n > 0 {
            self.selected_job_index = (self.selected_job_index + 1) % n;
            self.scroll_offset = 0;
        } else if is_up_key(key) && n > 0 {
            self.selected_job_index = if self.selected_job_index == 0 {
                n - 1
            } else {
                self.selected_job_index - 1
            };
            self.scroll_offset = 0;
        }
    }

    fn adjust_setting(&mut self, increment: bool, home: &Option<String>)
        requires
            old(self).wf(),
            !increment ==> !(old(self).selected_setting == SettingsField::Loop
                && old(self).settings.loop_count == LoopCount::Count(0)),
        ensures
            final(self).wf(),
            adjust_step(*old(self), *final(self), increment, home.deep_view()),
    {
        match self.selected_setting {
            SettingsField::Scale => {
                self.settings.scale = if increment {
                    self.settings.scale.next()
                } else {
                    self.settings.scale.prev()
                };
            },
            SettingsField::Fps => {
                self.settings.fps = if increment {
                    self.settings.fps.next()
                } else {
                    self.settings.fps.prev()
                };
            },
            SettingsField::Quality => {
                self.settings.quality = if increment {
                    self.settings.quality.next()
                } else {
                    self.settings.quality.prev()
                };
            },
            SettingsField::Loop => {
                self.settings.loop_count = if increment {
                    self.settings.loop_count.next()
                } else {
                    self.settings.loop_count.prev()
                };
            },
            SettingsField::OutputDir => {
                if increment {
                    self.settings.next_output_dir_with(home);
                } else {
                    self.settings.prev_output_dir_with(home);
                }
                self.output_input = self.settings.output_dir_display_with(home);
            },
        }
    }

    fn copy_selected_output(&mut self) -> (action: AppAction)
        requires
            old(self).wf(),
            !old(self).editing_output,
            !old(self).editing_rename,
        ensures
            final(self).wf(),
            command_step(
                *old(self),
                *final(self),
                KeyEvent { code: KeyCode::Char('y'), modifiers: crate::event::no_modifiers() },
                None,
                action,
            ),
    {
        let i = self.selected_job_index;
        if i < self.jobs.len() {
            if self.jobs[i].status.is_complete() {
                AppAction::Copy { path: self.jobs[i].output_path.clone() }
            } else {
                self.say("Can only copy completed jobs", true);
                AppAction::Nothing
            }
        } else {
            AppAction::Nothing
        }
    }
}


// ---------------------------------------------------------------------------
// Outcomes of the caller's work
// ---------------------------------------------------------------------------

/// A video taken from the clipboard, ready to be queued: where it comes from,
/// the canonical form of its path when the file system could produce one, and
/// its output path.
pub struct PastedInput {
    pub input: InputSource,
    pub canonical: Option<String>,
    pub output_path: String,
}

/// The key under which an item of a paste is detected as a duplicate: its
/// input's `dedup_key` with the canonical path it carries.
pub open spec fn pasted_key(p: PastedInput) -> Seq<char> {
    p.input.key(p.canonical.deep_view())
}

/// `p` is queued as the job `job`: same input and output, pending, no progress.
pub open spec fn queued_as(job: ConversionJob, p: PastedInput) -> bool {
    &&& job.input == p.input
    &&& job.output_path == p.output_path
    &&& job.status == JobStatus::Pending
    &&& job.progress.is_empty()
}

/// Item `i` of a paste is queued: its key is neither queued already nor held
/// by an earlier item.
pub open spec fn accepted(done: Set<Seq<char>>, keys: Seq<Seq<char>>, i: int) -> bool {
    &&& !done.contains(keys[i])
    &&& forall|j: int| 0 <= j < i ==> keys[j] != keys[i]
}

/// The indices of the first `n` items of a paste that are queued, in order.
pub open spec fn accepted_upto(done: Set<Seq<char>>, keys: Seq<Seq<char>>, n: int) -> Seq<int>
    decreases n,
{
    if n <= 0 {
        Seq::empty()
    } else if accepted(done, keys, n - 1) {
        accepted_upto(done, keys, n - 1).push(n - 1)
    } else {
        accepted_upto(done, keys, n - 1)
    }
}

/// The keys of the items of a paste.
pub open spec fn paste_keys(items: Seq<PastedInput>) -> Seq<Seq<char>> {
    items.map_values(|p: PastedInput| pasted_key(p))
}

/// The message shown after pasting files: how many were queued and how many
/// were already queued.
pub open spec fn paste_files_message(added: nat, skipped: nat) -> Option<(Seq<char>, bool)> {
    if added > 0 && skipped > 0 {
        Some(("Added "@ + decimal(added) + " video(s), "@ + decimal(skipped) + " skipped (duplicate)"@, false))
    } else if added > 0 {
        Some(("Added "@ + decimal(added) + " video(s) to queue"@, false))
    } else if skipped > 0 {
        Some((decimal(skipped) + " video(s) already in queue"@, true))
    } else {
        None
    }
}

/// The stem of the output file for `input`: its own stem, or `video-` and
/// the time in seconds when it has none.
pub open spec fn output_stem(input: InputSource, timestamp: u64) -> Seq<char> {
    match input.stem() {
        Some(st) => st,
        None => "video-"@ + decimal(timestamp as nat),
    }
}

/// The output path tried at attempt `counter`: `stem.gif` first, then
/// `stem_1.gif`, `stem_2.gif`, ... in the output directory.
pub open spec fn output_candidate(dir: Seq<char>, stem: Seq<char>, counter: nat) -> Seq<char> {
    if counter == 0 {
        path_join(dir, stem + seq!['.', 'g', 'i', 'f'])
    } else {
        path_join(dir, stem + seq!['_'] + decimal(counter) + seq!['.', 'g', 'i', 'f'])
    }
}

proof fn lemma_to_set_push(s: Seq<Seq<char>>, x: Seq<char>)
    ensures
        s.push(x).to_set() == s.to_set().insert(x),
{
    assert forall|y: Seq<char>| s.push(x).to_set().contains(y) <==> s.to_set().insert(x).contains(
        y,
    ) by {
        if s.push(x).contains(y) && y != x {
            let k = choose|k: int| 0 <= k < s.push(x).len() && s.push(x)[k] == y;
            assert(s[k] == y);
        }
        if s.contains(y) {
            let k = choose|k: int| 0 <= k < s.len() && s[k] == y;
            assert(s.push(x)[k] == y);
        }
        if y == x {
            assert(s.push(x)[s.len() as int] == y);
        }
    }
    assert(s.push(x).to_set() =~= s.to_set().insert(x));
}

proof fn lemma_remove_unique(s: Seq<Seq<char>>, p: int)
    requires
        s.no_duplicates(),
        0 <= p < s.len(),
    ensures
        s.remove(p).no_duplicates(),
        s.remove(p).to_set() == s.to_set().remove(s[p]),
{
    let r = s.remove(p);
    assert forall|i: int, j: int| 0 <= i < r.len() && 0 <= j < r.len() && i != j implies r[i]
        != r[j] by {
        let si = if i < p { i } else { i + 1 };
        let sj = if j < p { j } else { j + 1 };
        assert(r[i] == s[si] && r[j] == s[sj]);
    }
    assert forall|x: Seq<char>| r.to_set().contains(x) <==> s.to_set().remove(s[p]).contains(x) by {
        if r.contains(x) {
            let i = choose|i: int| 0 <= i < r.len() && r[i] == x;
            let si = if i < p { i } else { i + 1 };
            assert(s[si] == x);
        }
        if s.contains(x) && x != s[p] {
            let k = choose|k: int| 0 <= k < s.len() && s[k] == x;
            let rk = if k < p { k } else { k - 1 };
            assert(r[rk] == x);
        }
    }
    assert(r.to_set() =~= s.to_set().remove(s[p]));
}

/// The position of `key` among `keys`, if it is there.
fn position_of(keys: &Vec<String>, key: &String) -> (r: Option<usize>)
    ensures
        r matches Some(p) ==> p < keys@.len() && keys@[p as int]@ == key@,
        r is None ==> !keys.deep_view().contains(key@),
{
    let n = keys.len();
    let mut i: usize = 0;
    while i < n
        invariant
            n == keys@.len(),
            i <= n,
            forall|j: int| 0 <= j < i ==> keys@[j]@ != key@,
        decreases n - i,
    {
        if keys[i] == *key {
            return Some(i);
        }
        i = i + 1;
    }
    assert(!keys.deep_view().contains(key@)) by {
        if keys.deep_view().contains(key@) {
            let k = choose|k: int| 0 <= k < n && keys.deep_view()[k] == key@;
            assert(keys@[k]@ == key@);
        }
    }
    None
}

impl App {
    /// Record `key` as queued.
    fn record_input(&mut self, key: String)
        requires
            old(self).processed_inputs.deep_view().no_duplicates(),
            !old(self).processed().contains(key@),
        ensures
            final(self).processed_inputs.deep_view().no_duplicates(),
            final(self).processed() == old(self).processed().insert(key@),
            *final(self) == (App { processed_inputs: final(self).processed_inputs, ..*old(self) }),
    {
        let ghost before = self.processed_inputs.deep_view();
        self.processed_inputs.push(key);
        assert(self.processed_inputs.deep_view() =~= before.push(key@));
        assert(self.processed().contains(key@)) by {
            assert(self.processed_inputs.deep_view()[before.len() as int] == key@);
        }
        assert(self.processed() =~= old(self).processed().insert(key@)) by {
            assert forall|x: Seq<char>| self.processed().contains(x) implies old(self).processed().insert(
                key@,
            ).contains(x) by {
                let k = choose|k: int|
                    0 <= k < self.processed_inputs.deep_view().len()
                        && self.processed_inputs.deep_view()[k] == x;
                if k < before.len() {
                    assert(before[k] == x);
                }
            }
            assert forall|x: Seq<char>| old(self).processed().contains(x) implies self.processed().contains(
                x,
            ) by {
                let k = choose|k: int| 0 <= k < before.len() && before[k] == x;
                assert(self.processed_inputs.deep_view()[k] == x);
            }
        }
    }

    /// Delete the selected job, after the caller has signalled its conversion to
    /// stop. `canonical` is the canonical form of its input's path, when the file
    /// system could produce one.
    pub fn delete_job(&mut self, canonical: &Option<String>)
        requires
            old(self).wf(),
            old(self).jobs@.len() > 0,
        ensures
            final(self).wf(),
            final(self).jobs@ == old(self).jobs@.remove(old(self).selected_job_index as int),
            final(self).processed() == old(self).processed().remove(
                old(self).jobs@[old(self).selected_job_index as int].input.key(
                    canonical.deep_view(),
                ),
            ),
            final(self).selected_job_index == (if old(self).selected_job_index
                >= final(self).jobs@.len() && final(self).jobs@.len() > 0 {
                (final(self).jobs@.len() - 1) as usize
            } else {
                old(self).selected_job_index
            }),
            (App {
                jobs: final(self).jobs,
                processed_inputs: final(self).processed_inputs,
                selected_job_index: final(self).selected_job_index,
                ..*old(self)
            }).with_message(*final(self), "Job deleted"@, false),
    {
        let index = self.selected_job_index;
        let key = self.jobs[index].input.dedup_key(canonical);
        match position_of(&self.processed_inputs, &key) {
            Some(p) => {
                let ghost before = self.processed_inputs.deep_view();
                proof {
                    lemma_remove_unique(before, p as int);
                }
                self.processed_inputs.remove(p);
                assert(self.processed_inputs.deep_view() =~= before.remove(p as int));
            },
            None => {
                assert(self.processed() =~= old(self).processed().remove(key@));
            },
        }
        self.jobs.remove(index);
        if self.selected_job_index >= self.jobs.len() && self.jobs.len() > 0 {
            self.selected_job_index = self.jobs.len() - 1;
        }
        self.say("Job deleted", false);
    }

    /// The outcome of putting the selected job's output on the clipboard.
    pub fn finish_copy(&mut self, result: Result<(), String>)
        requires
            old(self).wf(),
            old(self).selected_job_index < old(self).jobs@.len(),
        ensures
            final(self).wf(),
            match result {
                Ok(()) => old(self).with_message(
                    *final(self),
                    "Copied: "@ + old(self).jobs@[old(self).selected_job_index as int].output_file_text(),
                    false,
                ),
                Err(e) => old(self).with_message(*final(self), "Copy failed: "@ + e@, true),
            },
    {
        match result {
            Ok(()) => {
                let mut m = String::from_str("Copied: ");
                let f = self.jobs[self.selected_job_index].output_filename();
                push_chars(&mut m, chars_of(f.as_str()).as_slice());
                self.set_message(m, false);
            },
            Err(e) => {
                let mut m = String::from_str("Copy failed: ");
                push_chars(&mut m, chars_of(e.as_str()).as_slice());
                self.set_message(m, true);
            },
        }
    }

    /// The outcome of renaming the selected job's output file on disk to `to`.
    pub fn finish_rename(&mut self, to: String, result: Result<(), String>)
        requires
            old(self).wf(),
            old(self).selected_job_index < old(self).jobs@.len(),
        ensures
            final(self).wf(),
            match result {
                Err(e) => (App { editing_rename: false, ..*old(self) }).with_message(
                    *final(self),
                    "Rename failed: "@ + e@,
                    true,
                ),
                Ok(()) => {
                    let i = old(self).selected_job_index as int;
                    &&& final(self).jobs@ == old(self).jobs@.update(
                        i,
                        ConversionJob { output_path: to, ..old(self).jobs@[i] },
                    )
                    &&& (App { jobs: final(self).jobs, editing_rename: false, ..*old(self) }).with_message(
                        *final(self),
                        "Renamed"@,
                        false,
                    )
                },
            },
    {
        match result {
            Err(e) => {
                let mut m = String::from_str("Rename failed: ");
                push_chars(&mut m, chars_of(e.as_str()).as_slice());
                self.set_message(m, true);
                self.editing_rename = false;
            },
            Ok(()) => {
                let i = self.selected_job_index;
                let ghost before = self.jobs@;
                let ghost gto = to;
                self.jobs[i].output_path = to;
                assert(self.jobs@ =~= before.update(
                    i as int,
                    ConversionJob { output_path: gto, ..before[i as int] },
                ));
                self.editing_rename = false;
                self.say("Renamed", false);
            },
        }
    }

    /// Queue the videos taken from the clipboard, in order, leaving out those
    /// already queued, and tell how many were added and skipped.
    pub fn add_pasted_files(&mut self, items: Vec<PastedInput>)
        requires
            old(self).wf(),
        ensures
            final(self).wf(),
            ({
                let keys = paste_keys(items@);
                let acc = accepted_upto(old(self).processed(), keys, items@.len() as int);
                let n0 = old(self).jobs@.len();
                &&& final(self).jobs@.len() == n0 + acc.len()
                &&& final(self).jobs@.take(n0 as int) == old(self).jobs@
                &&& forall|m: int|
                    0 <= m < acc.len() ==> queued_as(
                        #[trigger] final(self).jobs@[n0 + m],
                        items@[acc[m]],
                    )
                &&& final(self).processed() == old(self).processed() + keys.to_set()
                &&& match paste_files_message(acc.len(), (items@.len() - acc.len()) as nat) {
                    Some((text, err)) => (App {
                        jobs: final(self).jobs,
                        processed_inputs: final(self).processed_inputs,
                        ..*old(self)
                    }).with_message(*final(self), text, err),
                    None => *final(self) == (App {
                        jobs: final(self).jobs,
                        processed_inputs: final(self).processed_inputs,
                        ..*old(self)
                    }),
                }
            }),
    {
        let ghost keys = paste_keys(items@);
        let ghost done = old(self).processed();
        let ghost all = items@;
        let ghost n0 = self.jobs@.len();
        let mut added: usize = 0;
        let mut skipped: usize = 0;
        let n = items.len();
        assert(keys.take(0).to_set() =~= Set::<Seq<char>>::empty());
        assert(done + keys.take(0).to_set() =~= done);
        assert(self.jobs@.take(n0 as int) =~= self.jobs@);
        for item in it: items.into_iter()
            invariant
                n == all.len(),
                keys == paste_keys(all),
                done == old(self).processed(),
                n0 == old(self).jobs@.len(),
                it.seq() == all,
                self.wf(),
                self.processed() == done + keys.take(it.index() as int).to_set(),
                added as int == accepted_upto(done, keys, it.index() as int).len(),
                added + skipped == it.index(),
                self.jobs@.len() == n0 + added,
                self.jobs@.take(n0 as int) == old(self).jobs@,
                forall|m: int|
                    0 <= m < added ==> queued_as(
                        #[trigger] self.jobs@[n0 + m],
                        all[accepted_upto(done, keys, it.index() as int)[m]],
                    ),
                *self == (App {
                    jobs: self.jobs,
                    processed_inputs: self.processed_inputs,
                    ..*old(self)
                }),
        {
            let ghost i = it.index() as int;
            let ghost prev_acc = accepted_upto(done, keys, i);
            let ghost jobs_before = self.jobs@;
            let key = item.input.dedup_key(&item.canonical);
            assert(keys[i] == key@);
            assert(keys.take(i + 1) =~= keys.take(i).push(keys[i]));
            proof {
                lemma_to_set_push(keys.take(i), keys[i]);
            }
            let seen = match position_of(&self.processed_inputs, &key) {
                Some(_) => true,
                None => false,
            };
            proof {
                // `seen` holds exactly when the item is not accepted
                if accepted(done, keys, i) {
                    assert(!keys.take(i).to_set().contains(keys[i])) by {
                        if keys.take(i).contains(keys[i]) {
                            let j = choose|j: int| 0 <= j < i && keys.take(i)[j] == keys[i];
                            assert(keys[j] == keys[i]);
                        }
                    }
                    assert(!self.processed().contains(keys[i]));
                } else {
                    if !done.contains(keys[i]) {
                        let j = choose|j: int| 0 <= j < i && keys[j] == keys[i];
                        assert(keys.take(i)[j] == keys[i]);
                        assert(keys.take(i).to_set().contains(keys[i]));
                    }
                    assert(self.processed().contains(keys[i]));
                }
                if seen {
                    assert(self.processed().contains(key@)) by {
                        let p = choose|p: int|
                            0 <= p < self.processed_inputs@.len() && self.processed_inputs@[p]@
                                == key@;
                        assert(self.processed_inputs.deep_view()[p] == key@);
                    }
                }
            }
            if seen {
                skipped = skipped + 1;
                assert(accepted_upto(done, keys, i + 1) == prev_acc);
            } else {
                let PastedInput { input, canonical: _, output_path } = item;
                let job = ConversionJob::new(input, output_path);
                self.jobs.push(job);
                self.record_input(key);
                added = added + 1;
                assert(accepted_upto(done, keys, i + 1) == prev_acc.push(i));
                assert(self.jobs@.take(n0 as int) =~= jobs_before.take(n0 as int));
                assert forall|m: int| 0 <= m < added implies queued_as(
                    #[trigger] self.jobs@[n0 + m],
                    all[accepted_upto(done, keys, i + 1)[m]],
                ) by {
                    if m < added - 1 {
                        assert(self.jobs@[n0 + m] == jobs_before[n0 + m]);
                    }
                }
            }
            assert(done + keys.take(i + 1).to_set() =~= (done + keys.take(i).to_set()).insert(
                keys[i],
            ));
        }
        assert(keys.take(n as int) =~= keys);
        if added > 0 && skipped > 0 {
            let mut m = String::from_str("Added ");
            push_decimal(&mut m, added as u64);
            m.append(" video(s), ");
            push_decimal(&mut m, skipped as u64);
            m.append(" skipped (duplicate)");
            self.set_message(m, false);
        } else if added > 0 {
            let mut m = String::from_str("Added ");
            push_decimal(&mut m, added as u64);
            m.append(" video(s) to queue");
            self.set_message(m, false);
        } else if skipped > 0 {
            let mut m = String::new();
            push_decimal(&mut m, skipped as u64);
            m.append(" video(s) already in queue");
            self.set_message(m, true);
        }
    }

    /// The outcome of looking for a video URL on the clipboard, after no video
    /// file was found there: the URL to queue, with its key and output path;
    /// none; or the error met reading the clipboard.
    pub fn finish_paste_url(&mut self, outcome: Result<Option<PastedInput>, String>)
        requires
            old(self).wf(),
        ensures
            final(self).wf(),
            match outcome {
                Err(e) => old(self).with_message(*final(self), "Clipboard: "@ + e@, true),
                Ok(None) => old(self).with_message(
                    *final(self),
                    "No video file or URL in clipboard"@,
                    true,
                ),
                Ok(Some(p)) => if old(self).processed().contains(pasted_key(p)) {
                    old(self).with_message(*final(self), "URL already in queue"@, true)
                } else {
                    &&& final(self).jobs@.len() == old(self).jobs@.len() + 1
                    &&& final(self).jobs@.drop_last() == old(self).jobs@
                    &&& queued_as(final(self).jobs@.last(), p)
                    &&& final(self).processed() == old(self).processed().insert(pasted_key(p))
                    &&& (App {
                        jobs: final(self).jobs,
                        processed_inputs: final(self).processed_inputs,
                        ..*old(self)
                    }).with_message(*final(self), "Added URL to queue"@, false)
                },
            },
    {
        match outcome {
            Err(e) => {
                let mut m = String::from_str("Clipboard: ");
                push_chars(&mut m, chars_of(e.as_str()).as_slice());
                self.set_message(m, true);
            },
            Ok(None) => {
                self.say("No video file or URL in clipboard", true);
            },
            Ok(Some(item)) => {
                let ghost gitem = item;
                let key = item.input.dedup_key(&item.canonical);
                match position_of(&self.processed_inputs, &key) {
                    Some(p) => {
                        assert(self.processed_inputs.deep_view()[p as int] == key@);
                        self.say("URL already in queue", true);
                    },
                    None => {
                        let PastedInput { input, canonical: _, output_path } = item;
                        let ghost before = self.jobs@;
                        let job = ConversionJob::new(input, output_path);
                        self.jobs.push(job);
                        assert(self.jobs@.drop_last() =~= before);
                        self.record_input(key);
                        self.say("Added URL to queue", false);
                    },
                }
            },
        }
    }

    /// The stem of the output file for `input`; `timestamp` is the current
    /// time in seconds, used when the input has no stem.
    pub fn output_stem(input: &InputSource, timestamp: u64) -> (r: String)
        ensures
            r@ == output_stem(*input, timestamp),
    {
        match input.file_stem() {
            Some(st) => st,
            None => {
                let mut r = String::from_str("video-");
                push_decimal(&mut r, timestamp);
                r
            },
        }
    }

    /// The output path to try at attempt `counter` (the caller tries 0, 1,
    /// 2, ... until a path is free).
    pub fn output_path_candidate(&self, stem: &str, counter: u64) -> (r: String)
        ensures
            r@ == output_candidate(self.settings.output_dir@, stem@, counter as nat),
    {
        let mut file = String::from_str(stem);
        if counter > 0 {
            push_char(&mut file, '_');
            push_decimal(&mut file, counter);
        }
        push_char(&mut file, '.');
        push_char(&mut file, 'g');
        push_char(&mut file, 'i');
        push_char(&mut file, 'f');
        proof {
            if counter == 0 {
                assert(file@ =~= stem@ + seq!['.', 'g', 'i', 'f']);
            } else {
                assert(file@ =~= stem@ + seq!['_'] + decimal(counter as nat) + seq!['.', 'g', 'i', 'f']);
            }
        }
        join_path(self.settings.output_dir.as_str(), file.as_str())
    }
}

/// What the search for a free output path does next.
#[derive(Debug)]
pub enum NameSearch {
    /// Use this path: nothing is there yet
    Use(String),
    /// The path is taken: try this attempt next
    Try(u64),
}

impl App {
    /// One step of the search for a free output path: the path of attempt
    /// `counter` is used when nothing is there yet (`taken` is false);
    /// otherwise the next attempt is tried.
    pub fn output_path_step(&self, stem: &str, counter: u64, taken: bool) -> (r: NameSearch)
        requires
            counter < u64::MAX,
        ensures
            match r {
                NameSearch::Use(p) => !taken && p@ == output_candidate(
                    self.settings.output_dir@,
                    stem@,
                    counter as nat,
                ),
                NameSearch::Try(next) => taken && next == counter + 1,
            },
    {
        if taken {
            NameSearch::Try(counter + 1)
        } else {
            NameSearch::Use(self.output_path_candidate(stem, counter))
        }
    }
}

/// The index of the first job with `id`.
fn find_job(jobs: &Vec<ConversionJob>, id: u128) -> (r: Option<usize>)
    ensures
        r matches Some(i) ==> job_index(jobs@, id) == Some(i as int) && i < jobs@.len() && jobs@[i as int].id == id,
        r is None ==> job_index(jobs@, id) is None,
{
    let n = jobs.len();
    let mut i: usize = 0;
    assert(jobs@.skip(0) =~= jobs@);
    while i < n
        invariant
            n == jobs@.len(),
            i <= n,
            job_index(jobs@, id) == (match job_index(jobs@.skip(i as int), id) {
                Some(k) => Some(k + i),
                None => None,
            }),
        decreases n - i,
    {
        assert(jobs@.skip(i as int).drop_first() =~= jobs@.skip(i + 1));
        assert(jobs@.skip(i as int)[0] == jobs@[i as int]);
        if jobs[i].id == id {
            return Some(i);
        }
        i = i + 1;
    }
    None
}

/// The index of the first job with `id`, if any.
pub open spec fn job_index(jobs: Seq<ConversionJob>, id: u128) -> Option<int>
    decreases jobs.len(),
{
    if jobs.len() == 0 {
        None
    } else if jobs[0].id == id {
        Some(0)
    } else {
        match job_index(jobs.drop_first(), id) {
            Some(k) => Some(k + 1),
            None => None,
        }
    }
}

/// The number of converting jobs among `st`.
pub open spec fn count_converting(st: Seq<StatusView>) -> nat
    decreases st.len(),
{
    if st.len() == 0 {
        0
    } else {
        count_converting(st.drop_last()) + if st.last() == StatusView::Converting {
            1nat
        } else {
            0nat
        }
    }
}

/// How many more jobs may start: the limit less the jobs converting, or none.
pub open spec fn start_slots(max_concurrent: nat, st: Seq<StatusView>) -> nat {
    if max_concurrent > count_converting(st) {
        (max_concurrent - count_converting(st)) as nat
    } else {
        0
    }
}

/// The error of a failed attempt to make the output directory, if it failed.
pub open spec fn dir_error(r: Result<(), String>) -> Option<Seq<char>> {
    match r {
        Ok(()) => None,
        Err(e) => Some(e@),
    }
}

/// The statuses after starting jobs, front to back, while slots remain: a
/// pending job starts converting and takes a slot, or fails when the output
/// directory could not be made.
pub open spec fn planned_statuses(st: Seq<StatusView>, slots: nat, err: Option<Seq<char>>) -> Seq<
    StatusView,
>
    decreases st.len(),
{
    if st.len() == 0 || slots == 0 {
        st
    } else if st[0] == StatusView::Pending {
        match err {
            Some(e) => seq![StatusView::Failed("Output dir error: "@ + e)] + planned_statuses(
                st.drop_first(),
                slots,
                err,
            ),
            None => seq![StatusView::Converting] + planned_statuses(
                st.drop_first(),
                (slots - 1) as nat,
                err,
            ),
        }
    } else {
        seq![st[0]] + planned_statuses(st.drop_first(), slots, err)
    }
}

// ---------------------------------------------------------------------------
// Laws
// ---------------------------------------------------------------------------

/// Moving the setting selection down and back up, or up and back down,
/// returns to the same field; five moves down come back.
pub proof fn lemma_settings_field_cycle(f: SettingsField)
    ensures
        f.succ().pred() == f,
        f.pred().succ() == f,
        f.succ().succ().succ().succ().succ() == f,
{
}

/// Moving down through the settings follows the order of the fields on
/// screen (Scale, FPS, Quality, Loop, Output) and wraps from the last to the
/// first; moving up goes the other way.
pub proof fn lemma_settings_field_order()
    ensures
        SettingsField::Scale.succ() == SettingsField::Fps,
        SettingsField::Fps.succ() == SettingsField::Quality,
        SettingsField::Quality.succ() == SettingsField::Loop,
        SettingsField::Loop.succ() == SettingsField::OutputDir,
        SettingsField::OutputDir.succ() == SettingsField::Scale,
        SettingsField::Scale.pred() == SettingsField::OutputDir,
        SettingsField::Fps.pred() == SettingsField::Scale,
        SettingsField::Quality.pred() == SettingsField::Fps,
        SettingsField::Loop.pred() == SettingsField::Quality,
        SettingsField::OutputDir.pred() == SettingsField::Loop,
{
}

/// A progress update goes to the first job with its id: `job_index` finds a
/// job with that id and none before it, or finds none when no job has it.
pub proof fn lemma_job_index_first(jobs: Seq<ConversionJob>, id: u128)
    ensures
        match job_index(jobs, id) {
            Some(i) => 0 <= i < jobs.len() && jobs[i].id == id && forall|j: int|
                0 <= j < i ==> #[trigger] jobs[j].id != id,
            None => forall|j: int| 0 <= j < jobs.len() ==> #[trigger] jobs[j].id != id,
        },
    decreases jobs.len(),
{
    if jobs.len() > 0 && jobs[0].id != id {
        lemma_job_index_first(jobs.drop_first(), id);
        assert forall|j: int| 1 <= j < jobs.len() implies #[trigger] jobs[j].id == jobs.drop_first()[j
            - 1].id by {}
    }
}

/// When no text is being typed, `q` and Esc quit and no other key does;
/// `p`, and `v` with Control or Command alone, ask for a paste.
pub proof fn lemma_quit_and_paste_keys(
    a: App,
    b: App,
    key: KeyEvent,
    home: Option<Seq<char>>,
    action: AppAction,
)
    requires
        !a.editing_output,
        !a.editing_rename,
        key_step(a, b, key, home, action),
    ensures
        b.should_quit == (a.should_quit || key.code == KeyCode::Char('q') || key.code
            == KeyCode::Esc),
        key.code != KeyCode::Char('q') && key.code != KeyCode::Esc && (key.code == KeyCode::Char(
            'p',
        ) || (key.code == KeyCode::Char('v') && (key.modifiers == KeyModifiers {
            control: true,
            ..crate::event::no_modifiers()
        } || key.modifiers == KeyModifiers { super_key: true, ..crate::event::no_modifiers() })))
            ==> action is Paste,
{
}

/// Switching the focused section twice returns to it.
pub proof fn lemma_focus_toggle(f: FocusedSection)
    ensures
        other_section(other_section(f)) == f,
        other_section(f) != f,
{
}

proof fn lemma_wrap_round_trip(i: int, n: int)
    requires
        0 <= i < n,
    ensures
        ({
            let down = (i + 1) % n;
            (if down == 0 {
                n - 1
            } else {
                down - 1
            }) == i
        }),
        ({
            let up = if i == 0 {
                n - 1
            } else {
                i - 1
            };
            (up + 1) % n == i
        }),
        0 <= (i + 1) % n < n,
{
    if i + 1 < n {
        vstd::arithmetic::div_mod::lemma_small_mod((i + 1) as nat, n as nat);
    } else {
        vstd::arithmetic::div_mod::lemma_mod_self_0(n);
    }
    if i == 0 {
        vstd::arithmetic::div_mod::lemma_mod_self_0(n);
    } else {
        vstd::arithmetic::div_mod::lemma_small_mod(i as nat, n as nat);
    }
}

proof fn lemma_job_list_steps_round_trip(a: App, b: App, c: App, first: KeyEvent, second: KeyEvent)
    requires
        0 < a.jobs@.len() <= usize::MAX,
        a.selected_job_index < a.jobs@.len(),
        (down_key(first) && up_key(second)) || (up_key(first) && down_key(second)),
        job_list_key_step(a, b, first),
        job_list_key_step(b, c, second),
    ensures
        c == (App { scroll_offset: 0, ..a }),
        b.selected_job_index < a.jobs@.len(),
{
    let n = a.jobs@.len() as int;
    let i = a.selected_job_index as int;
    lemma_wrap_round_trip(i, n);
    if down_key(first) {
        let j = (i + 1) % n;
        assert(b.selected_job_index == j && b.jobs@.len() == n);
        assert(c.selected_job_index == i);
    } else {
        let j = if i == 0 {
            n - 1
        } else {
            i - 1
        };
        assert(b.selected_job_index == j && b.jobs@.len() == n);
        assert(c.selected_job_index == i);
    }
}

/// In the job list, a down key (Down or `j`) moves the selection to the next
/// job and an up key (Up or `k`) to the previous one, wrapping round, each
/// restarting the scrolling text and asking for no work; so a down key and
/// then an up key, or an up key and then a down key, return to the same job
/// with nothing else changed but the scrolling text.
pub proof fn lemma_job_selection_round_trip(
    a: App,
    b: App,
    c: App,
    first: KeyEvent,
    second: KeyEvent,
    home: Option<Seq<char>>,
    first_action: AppAction,
    second_action: AppAction,
)
    requires
        a.wf(),
        0 < a.jobs@.len() <= usize::MAX,
        !a.editing_output,
        !a.editing_rename,
        a.focused_section == FocusedSection::JobList,
        (down_key(first) && up_key(second)) || (up_key(first) && down_key(second)),
        key_step(a, b, first, home, first_action),
        key_step(b, c, second, home, second_action),
    ensures
        b.selected_job_index == (if down_key(first) {
            ((a.selected_job_index + 1) % (a.jobs@.len() as int)) as usize
        } else if a.selected_job_index == 0 {
            (a.jobs@.len() - 1) as usize
        } else {
            (a.selected_job_index - 1) as usize
        }),
        b.selected_job_index < b.jobs@.len(),
        b == (App { selected_job_index: b.selected_job_index, scroll_offset: 0, ..a }),
        c == (App { scroll_offset: 0, ..a }),
        first_action is Nothing,
        second_action is Nothing,
{
    assert(job_list_key_step(a, b, first));
    assert(job_list_key_step(b, c, second));
    lemma_job_list_steps_round_trip(a, b, c, first, second);
}

proof fn lemma_adjust_steps_round_trip(a: App, b: App, c: App, home: Option<Seq<char>>, up: bool)
    requires
        adjust_step(a, b, up, home),
        adjust_step(b, c, !up, home),
        a.selected_setting == SettingsField::Loop ==> in_loop_cycle(a.settings.loop_count),
        a.selected_setting == SettingsField::OutputDir ==> {
            &&& plain_home(home)
            &&& suggestion_index(collapsed(a.settings.output_dir@, home)) is Some
            &&& expanded(collapsed(a.settings.output_dir@, home), home) == a.settings.output_dir@
        },
    ensures
        c.settings.scale == a.settings.scale,
        c.settings.fps == a.settings.fps,
        c.settings.quality == a.settings.quality,
        c.settings.loop_count == a.settings.loop_count,
        c.settings.output_dir@ == a.settings.output_dir@,
        c.settings.max_concurrent == a.settings.max_concurrent,
        c == (App { settings: c.settings, output_input: c.output_input, ..a }),
{
    lemma_scale_cycle(a.settings.scale);
    lemma_fps_cycle(a.settings.fps);
    lemma_quality_cycle(a.settings.quality);
    lemma_loop_cycle(a.settings.loop_count);
    if a.selected_setting == SettingsField::OutputDir {
        lemma_output_dir_cycle(a.settings.output_dir@, home);
    }
}

/// On the settings panel, a right key (Right or `l`) steps the selected
/// setting forward and a left key (Left or `h`) steps it back, asking for no
/// work; so right and then left, or left and then right, give the settings
/// back: for a loop count in the cycle of loop counts, and for an output
/// directory that is one of the suggestions as `~` expands it against a
/// plain home directory.
pub proof fn lemma_adjust_round_trip(
    a: App,
    b: App,
    c: App,
    first: KeyEvent,
    second: KeyEvent,
    home: Option<Seq<char>>,
    first_action: AppAction,
    second_action: AppAction,
)
    requires
        !a.editing_output,
        !a.editing_rename,
        a.focused_section == FocusedSection::Settings,
        (right_key(first) && left_key(second)) || (left_key(first) && right_key(second)),
        key_step(a, b, first, home, first_action),
        key_step(b, c, second, home, second_action),
        a.selected_setting == SettingsField::Loop ==> in_loop_cycle(a.settings.loop_count),
        a.selected_setting == SettingsField::OutputDir ==> {
            &&& plain_home(home)
            &&& suggestion_index(collapsed(a.settings.output_dir@, home)) is Some
            &&& expanded(collapsed(a.settings.output_dir@, home), home) == a.settings.output_dir@
        },
    ensures
        adjust_step(a, b, right_key(first), home),
        c.settings.scale == a.settings.scale,
        c.settings.fps == a.settings.fps,
        c.settings.quality == a.settings.quality,
        c.settings.loop_count == a.settings.loop_count,
        c.settings.output_dir@ == a.settings.output_dir@,
        c.settings.max_concurrent == a.settings.max_concurrent,
        c == (App { settings: c.settings, output_input: c.output_input, ..a }),
        first_action is Nothing,
        second_action is Nothing,
{
    assert(settings_key_step(a, b, first, home));
    assert(adjust_step(a, b, right_key(first), home));
    assert(settings_key_step(b, c, second, home));
    assert(adjust_step(b, c, !right_key(first), home));
    lemma_adjust_steps_round_trip(a, b, c, home, right_key(first));
}

/// While text is being typed, no key quits: `q` and Esc are text or cancel
/// the typing.
pub proof fn lemma_typing_never_quits(
    old: App,
    new: App,
    key: KeyEvent,
    home: Option<Seq<char>>,
    action: AppAction,
)
    requires
        old.editing_output || old.editing_rename,
        key_step(old, new, key, home, action),
    ensures
        new.should_quit == old.should_quit,
{
}

proof fn lemma_count_prepend(x: StatusView, rest: Seq<StatusView>)
    ensures
        count_converting(seq![x] + rest) == count_converting(rest) + if x
            == StatusView::Converting {
            1nat
        } else {
            0nat
        },
    decreases rest.len(),
{
    if rest.len() > 0 {
        lemma_count_prepend(x, rest.drop_last());
        assert((seq![x] + rest).drop_last() =~= seq![x] + rest.drop_last());
        assert((seq![x] + rest).last() == rest.last());
        let c = if rest.last() == StatusView::Converting { 1nat } else { 0nat };
        assert(count_converting(seq![x] + rest) == count_converting(seq![x] + rest.drop_last()) + c);
        assert(count_converting(rest) == count_converting(rest.drop_last()) + c);
    } else {
        assert(seq![x] + rest =~= seq![x]);
        assert(seq![x].drop_last() =~= Seq::<StatusView>::empty());
        assert(count_converting(Seq::<StatusView>::empty()) == 0);
        assert(count_converting(seq![x]) == count_converting(seq![x].drop_last()) + if x
            == StatusView::Converting {
            1nat
        } else {
            0nat
        });
    }
}

proof fn lemma_planned_count(st: Seq<StatusView>, slots: nat, err: Option<Seq<char>>)
    ensures
        count_converting(planned_statuses(st, slots, err)) <= count_converting(st) + slots,
    decreases st.len(),
{
    if st.len() > 0 && slots > 0 {
        let rest = st.drop_first();
        assert(st =~= seq![st[0]] + rest);
        lemma_count_prepend(st[0], rest);
        if st[0] == StatusView::Pending {
            match err {
                Some(e) => {
                    lemma_planned_count(rest, slots, err);
                    lemma_count_prepend(
                        StatusView::Failed("Output dir error: "@ + e),
                        planned_statuses(rest, slots, err),
                    );
                },
                None => {
                    lemma_planned_count(rest, (slots - 1) as nat, err);
                    lemma_count_prepend(
                        StatusView::Converting,
                        planned_statuses(rest, (slots - 1) as nat, err),
                    );
                },
            }
        } else {
            lemma_planned_count(rest, slots, err);
            lemma_count_prepend(st[0], planned_statuses(rest, slots, err));
        }
    }
}

/// Starting pending jobs never brings the number of converting jobs above the
/// `max_concurrent` limit (nor above the number already converting, when that
/// was over the limit).
pub proof fn lemma_start_respects_limit(st: Seq<StatusView>, max_concurrent: nat, err: Option<Seq<char>>)
    ensures
        count_converting(planned_statuses(st, start_slots(max_concurrent, st), err)) <= if max_concurrent
            > count_converting(st) {
            max_concurrent
        } else {
            count_converting(st)
        },
{
    lemma_planned_count(st, start_slots(max_concurrent, st), err);
}

/// Starting jobs touches only pending jobs: every other job keeps its status,
/// and a pending job stays pending, starts converting, or fails.
pub proof fn lemma_start_touches_only_pending(st: Seq<StatusView>, slots: nat, err: Option<Seq<char>>)
    ensures
        planned_statuses(st, slots, err).len() == st.len(),
        forall|i: int|
            0 <= i < st.len() && st[i] != StatusView::Pending ==> #[trigger] planned_statuses(
                st,
                slots,
                err,
            )[i] == st[i],
        forall|i: int|
            0 <= i < st.len() && st[i] == StatusView::Pending ==> {
                let p = #[trigger] planned_statuses(st, slots, err)[i];
                p == StatusView::Pending || p == StatusView::Converting || p is Failed
            },
    decreases st.len(),
{
    if st.len() > 0 && slots > 0 {
        let rest = st.drop_first();
        let next_slots = if st[0] == StatusView::Pending && err is None {
            (slots - 1) as nat
        } else {
            slots
        };
        lemma_start_touches_only_pending(rest, next_slots, err);
        let pr = planned_statuses(rest, next_slots, err);
        let p = planned_statuses(st, slots, err);
        assert forall|i: int| 0 < i < st.len() implies #[trigger] p[i] == pr[i - 1] && st[i]
            == rest[i - 1] by {}
    }
}

/// Pasting inputs that are all queued already queues nothing.
pub proof fn lemma_paste_again_adds_nothing(done: Set<Seq<char>>, keys: Seq<Seq<char>>, n: int)
    requires
        0 <= n <= keys.len(),
        forall|i: int| 0 <= i < n ==> done.contains(#[trigger] keys[i]),
    ensures
        accepted_upto(done, keys, n).len() == 0,
    decreases n,
{
    if n > 0 {
        lemma_paste_again_adds_nothing(done, keys, n - 1);
        assert(!accepted(done, keys, n - 1));
    }
}

/// The indices of the queued items of a paste are increasing and in range.
pub proof fn lemma_accepted_in_order(done: Set<Seq<char>>, keys: Seq<Seq<char>>, n: int)
    requires
        0 <= n,
    ensures
        forall|m: int|
            0 <= m < accepted_upto(done, keys, n).len() ==> 0 <= #[trigger] accepted_upto(
                done,
                keys,
                n,
            )[m] < n && accepted(done, keys, accepted_upto(done, keys, n)[m]),
        forall|a: int, b: int|
            0 <= a < b < accepted_upto(done, keys, n).len() ==> accepted_upto(done, keys, n)[a]
                < accepted_upto(done, keys, n)[b],
    decreases n,
{
    if n > 0 {
        lemma_accepted_in_order(done, keys, n - 1);
        let prev = accepted_upto(done, keys, n - 1);
        if accepted(done, keys, n - 1) {
            let cur = prev.push(n - 1);
            assert(accepted_upto(done, keys, n) == cur);
            assert forall|m: int| 0 <= m < cur.len() implies 0 <= #[trigger] cur[m] < n && accepted(
                done,
                keys,
                cur[m],
            ) by {
                if m < prev.len() {
                    assert(cur[m] == prev[m]);
                }
            }
            assert forall|a: int, b: int| 0 <= a < b < cur.len() implies cur[a] < cur[b] by {
                assert(cur[a] == prev[a]);
                if b < prev.len() {
                    assert(cur[b] == prev[b]);
                }
            }
        }
    }
}

/// Each attempt at an output path names a different file: `stem.gif`,
/// `stem_1.gif`, `stem_2.gif`, ... in the output directory are all distinct.
pub proof fn lemma_output_candidates_differ(dir: Seq<char>, stem: Seq<char>, c1: nat, c2: nat)
    requires
        c1 != c2,
    ensures
        output_candidate(dir, stem, c1) != output_candidate(dir, stem, c2),
{
    let gif = seq!['.', 'g', 'i', 'f'];
    let f1 = if c1 == 0 {
        stem + gif
    } else {
        stem + seq!['_'] + decimal(c1) + gif
    };
    let f2 = if c2 == 0 {
        stem + gif
    } else {
        stem + seq!['_'] + decimal(c2) + gif
    };
    let k = stem.len() as int;
    assert(f1 != f2) by {
        if c1 == 0 {
            assert(f1[k] == '.' && f2[k] == '_');
        } else if c2 == 0 {
            assert(f1[k] == '_' && f2[k] == '.');
        } else if f1 == f2 {
            assert(f1.subrange(k + 1, f1.len() - 4) =~= decimal(c1));
            assert(f2.subrange(k + 1, f2.len() - 4) =~= decimal(c2));
            lemma_decimal_injective(c1, c2);
        }
    }
    assert(f1.len() > 0 && f2.len() > 0);
    assert((f1[0] == '/') == (f2[0] == '/')) by {
        if k > 0 {
            assert(f1[0] == stem[0] && f2[0] == stem[0]);
        }
    }
    if dir.len() > 0 && dir.last() != '/' {
        let pre = dir + seq!['/'];
        assert((pre + f1).skip(pre.len() as int) =~= f1);
        assert((pre + f2).skip(pre.len() as int) =~= f2);
    } else {
        assert((dir + f1).skip(dir.len() as int) =~= f1);
        assert((dir + f2).skip(dir.len() as int) =~= f2);
    }
}

/// A paste never queues an input that was queued already, nor the same
/// input twice: the keys of the items it queues are new and pairwise
/// different.
pub proof fn lemma_paste_queues_each_input_once(done: Set<Seq<char>>, keys: Seq<Seq<char>>, n: int)
    requires
        0 <= n <= keys.len(),
    ensures
        forall|m: int|
            0 <= m < accepted_upto(done, keys, n).len() ==> !done.contains(
                keys[#[trigger] accepted_upto(done, keys, n)[m]],
            ),
        forall|a: int, b: int|
            0 <= a < b < accepted_upto(done, keys, n).len() ==> keys[accepted_upto(done, keys, n)[a]]
                != keys[accepted_upto(done, keys, n)[b]],
{
    lemma_accepted_in_order(done, keys, n);
    let acc = accepted_upto(done, keys, n);
    assert forall|a: int, b: int| 0 <= a < b < acc.len() implies keys[acc[a]] != keys[acc[b]] by {
        assert(accepted(done, keys, acc[b]));
        assert(0 <= acc[a] < acc[b]);
    }
}

/// After `k` ticks (`states[j + 1]` is `states[j]` after one tick): a message
/// shown with a countdown of `t` ticks is still shown while `k < t` and gone
/// from the `t`-th tick on (a message with no countdown stays); whether it is
/// an error does not change; the countdown is `t - k`, or zero once it has
/// run out; the scrolling text has advanced by `k` (modulo the range of
/// `u16`); nothing else changes.
#[verifier::spinoff_prover]
pub proof fn lemma_message_lifetime(states: Seq<App>, k: int)
    requires
        0 <= k,
        states.len() == k + 1,
        forall|j: int| 0 <= j < k ==> tick_step(#[trigger] states[j], states[j + 1]),
    ensures
        ({
            let first = states[0];
            let last = states[k];
            let t = first.message_timeout as int;
            &&& last.message == (if t > 0 && k >= t {
                None
            } else {
                first.message
            })
            &&& last.message_is_error == first.message_is_error
            &&& last.message_timeout == (if k < t {
                t - k
            } else {
                0
            })
            &&& last.scroll_offset == (first.scroll_offset + k) % 0x10000
            &&& last == (App {
                message: last.message,
                message_timeout: last.message_timeout,
                scroll_offset: last.scroll_offset,
                ..first
            })
        }),
    decreases k,
{
    if k > 0 {
        let prev = states.take(k);
        assert forall|j: int| 0 <= j < k - 1 implies tick_step(#[trigger] prev[j], prev[j + 1]) by {
            assert(prev[j] == states[j] && prev[j + 1] == states[j + 1]);
        }
        lemma_message_lifetime(prev, k - 1);
        assert(prev[0] == states[0] && prev[k - 1] == states[k - 1]);
        assert(tick_step(states[k - 1], states[k]));
        lemma_wrapping_step(states[0].scroll_offset as int + k - 1);
    }
}

proof fn lemma_wrapping_step(a: int)
    requires
        a >= 0,
    ensures
        ((a % 0x10000) as u16).wrapping_add(1) == (a + 1) % 0x10000,
{
    if a % 0x10000 == 0xffff {
        assert((a + 1) % 0x10000 == 0);
    } else {
        assert((a + 1) % 0x10000 == a % 0x10000 + 1);
    }
}

} // verus!
