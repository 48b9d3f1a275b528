//! Conversion jobs: where a video comes from, how a job stands, and the
//! texts shown for it.
use vstd::prelude::*;
use crate::path::{file_name, file_stem, parent_file_name, path_file_name, path_file_stem, path_parent_file_name};
use crate::text::{
    after_last, before_first, chars_of, decimal, digit_char, digit_of, find_char, last_index,
    lemma_first_index_facts, lemma_last_index_facts, push_char, push_chars, push_decimal,
    rfind_char, string_of, string_of_range,
};

verus! {

// ---------------------------------------------------------------------------
// Input source
// ---------------------------------------------------------------------------

/// Input source for a conversion job
#[derive(Debug, Clone)]
pub enum InputSource {
    /// Local file path
    LocalFile(String),
    /// Remote URL (http/https)
    RemoteUrl(String),
}

/// `"unknown"`.
pub open spec fn unknown_text() -> Seq<char> {
    seq!['u', 'n', 'k', 'n', 'o', 'w', 'n']
}

/// The last `/`-separated piece of a URL's path, the query (from the first `?`) left out.
pub open spec fn url_file_name(url: Seq<char>) -> Seq<char> {
    after_last(before_first(url, '?'), '/')
}

/// The name shown for a URL: its file name when that is non-empty and holds a
/// `.`; otherwise the URL, cut to 37 characters and `...` when it is longer
/// than 40 characters.
pub open spec fn url_display_name(url: Seq<char>) -> Seq<char> {
    let f = url_file_name(url);
    if f.len() > 0 && f.contains('.') {
        f
    } else if url.len() > 40 {
        url.take(37) + seq!['.', '.', '.']
    } else {
        url
    }
}

/// The stem of a URL's file name: the part before its last `.`, if it has one.
pub open spec fn url_file_stem(url: Seq<char>) -> Option<Seq<char>> {
    let f = url_file_name(url);
    match last_index(f, '.') {
        Some(i) => Some(f.take(i)),
        None => None,
    }
}

impl InputSource {
    /// The path or URL, as text.
    pub open spec fn location(self) -> Seq<char> {
        match self {
            InputSource::LocalFile(p) => p@,
            InputSource::RemoteUrl(u) => u@,
        }
    }

    /// The name shown for this input.
    pub open spec fn display_text(self) -> Seq<char> {
        match self {
            InputSource::LocalFile(p) => match file_name(p@) {
                Some(n) => n,
                None => unknown_text(),
            },
            InputSource::RemoteUrl(u) => url_display_name(u@),
        }
    }

    /// The stem from which an output file name is made.
    pub open spec fn stem(self) -> Option<Seq<char>> {
        match self {
            InputSource::LocalFile(p) => file_stem(p@),
            InputSource::RemoteUrl(u) => url_file_stem(u@),
        }
    }

    /// The key under which duplicates are detected, given the canonical form of
    /// a local path when the file system could produce one.
    pub open spec fn key(self, canonical: Option<Seq<char>>) -> Seq<char> {
        match self {
            InputSource::LocalFile(p) => match canonical {
                Some(c) => c,
                None => p@,
            },
            InputSource::RemoteUrl(u) => u@,
        }
    }

    /// Get display name (filename or URL truncated)
    pub fn display_name(&self) -> (r: String)
        ensures
            r@ == self.display_text(),
    {
        match self {
            InputSource::LocalFile(path) => match path_file_name(path.as_str()) {
                Some(n) => n,
                None => {
                    proof {
                        reveal_strlit("unknown");
                    }
                    let r = String::from_str("unknown");
                    assert(r@ =~= unknown_text());
                    r
                },
            },
            InputSource::RemoteUrl(url) => url_name(url.as_str()),
        }
    }

    /// Get the input argument for FFmpeg
    pub fn ffmpeg_input(&self) -> (r: String)
        ensures
            r@ == self.location(),
    {
        match self {
            InputSource::LocalFile(path) => path.clone(),
            InputSource::RemoteUrl(url) => url.clone(),
        }
    }

    /// Extract stem for output filename
    pub fn file_stem(&self) -> (r: Option<String>)
        ensures
            r.deep_view() == self.stem(),
    {
        match self {
            InputSource::LocalFile(path) => path_file_stem(path.as_str()),
            InputSource::RemoteUrl(url) => {
                let f = url_file_name_chars(url.as_str());
                match rfind_char(f.as_slice(), '.') {
                    Some(i) => Some(string_of_range(f.as_slice(), 0, i)),
                    None => None,
                }
            },
        }
    }

    /// Get unique key for duplicate detection. `canonical` is the canonical
    /// form of a local path, when the file system could produce one.
    pub fn dedup_key(&self, canonical: &Option<String>) -> (r: String)
        ensures
            r@ == self.key(canonical.deep_view()),
    {
        match self {
            InputSource::LocalFile(path) => match canonical {
                Some(c) => c.clone(),
                None => path.clone(),
            },
            InputSource::RemoteUrl(url) => url.clone(),
        }
    }
}

/// The characters of the file name of a URL.
fn url_file_name_chars(url: &str) -> (r: Vec<char>)
    ensures
        r@ == url_file_name(url@),
{
    let v = chars_of(url);
    let cut = match find_char(v.as_slice(), '?') {
        Some(i) => i,
        None => v.len(),
    };
    let path = string_of_range(v.as_slice(), 0, cut);
    let pv = chars_of(path.as_str());
    assert(pv@ == before_first(url@, '?'));
    let start = match rfind_char(pv.as_slice(), '/') {
        Some(j) => j + 1,
        None => 0,
    };
    assert(pv@.skip(0) =~= pv@);
    let name = string_of_range(pv.as_slice(), start, pv.len());
    assert(name@ =~= pv@.skip(start as int));
    chars_of(name.as_str())
}

/// The name shown for a URL.
fn url_name(url: &str) -> (r: String)
    ensures
        r@ == url_display_name(url@),
{
    let f = url_file_name_chars(url);
    if f.len() > 0 {
        if let Some(_) = find_char(f.as_slice(), '.') {
            return string_of(f.as_slice());
        }
    }
    let v = chars_of(url);
    if v.len() > 40 {
        let mut r = string_of_range(v.as_slice(), 0, 37);
        push_char(&mut r, '.');
        push_char(&mut r, '.');
        push_char(&mut r, '.');
        assert(r@ =~= url@.take(37) + seq!['.', '.', '.']);
        r
    } else {
        String::from_str(url)
    }
}

// ---------------------------------------------------------------------------
// Job status
// ---------------------------------------------------------------------------

/// The key under which an input is detected as a duplicate: a URL is its own
/// key, whatever canonical path is given, so two URLs that differ anywhere
/// (their query included) are different inputs; a local file is keyed by its
/// canonical path when there is one, else by its path as given.
pub proof fn lemma_dedup_keys(
    u: String,
    v: String,
    p: String,
    c: Option<Seq<char>>,
    d: Option<Seq<char>>,
)
    ensures
        InputSource::RemoteUrl(u).key(c) == u@,
        (InputSource::RemoteUrl(u).key(c) == InputSource::RemoteUrl(v).key(d)) == (u@ == v@),
        c matches Some(cp) ==> InputSource::LocalFile(p).key(c) == cp,
        c is None ==> InputSource::LocalFile(p).key(c) == p@,
{
}

/// A URL's file name is the last `/`-separated piece of its path, and its
/// path is all of it before the first `?`: the path is a prefix of the URL
/// holding no `?`, followed by `?` or the end; the file name ends the path,
/// holds no `/`, and is the whole path or follows a `/`.
pub proof fn lemma_url_file_name(u: Seq<char>)
    ensures
        ({
            let path = before_first(u, '?');
            let f = url_file_name(u);
            &&& path.is_prefix_of(u)
            &&& !path.contains('?')
            &&& path.len() < u.len() ==> u[path.len() as int] == '?'
            &&& f.len() <= path.len()
            &&& path.skip(path.len() - f.len()) == f
            &&& !f.contains('/')
            &&& f.len() < path.len() ==> path[path.len() - f.len() - 1] == '/'
        }),
{
    lemma_before_first_facts(u, '?');
    let path = before_first(u, '?');
    lemma_last_index_facts(path, '/');
    let f = url_file_name(u);
    match last_index(path, '/') {
        Some(i) => {
            assert(f == path.skip(i + 1));
            assert(f.len() == path.len() - i - 1);
            assert(path.len() - f.len() - 1 == i);
        },
        None => {
            assert(f == path);
            assert(path.skip(0) =~= path);
        },
    }
}

/// What comes before the first `c` of `s` is a prefix of `s` holding no `c`,
/// followed in `s` by `c` or the end.
proof fn lemma_before_first_facts(s: Seq<char>, c: char)
    ensures
        before_first(s, c).is_prefix_of(s),
        !before_first(s, c).contains(c),
        before_first(s, c).len() < s.len() ==> s[before_first(s, c).len() as int] == c,
    decreases s.len(),
{
    if s.len() > 0 && s[0] != c {
        lemma_before_first_facts(s.drop_first(), c);
        let b = before_first(s.drop_first(), c);
        assert(before_first(s, c) == seq![s[0]] + b);
        assert forall|k: int| 0 <= k < b.len() + 1 implies (seq![s[0]] + b)[k] == s[k] by {
            if k > 0 {
                assert(b[k - 1] == s.drop_first()[k - 1]);
            }
        }
        if (seq![s[0]] + b).contains(c) {
            let k = choose|k: int| 0 <= k < b.len() + 1 && (seq![s[0]] + b)[k] == c;
            assert(b[k - 1] == c);
        }
    }
}

/// The stem of a URL's file name is what comes before its last `.`: the
/// stem, a `.` and an extension holding no `.` make up the file name; a file
/// name with no `.` has no stem.
pub proof fn lemma_url_stem(u: Seq<char>)
    ensures
        ({
            let f = url_file_name(u);
            match url_file_stem(u) {
                Some(st) => {
                    &&& st.len() < f.len()
                    &&& f.take(st.len() as int) == st
                    &&& f[st.len() as int] == '.'
                    &&& !f.skip(st.len() as int + 1).contains('.')
                },
                None => !f.contains('.'),
            }
        }),
{
    lemma_last_index_facts(url_file_name(u), '.');
}

/// Status of a conversion job
#[derive(Debug, Clone, PartialEq, Eq)]
pub enum JobStatus {
    /// Waiting to be processed
    Pending,
    /// Currently being converted
    Converting,
    /// Successfully completed
    Complete,
    /// Failed with error message
    Failed(String),
    /// Cancelled by user
    Cancelled,
}

/// A job status as a value: the message of a failure as its characters.
pub enum StatusView {
    Pending,
    Converting,
    Complete,
    Failed(Seq<char>),
    Cancelled,
}

impl View for JobStatus {
    type V = StatusView;

    open spec fn view(&self) -> StatusView {
        match self {
            JobStatus::Pending => StatusView::Pending,
            JobStatus::Converting => StatusView::Converting,
            JobStatus::Complete => StatusView::Complete,
            JobStatus::Failed(m) => StatusView::Failed(m@),
            JobStatus::Cancelled => StatusView::Cancelled,
        }
    }
}

impl JobStatus {
    /// A job in this status will not change any more by itself.
    pub open spec fn terminal(self) -> bool {
        match self {
            JobStatus::Complete | JobStatus::Failed(_) | JobStatus::Cancelled => true,
            _ => false,
        }
    }

    /// The icon shown for this status.
    pub open spec fn icon_text(self) -> Seq<char> {
        match self {
            JobStatus::Pending => "\u{25cb}"@,
            JobStatus::Converting => "\u{25b6}"@,
            JobStatus::Complete => "\u{2713}"@,
            JobStatus::Failed(_) => "\u{2717}"@,
            JobStatus::Cancelled => "\u{2298}"@,
        }
    }

    /// Get the status icon for display
    pub fn icon(&self) -> (r: &'static str)
        ensures
            r@ == self.icon_text(),
    {
        match self {
            JobStatus::Pending => "\u{25cb}",
            JobStatus::Converting => "\u{25b6}",
            JobStatus::Complete => "\u{2713}",
            JobStatus::Failed(_) => "\u{2717}",
            JobStatus::Cancelled => "\u{2298}",
        }
    }

    /// Check if job is in a terminal state
    pub fn is_terminal(&self) -> (r: bool)
        ensures
            r == self.terminal(),
    {
        match self {
            JobStatus::Complete | JobStatus::Failed(_) | JobStatus::Cancelled => true,
            _ => false,
        }
    }

    /// Check if job is actively converting
    pub fn is_converting(&self) -> (r: bool)
        ensures
            r == (*self == JobStatus::Converting),
    {
        match self {
            JobStatus::Converting => true,
            _ => false,
        }
    }

    /// Whether the status is `Pending`.
    pub fn is_pending(&self) -> (r: bool)
        ensures
            r == (*self == JobStatus::Pending),
    {
        match self {
            JobStatus::Pending => true,
            _ => false,
        }
    }

    /// Whether the status is `Complete`.
    pub fn is_complete(&self) -> (r: bool)
        ensures
            r == (*self == JobStatus::Complete),
    {
        match self {
            JobStatus::Complete => true,
            _ => false,
        }
    }
}

/// The icons shown: an open circle for a pending job, a play sign while it
/// converts, a check mark when complete, a cross when failed, and a circled
/// slash when cancelled; no two statuses share an icon.
pub proof fn lemma_status_icons(a: JobStatus, b: JobStatus)
    ensures
        JobStatus::Pending.icon_text() == "\u{25cb}"@,
        JobStatus::Converting.icon_text() == "\u{25b6}"@,
        JobStatus::Complete.icon_text() == "\u{2713}"@,
        a is Failed ==> a.icon_text() == "\u{2717}"@,
        JobStatus::Cancelled.icon_text() == "\u{2298}"@,
        a.icon_text() == b.icon_text() ==> a@ == b@ || (a is Failed && b is Failed),
{
    reveal_strlit("\u{25cb}");
    reveal_strlit("\u{25b6}");
    reveal_strlit("\u{2713}");
    reveal_strlit("\u{2717}");
    reveal_strlit("\u{2298}");
    if a.icon_text() == b.icon_text() {
        assert(a.icon_text()[0] == b.icon_text()[0]);
    }
}

/// A converting job is not in a terminal state, and every status is either
/// terminal, pending or converting.
pub proof fn lemma_status_partition(s: JobStatus)
    ensures
        s == JobStatus::Converting ==> !s.terminal(),
        s == JobStatus::Pending ==> !s.terminal(),
        s.terminal() || s == JobStatus::Pending || s == JobStatus::Converting,
{
}

// ---------------------------------------------------------------------------
// Progress and jobs
// ---------------------------------------------------------------------------

/// Progress information for a conversion (the counters; the percentage done is
/// kept by the caller, which computes it in floating point).
#[derive(Debug, Clone)]
pub struct ConversionProgress {
    /// Current frame being processed
    pub frame: u64,
    /// Total frames (if known)
    pub total_frames: Option<u64>,
    /// Processing speed (e.g., "2.5x")
    pub speed: Option<String>,
    /// Output file size in bytes (when complete)
    pub output_size: Option<u64>,
}

impl ConversionProgress {
    /// No progress yet.
    pub open spec fn is_empty(self) -> bool {
        self.frame == 0 && self.total_frames is None && self.speed is None
            && self.output_size is None
    }

    /// No progress yet.
    pub fn empty() -> (r: Self)
        ensures
            r.is_empty(),
    {
        ConversionProgress { frame: 0, total_frames: None, speed: None, output_size: None }
    }
}

impl Default for ConversionProgress {
    fn default() -> (r: Self)
        ensures
            r.is_empty(),
    {
        ConversionProgress::empty()
    }
}

/// A video to GIF conversion job
#[derive(Debug, Clone)]
pub struct ConversionJob {
    /// Unique identifier (the 128 bits of a random UUID)
    pub id: u128,
    /// Input source (local file or remote URL)
    pub input: InputSource,
    /// Output GIF file path
    pub output_path: String,
    /// Current status
    pub status: JobStatus,
    /// Conversion progress
    pub progress: ConversionProgress,
}

/// Progress update message sent from worker to main thread
#[derive(Debug, Clone)]
pub struct ProgressUpdate {
    /// Job ID this update is for
    pub job_id: u128,
    /// New status (if changed)
    pub status: Option<JobStatus>,
    /// Progress update
    pub progress: Option<ConversionProgress>,
}

/// Calls `uuid::Uuid::new_v4` and returns its 128 bits (`Uuid::as_u128`).
/// The value is random, so nothing is claimed of it.
#[verifier::external_body]
fn new_job_id() -> (r: u128) {
    uuid::Uuid::new_v4().as_u128()
}

impl ConversionJob {
    /// The name shown for the output file.
    pub open spec fn output_file_text(self) -> Seq<char> {
        match file_name(self.output_path@) {
            Some(n) => n,
            None => unknown_text(),
        }
    }

    /// The short output path shown: the parent directory's name, `/`, and the
    /// output file name; the file name alone when the parent has no name.
    pub open spec fn output_display_text(self) -> Seq<char> {
        match parent_file_name(self.output_path@) {
            Some(p) => p + seq!['/'] + self.output_file_text(),
            None => self.output_file_text(),
        }
    }

    /// Create a new pending conversion job
    pub fn new(input: InputSource, output_path: String) -> (r: Self)
        ensures
            r.input == input,
            r.output_path == output_path,
            r.status == JobStatus::Pending,
            r.progress.is_empty(),
    {
        ConversionJob {
            id: new_job_id(),
            input,
            output_path,
            status: JobStatus::Pending,
            progress: ConversionProgress::empty(),
        }
    }

    /// Get the input filename for display
    pub fn input_filename(&self) -> (r: String)
        ensures
            r@ == self.input.display_text(),
    {
        self.input.display_name()
    }

    /// Get the output filename for display
    pub fn output_filename(&self) -> (r: String)
        ensures
            r@ == self.output_file_text(),
    {
        match path_file_name(self.output_path.as_str()) {
            Some(n) => n,
            None => {
                proof {
                    reveal_strlit("unknown");
                }
                let r = String::from_str("unknown");
                assert(r@ =~= unknown_text());
                r
            },
        }
    }

    /// Get a short display path for the output
    pub fn output_display(&self) -> (r: String)
        ensures
            r@ == self.output_display_text(),
    {
        match path_parent_file_name(self.output_path.as_str()) {
            Some(p) => {
                let mut r = p;
                push_char(&mut r, '/');
                let f = self.output_filename();
                push_chars(&mut r, chars_of(f.as_str()).as_slice());
                r
            },
            None => self.output_filename(),
        }
    }

    /// Format output size for display
    pub fn size_display(&self) -> (r: Option<String>)
        ensures
            r.deep_view() == (match self.progress.output_size {
                Some(b) => Some(size_text(b as nat)),
                None => None,
            }),
    {
        match self.progress.output_size {
            Some(b) => Some(format_size(b)),
            None => None,
        }
    }

    /// Cancel the job if it's running: a job not yet in a terminal state
    /// becomes cancelled. (Signalling the worker is the caller's part.)
    pub fn cancel(&mut self)
        ensures
            final(self).status == (if old(self).status.terminal() {
                old(self).status
            } else {
                JobStatus::Cancelled
            }),
            final(self).id == old(self).id,
            final(self).input == old(self).input,
            final(self).output_path == old(self).output_path,
            final(self).progress == old(self).progress,
    {
        if !self.status.is_terminal() {
            self.status = JobStatus::Cancelled;
        }
    }
}

/// After `cancel` a job is in a terminal state, and cancelling again changes nothing.
pub proof fn lemma_cancel_settles(s: JobStatus)
    ensures
        (if s.terminal() {
            s
        } else {
            JobStatus::Cancelled
        }).terminal(),
        s.terminal() ==> (if s.terminal() {
            s
        } else {
            JobStatus::Cancelled
        }) == s,
{
}

// ---------------------------------------------------------------------------
// Sizes
// ---------------------------------------------------------------------------

pub open spec fn kib() -> nat {
    1024
}

pub open spec fn mib() -> nat {
    1024 * 1024
}

pub open spec fn gib() -> nat {
    1024 * 1024 * 1024
}

/// `a / d` rounded to the nearest integer, ties to the even one.
pub open spec fn div_round_half_even(a: nat, d: nat) -> nat
    recommends
        d > 0,
{
    let q = a / d;
    let r = a % d;
    if 2 * r > d {
        q + 1
    } else if 2 * r < d {
        q
    } else if q % 2 == 0 {
        q
    } else {
        q + 1
    }
}

/// The smallest power of two `p` with `v < 2^53 * p`: the spacing of the
/// 64-bit floating-point numbers around `v`.
pub open spec fn f64_spacing(v: nat) -> nat
    decreases v,
{
    if v < 0x20_0000_0000_0000 {
        1
    } else {
        2 * f64_spacing(v / 2)
    }
}

/// `v` converted to a 64-bit floating-point number (`as f64`): rounded to a
/// multiple of its spacing, ties to the even multiple.
pub open spec fn f64_value(v: nat) -> nat {
    f64_spacing(v) * div_round_half_even(v, f64_spacing(v))
}

/// `num / den` written with one decimal place, rounded half to even, as
/// Rust's `{:.1}` writes an exactly representable value.
pub open spec fn one_decimal(num: nat, den: nat) -> Seq<char> {
    let t = div_round_half_even(num * 10, den);
    decimal(t / 10) + seq!['.', digit_char(t % 10)]
}

/// A byte count as shown: bytes below 1 KB, else KB, MB or GB with one decimal.
pub open spec fn size_text(bytes: nat) -> Seq<char> {
    if bytes >= gib() {
        one_decimal(f64_value(bytes), gib()) + seq!['G', 'B']
    } else if bytes >= mib() {
        one_decimal(bytes, mib()) + seq!['M', 'B']
    } else if bytes >= kib() {
        one_decimal(bytes, kib()) + seq!['K', 'B']
    } else {
        decimal(bytes) + seq!['B']
    }
}

/// `t` tenths are within half a tenth of `a / d` tenths: `|t * d - a| <= d / 2`.
pub open spec fn within_half(t: nat, a: nat, d: nat) -> bool {
    2 * (t * d) <= 2 * a + d && 2 * a <= 2 * (t * d) + d
}

proof fn lemma_rounding_is_close(a: nat, d: nat)
    requires
        d > 0,
    ensures
        within_half(div_round_half_even(a, d), a, d),
{
    let q = a / d;
    let r = a % d;
    vstd::arithmetic::div_mod::lemma_fundamental_div_mod(a as int, d as int);
    assert(a == q * d + r);
    assert((q + 1) * d == q * d + d) by (nonlinear_arith);
}

/// The size shown for a byte count: below 1024 bytes the count and `B`;
/// below 1024 KiB the count in KiB and `KB`, below 1024 MiB in MiB and `MB`,
/// else in GiB and `GB` (of the count as a 64-bit float), each written with
/// one decimal as tenths `t` (`t / 10`, `.`, the digit `t % 10`) that are
/// within half a tenth of the exact quotient.
pub proof fn lemma_size_text(bytes: nat)
    ensures
        bytes < 1024 ==> size_text(bytes) == decimal(bytes) + "B"@,
        1024 <= bytes < 1024 * 1024 ==> exists|t: nat|
            size_text(bytes) == decimal(t / 10) + seq!['.', digit_char(t % 10)] + "KB"@
                && #[trigger] within_half(t, 10 * bytes, 1024),
        1024 * 1024 <= bytes < 1024 * 1024 * 1024 ==> exists|t: nat|
            size_text(bytes) == decimal(t / 10) + seq!['.', digit_char(t % 10)] + "MB"@
                && #[trigger] within_half(t, 10 * bytes, 1024 * 1024),
        1024 * 1024 * 1024 <= bytes ==> exists|t: nat|
            size_text(bytes) == decimal(t / 10) + seq!['.', digit_char(t % 10)] + "GB"@
                && #[trigger] within_half(t, 10 * f64_value(bytes), 1024 * 1024 * 1024),
{
    reveal_strlit("B");
    reveal_strlit("KB");
    reveal_strlit("MB");
    reveal_strlit("GB");
    if bytes >= 1024 * 1024 * 1024 {
        let t = div_round_half_even(10 * f64_value(bytes), gib());
        lemma_rounding_is_close(10 * f64_value(bytes), gib());
        assert(size_text(bytes) =~= decimal(t / 10) + seq!['.', digit_char(t % 10)] + "GB"@);
    } else if bytes >= 1024 * 1024 {
        let t = div_round_half_even(10 * bytes, mib());
        lemma_rounding_is_close(10 * bytes, mib());
        assert(size_text(bytes) =~= decimal(t / 10) + seq!['.', digit_char(t % 10)] + "MB"@);
    } else if bytes >= 1024 {
        let t = div_round_half_even(10 * bytes, kib());
        lemma_rounding_is_close(10 * bytes, kib());
        assert(size_text(bytes) =~= decimal(t / 10) + seq!['.', digit_char(t % 10)] + "KB"@);
    } else {
        assert(size_text(bytes) =~= decimal(bytes) + "B"@);
    }
}

fn round_half_even(a: u128, d: u128) -> (r: u128)
    requires
        0 < d < 0x1_0000_0000_0000_0000,
        a < 0x1_0000_0000_0000_0000_0000,
    ensures
        r == div_round_half_even(a as nat, d as nat),
        r <= a / d + 1,
{
    let q = a / d;
    let r = a % d;
    if 2 * r > d {
        q + 1
    } else if 2 * r < d {
        q
    } else if q % 2 == 0 {
        q
    } else {
        q + 1
    }
}

proof fn lemma_spacing_facts(v: nat)
    ensures
        f64_spacing(v) >= 1,
        v >= 0x20_0000_0000_0000 ==> f64_spacing(v) * 0x20_0000_0000_0000 <= 2 * v,
        v >= 0x20_0000_0000_0000 ==> f64_spacing(v) >= 2,
    decreases v,
{
    if v >= 0x20_0000_0000_0000 {
        lemma_spacing_facts(v / 2);
    }
}

/// The value of `v as f64`, exactly.
fn f64_of(v: u64) -> (r: u128)
    ensures
        r == f64_value(v as nat),
        r <= 0x1_0000_0000_0000_1000,
{
    let mut p: u64 = 1;
    let mut w: u64 = v;
    proof {
        lemma_spacing_facts(v as nat);
    }
    assert(f64_spacing(v as nat) <= 0x1000);
    while w >= 0x20_0000_0000_0000
        invariant
            f64_spacing(v as nat) == p * f64_spacing(w as nat),
            f64_spacing(v as nat) <= 0x1000,
            w == v as nat / (p as nat),
            1 <= p <= 0x1000,
        decreases w,
    {
        proof {
            lemma_spacing_facts(w as nat);
            let s2 = f64_spacing((w / 2) as nat);
            assert(f64_spacing(w as nat) == 2 * s2);
            assert(p * f64_spacing(w as nat) == (2 * p) * s2) by (nonlinear_arith)
                requires
                    f64_spacing(w as nat) == 2 * s2,
            ;
            lemma_spacing_facts((w / 2) as nat);
            assert(2 * p <= p * f64_spacing(w as nat)) by (nonlinear_arith)
                requires
                    f64_spacing(w as nat) >= 2,
                    p >= 1,
            ;
            vstd::arithmetic::div_mod::lemma_div_denominator(v as int, p as int, 2);
        }
        w = w / 2;
        p = p * 2;
    }
    assert(f64_spacing(w as nat) == 1);
    assert(p * f64_spacing(w as nat) == p) by (nonlinear_arith)
        requires
            f64_spacing(w as nat) == 1,
    ;
    let q = round_half_even(v as u128, p as u128);
    assert(q <= v / p + 1);
    assert(q * (p as u128) <= (v / p + 1) * p) by (nonlinear_arith)
        requires
            q <= v / p + 1,
    ;
    assert((v / p + 1) * p <= v + p) by (nonlinear_arith)
        requires
            p >= 1,
    ;
    q * (p as u128)
}

/// Appends `num / den` with one decimal place.
fn push_one_decimal(out: &mut String, num: u128, den: u128)
    requires
        1024 <= den <= 0x4000_0000,
        num <= 0x1_0000_0000_0000_1000,
    ensures
        final(out)@ == old(out)@ + one_decimal(num as nat, den as nat),
{
    let t = round_half_even(num * 10, den);
    assert((num as int * 10) / (den as int) <= (num as int * 10) / 1024) by (nonlinear_arith)
        requires
            den >= 1024,
    ;
    assert(t / 10 < 0x1_0000_0000_0000_0000);
    push_decimal(out, (t / 10) as u64);
    push_char(out, '.');
    push_char(out, digit_of((t % 10) as u64));
    assert(final(out)@ =~= old(out)@ + one_decimal(num as nat, den as nat));
}

/// Format bytes as human-readable size
pub fn format_size(bytes: u64) -> (r: String)
    ensures
        r@ == size_text(bytes as nat),
{
    let mut out = String::new();
    if bytes >= 1024 * 1024 * 1024 {
        push_one_decimal(&mut out, f64_of(bytes), 1024 * 1024 * 1024);
        push_char(&mut out, 'G');
        push_char(&mut out, 'B');
    } else if bytes >= 1024 * 1024 {
        push_one_decimal(&mut out, bytes as u128, 1024 * 1024);
        push_char(&mut out, 'M');
        push_char(&mut out, 'B');
    } else if bytes >= 1024 {
        push_one_decimal(&mut out, bytes as u128, 1024);
        push_char(&mut out, 'K');
        push_char(&mut out, 'B');
    } else {
        push_decimal(&mut out, bytes);
        push_char(&mut out, 'B');
    }
    assert(out@ =~= size_text(bytes as nat));
    out
}

} // verus!
