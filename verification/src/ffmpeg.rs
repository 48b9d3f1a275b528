//! The FFmpeg command line for a conversion, and the reading of what FFmpeg
//! reports while it runs.
use vstd::prelude::*;
use crate::settings::Settings;
use crate::text::{
    chars_of, decimal, digit_char, find_char, push_char, push_chars,
    push_decimal, push_signed_decimal, signed_decimal, string_of, trim, trim_chars, before_first,
};

verus! {

// ---------------------------------------------------------------------------
// Command line
// ---------------------------------------------------------------------------

/// The filters before the palette split: the frame rate, then the scale filter if any.
pub open spec fn base_filters(s: Settings) -> Seq<char> {
    let fps = "fps="@ + decimal(s.fps.fps() as nat);
    match s.scale.scale_filter() {
        Some(f) => fps + seq![','] + f,
        None => fps,
    }
}

/// The complete `-filter_complex` graph: palette generation and use, for
/// high-quality GIF colours.
pub open spec fn filter_chain(s: Settings) -> Seq<char> {
    "[0:v]"@ + base_filters(s)
        + ",split[a][b];[a]palettegen=stats_mode=diff[palette];[b][palette]paletteuse=dither="@
        + s.quality.dither()
}

/// Build the FFmpeg filter chain for high-quality GIF conversion
/// Uses palette generation for better color quality
pub fn build_filter_chain(settings: &Settings) -> (r: String)
    ensures
        r@ == filter_chain(*settings),
{
    let fps = settings.fps.value();
    let dither = settings.quality.dither_option();
    let mut out = String::from_str("[0:v]");
    let ghost mark = out@;
    out.append("fps=");
    push_decimal(&mut out, fps as u64);
    match settings.scale.ffmpeg_scale() {
        Some(scale) => {
            push_char(&mut out, ',');
            push_chars(&mut out, chars_of(scale.as_str()).as_slice());
        },
        None => {},
    }
    assert(out@ =~= mark + base_filters(*settings));
    out.append(",split[a][b];[a]palettegen=stats_mode=diff[palette];[b][palette]paletteuse=dither=");
    out.append(dither);
    assert(out@ =~= filter_chain(*settings));
    out
}

/// Get the -loop argument value for the GIF
pub fn get_loop_arg(settings: &Settings) -> (r: String)
    ensures
        r@ == signed_decimal(settings.loop_count.loop_value() as int),
{
    let mut out = String::new();
    push_signed_decimal(&mut out, settings.loop_count.ffmpeg_loop_value() as i64);
    assert(out@ =~= signed_decimal(settings.loop_count.loop_value() as int));
    out
}

// ---------------------------------------------------------------------------
// Numbers
// ---------------------------------------------------------------------------

/// `c` is an ASCII decimal digit.
pub open spec fn is_digit(c: char) -> bool {
    '0' <= c <= '9'
}

/// The value of the decimal digits `s`.
pub open spec fn digits_value(s: Seq<char>) -> nat
    decreases s.len(),
{
    if s.len() == 0 {
        0
    } else {
        digits_value(s.drop_last()) * 10 + ((s.last() as u32) - ('0' as u32)) as nat
    }
}

/// The digits of an unsigned number as std's `str::parse::<u64>` reads it:
/// everything after an optional leading `+`.
pub open spec fn unsigned_digits(s: Seq<char>) -> Seq<char> {
    if s.len() > 0 && s[0] == '+' {
        s.skip(1)
    } else {
        s
    }
}

/// std's `str::parse::<u64>`: an optional `+`, then one or more decimal
/// digits whose value fits in 64 bits.
pub open spec fn parse_u64_spec(s: Seq<char>) -> Option<u64> {
    let d = unsigned_digits(s);
    if d.len() > 0 && (forall|i: int| 0 <= i < d.len() ==> is_digit(#[trigger] d[i]))
        && digits_value(d) <= u64::MAX {
        Some(digits_value(d) as u64)
    } else {
        None
    }
}

proof fn lemma_digit_char_value(d: nat)
    requires
        d < 10,
    ensures
        is_digit(digit_char(d)),
        ((digit_char(d) as u32) - ('0' as u32)) as nat == d,
{
}

/// Writing a number in decimal and reading it back gives the number: the
/// text is all digits, their value is the number, and `str::parse::<u64>`
/// reads it whenever it fits.
pub proof fn lemma_decimal_reads_back(n: nat)
    ensures
        forall|i: int| 0 <= i < decimal(n).len() ==> is_digit(#[trigger] decimal(n)[i]),
        digits_value(decimal(n)) == n,
        decimal(n).len() > 0,
        n <= u64::MAX ==> parse_u64_spec(decimal(n)) == Some(n as u64),
    decreases n,
{
    lemma_digit_char_value(n % 10);
    if n < 10 {
        let d = decimal(n);
        assert(d.drop_last() =~= Seq::<char>::empty());
        assert(digits_value(d) == digits_value(d.drop_last()) * 10 + ((d.last() as u32) - (
        '0' as u32)) as nat);
    } else {
        lemma_decimal_reads_back(n / 10);
        let d = decimal(n);
        assert(d.drop_last() =~= decimal(n / 10));
        assert(d.last() == digit_char(n % 10));
        assert(digits_value(d) == digits_value(d.drop_last()) * 10 + ((d.last() as u32) - (
        '0' as u32)) as nat);
        assert forall|i: int| 0 <= i < d.len() implies is_digit(#[trigger] d[i]) by {
            if i < d.len() - 1 {
                assert(d[i] == decimal(n / 10)[i]);
            }
        }
    }
    let d = decimal(n);
    if n <= u64::MAX {
        assert(unsigned_digits(d) == d);
    }
}

proof fn lemma_digits_value_grows(s: Seq<char>, k: int)
    requires
        0 <= k <= s.len(),
        forall|i: int| 0 <= i < s.len() ==> is_digit(#[trigger] s[i]),
    ensures
        digits_value(s.take(k)) <= digits_value(s),
    decreases s.len() - k,
{
    if k < s.len() {
        lemma_digits_value_grows(s, k + 1);
        assert(s.take(k + 1).drop_last() =~= s.take(k));
    } else {
        assert(s.take(k) =~= s);
    }
}

/// Reads an unsigned decimal number as std's `str::parse::<u64>` does.
pub fn parse_u64(s: &[char]) -> (r: Option<u64>)
    ensures
        r == parse_u64_spec(s@),
{
    let start: usize = if s.len() > 0 && s[0] == '+' {
        1
    } else {
        0
    };
    let ghost d = unsigned_digits(s@);
    assert(d =~= s@.skip(start as int));
    let n = s.len();
    if start >= n {
        return None;
    }
    let mut value: u64 = 0;
    let mut i = start;
    assert(d.take(0) =~= Seq::<char>::empty());
    while i < n
        invariant
            start <= i <= n == s@.len(),
            d == unsigned_digits(s@),
            d =~= s@.skip(start as int),
            forall|k: int| 0 <= k < i - start ==> is_digit(#[trigger] d[k]),
            value == digits_value(d.take(i - start)),
        decreases n - i,
    {
        let c = s[i];
        if !('0' <= c && c <= '9') {
            assert(!is_digit(d[i - start]));
            return None;
        }
        assert(d.take(i + 1 - start).drop_last() =~= d.take(i - start));
        let dv = (c as u32 - '0' as u32) as u64;
        if value > (u64::MAX - dv) / 10 {
            proof {
                let k = i + 1 - start;
                assert(d.take(k as int).last() == c);
                assert(digits_value(d.take(k as int)) == value * 10 + dv);
                assert(value * 10 + dv > u64::MAX) by (nonlinear_arith)
                    requires
                        value > (u64::MAX - dv) / 10,
                        dv <= 9,
                ;
                // the remaining digits only make the value larger
                if forall|j: int| 0 <= j < d.len() ==> is_digit(#[trigger] d[j]) {
                    lemma_digits_value_grows(d, k as int);
                }
            }
            return None;
        }
        value = value * 10 + dv;
        i = i + 1;
    }
    assert(d.take(n - start) =~= d);
    Some(value)
}

// ---------------------------------------------------------------------------
// FFmpeg's progress report
// ---------------------------------------------------------------------------

/// One line of FFmpeg's `-progress` report, as the conversion reads it.
#[derive(Debug, Clone, Copy, PartialEq, Eq, Structural)]
pub enum ProgressLine {
    /// `frame=N`: the number of frames written so far
    Frame(u64),
    /// `out_time_us=N`: the output time reached, in microseconds
    OutTimeUs(u64),
    /// `progress=end`: FFmpeg has finished
    End,
    /// Anything else
    Other,
}

/// `line` split at its first `=`: the key before it and the value after it.
pub open spec fn key_value(line: Seq<char>) -> Option<(Seq<char>, Seq<char>)> {
    let k = before_first(line, '=');
    if k.len() < line.len() {
        Some((k, line.skip(k.len() as int + 1)))
    } else {
        None
    }
}

/// How the conversion reads a line of FFmpeg's progress report: the trimmed key
/// `frame` or `out_time_us` with a value that parses as a number, or the key
/// `progress` with the trimmed value `end`.
pub open spec fn progress_line(line: Seq<char>) -> ProgressLine {
    match key_value(line) {
        Some((k, v)) => {
            let key = trim(k);
            let value = trim(v);
            if key == "frame"@ {
                match parse_u64_spec(value) {
                    Some(f) => ProgressLine::Frame(f),
                    None => ProgressLine::Other,
                }
            } else if key == "out_time_us"@ {
                match parse_u64_spec(value) {
                    Some(t) => ProgressLine::OutTimeUs(t),
                    None => ProgressLine::Other,
                }
            } else if key == "progress"@ && value == "end"@ {
                ProgressLine::End
            } else {
                ProgressLine::Other
            }
        },
        None => ProgressLine::Other,
    }
}

fn chars_eq(a: &[char], b: &str) -> (r: bool)
    ensures
        r == (a@ == b@),
{
    let bv = chars_of(b);
    if a.len() != bv.len() {
        return false;
    }
    let n = a.len();
    let mut i: usize = 0;
    while i < n
        invariant
            n == a@.len() == bv@.len(),
            bv@ == b@,
            i <= n,
            forall|j: int| 0 <= j < i ==> a@[j] == bv@[j],
        decreases n - i,
    {
        if a[i] != bv[i] {
            return false;
        }
        i = i + 1;
    }
    assert(a@ =~= bv@);
    true
}

/// Read one line of FFmpeg's progress report.
pub fn parse_progress_line(line: &str) -> (r: ProgressLine)
    ensures
        r == progress_line(line@),
{
    let v = chars_of(line);
    let n = v.len();
    let found = find_char(v.as_slice(), '=');
    let eq = match found {
        Some(i) => i,
        None => return ProgressLine::Other,
    };
    assert(found == Some(eq));
    assert((eq as int) < v@.len());
    let key_raw = crate::text::string_of_range(v.as_slice(), 0, eq);
    let value_raw = crate::text::string_of_range(v.as_slice(), eq + 1, n);
    assert(key_raw@ == before_first(line@, '='));
    assert(value_raw@ =~= line@.skip(eq + 1));
    let key = trim_chars(chars_of(key_raw.as_str()).as_slice());
    let value = trim_chars(chars_of(value_raw.as_str()).as_slice());
    if chars_eq(key.as_slice(), "frame") {
        match parse_u64(value.as_slice()) {
            Some(f) => ProgressLine::Frame(f),
            None => ProgressLine::Other,
        }
    } else if chars_eq(key.as_slice(), "out_time_us") {
        match parse_u64(value.as_slice()) {
            Some(t) => ProgressLine::OutTimeUs(t),
            None => ProgressLine::Other,
        }
    } else if chars_eq(key.as_slice(), "progress") && chars_eq(value.as_slice(), "end") {
        ProgressLine::End
    } else {
        ProgressLine::Other
    }
}

/// What the conversion does after reading a line of the progress report.
#[derive(Debug, Clone, Copy, PartialEq, Eq, Structural)]
pub enum ProgressAction {
    /// Report progress: the frames written so far and the output time reached
    Report { frame: u64, out_time_us: u64 },
    /// FFmpeg has finished writing; stop reading
    Finish,
    /// The job was cancelled: stop FFmpeg and report the cancellation
    Cancel,
    /// Nothing to do for this line
    Continue,
}

/// The running reader of FFmpeg's progress report: it remembers the last
/// frame count, which is sent along with each output time.
#[derive(Debug, Clone, Copy, PartialEq, Eq, Structural)]
pub struct ProgressReader {
    pub current_frame: u64,
}

impl ProgressReader {
    /// A reader that has seen no line yet.
    pub fn new() -> (r: Self)
        ensures
            r.current_frame == 0,
    {
        ProgressReader { current_frame: 0 }
    }

    /// Read one line: a frame count is remembered, an output time is reported
    /// with the remembered frame count, and `progress=end` finishes.
    pub fn read_line(&mut self, line: &str) -> (r: ProgressAction)
        ensures
            match progress_line(line@) {
                ProgressLine::Frame(f) => final(self).current_frame == f && r
                    == ProgressAction::Continue,
                ProgressLine::OutTimeUs(t) => *final(self) == *old(self) && r
                    == (ProgressAction::Report { frame: old(self).current_frame, out_time_us: t }),
                ProgressLine::End => *final(self) == *old(self) && r == ProgressAction::Finish,
                ProgressLine::Other => *final(self) == *old(self) && r == ProgressAction::Continue,
            },
    {
        match parse_progress_line(line) {
            ProgressLine::Frame(f) => {
                self.current_frame = f;
                ProgressAction::Continue
            },
            ProgressLine::OutTimeUs(t) => ProgressAction::Report {
                frame: self.current_frame,
                out_time_us: t,
            },
            ProgressLine::End => ProgressAction::Finish,
            ProgressLine::Other => ProgressAction::Continue,
        }
    }
}

impl ProgressReader {
    /// The step taken when the next line of the report arrives: a cancelled
    /// job stops before the line is read; a line that could not be read is
    /// passed over; any other line is read.
    pub fn next_line(&mut self, cancelled: bool, line: &Option<String>) -> (r: ProgressAction)
        ensures
            cancelled ==> r == ProgressAction::Cancel && *final(self) == *old(self),
            !cancelled && line is None ==> r == ProgressAction::Continue && *final(self)
                == *old(self),
            !cancelled && line is Some ==> match progress_line(line->Some_0@) {
                ProgressLine::Frame(f) => final(self).current_frame == f && r
                    == ProgressAction::Continue,
                ProgressLine::OutTimeUs(t) => *final(self) == *old(self) && r
                    == (ProgressAction::Report { frame: old(self).current_frame, out_time_us: t }),
                ProgressLine::End => *final(self) == *old(self) && r == ProgressAction::Finish,
                ProgressLine::Other => *final(self) == *old(self) && r == ProgressAction::Continue,
            },
    {
        if cancelled {
            return ProgressAction::Cancel;
        }
        match line {
            Some(l) => self.read_line(l.as_str()),
            None => ProgressAction::Continue,
        }
    }
}

// ---------------------------------------------------------------------------
// FFmpeg's error output
// ---------------------------------------------------------------------------

/// Reads `s` from the left, splitting at `\n`: the lines finished so far
/// (without their `\n`, and without a `\r` just before it) and the line being read.
pub open spec fn scan_lines(s: Seq<char>) -> (Seq<Seq<char>>, Seq<char>)
    decreases s.len(),
{
    if s.len() == 0 {
        (Seq::empty(), Seq::empty())
    } else {
        let prev = scan_lines(s.drop_last());
        if s.last() == '\n' {
            (prev.0.push(strip_cr(prev.1)), Seq::empty())
        } else {
            (prev.0, prev.1.push(s.last()))
        }
    }
}

/// `l` without one trailing `\r`.
pub open spec fn strip_cr(l: Seq<char>) -> Seq<char> {
    if l.len() > 0 && l.last() == '\r' {
        l.drop_last()
    } else {
        l
    }
}

/// The lines of `s` (std's `str::lines`): split at `\n`, a `\r` before the
/// `\n` removed, no empty line after a final `\n`.
pub open spec fn lines(s: Seq<char>) -> Seq<Seq<char>> {
    let sc = scan_lines(s);
    if sc.1.len() > 0 {
        sc.0.push(sc.1)
    } else {
        sc.0
    }
}

/// A line worth reporting: not blank, and not indented with a space.
pub open spec fn meaningful(l: Seq<char>) -> bool {
    trim(l).len() > 0 && !(l.len() > 0 && l[0] == ' ')
}

/// The last meaningful line of `ls`, if any.
pub open spec fn last_meaningful(ls: Seq<Seq<char>>) -> Option<Seq<char>>
    decreases ls.len(),
{
    if ls.len() == 0 {
        None
    } else if meaningful(ls.last()) {
        Some(ls.last())
    } else {
        last_meaningful(ls.drop_last())
    }
}

/// The message reported for a failed FFmpeg run: the last meaningful line of
/// its error output, or `Unknown error`.
pub open spec fn error_message(stderr: Seq<char>) -> Seq<char> {
    match last_meaningful(lines(stderr)) {
        Some(l) => l,
        None => "Unknown error"@,
    }
}

/// The lines of `s`, each as its characters.
fn lines_of(s: &[char]) -> (r: Vec<Vec<char>>)
    ensures
        r@.len() == lines(s@).len(),
        forall|k: int| 0 <= k < r@.len() ==> #[trigger] r@[k]@ == lines(s@)[k],
{
    let n = s.len();
    let mut out: Vec<Vec<char>> = Vec::new();
    let mut cur: Vec<char> = Vec::new();
    let ghost mut g: Seq<Seq<char>> = Seq::empty();
    let mut i: usize = 0;
    assert(s@.take(0) =~= Seq::<char>::empty());
    while i < n
        invariant
            n == s@.len(),
            i <= n,
            (g, cur@) == scan_lines(s@.take(i as int)),
            out@.len() == g.len(),
            forall|k: int| 0 <= k < out@.len() ==> #[trigger] out@[k]@ == g[k],
        decreases n - i,
    {
        assert(s@.take(i + 1).drop_last() =~= s@.take(i as int));
        let c = s[i];
        if c == '\n' {
            let k = cur.len();
            if k > 0 && cur[k - 1] == '\r' {
                cur.pop();
            }
            proof {
                g = g.push(cur@);
            }
            out.push(cur);
            cur = Vec::new();
        } else {
            cur.push(c);
        }
        i = i + 1;
    }
    assert(s@.take(n as int) =~= s@);
    if cur.len() > 0 {
        proof {
            g = g.push(cur@);
        }
        out.push(cur);
    }
    out
}

fn is_meaningful(l: &Vec<char>) -> (r: bool)
    ensures
        r == meaningful(l@),
{
    let t = trim_chars(l.as_slice());
    t.len() > 0 && !(l.len() > 0 && l[0] == ' ')
}

/// Extract the last meaningful line from FFmpeg's error output.
pub fn last_error_line(stderr: &str) -> (r: String)
    ensures
        r@ == error_message(stderr@),
{
    let v = chars_of(stderr);
    let ls = lines_of(v.as_slice());
    let ghost all = lines(stderr@);
    let mut j = ls.len();
    assert(all.take(j as int) =~= all);
    while j > 0
        invariant
            j <= ls@.len() == all.len(),
            all == lines(stderr@),
            forall|k: int| 0 <= k < ls@.len() ==> #[trigger] ls@[k]@ == all[k],
            last_meaningful(all) == last_meaningful(all.take(j as int)),
        decreases j,
    {
        assert(all.take(j as int).drop_last() =~= all.take(j - 1));
        assert(all.take(j as int).last() == all[j - 1]);
        if is_meaningful(&ls[j - 1]) {
            return string_of(ls[j - 1].as_slice());
        }
        j = j - 1;
    }
    String::from_str("Unknown error")
}

/// The outcome of a finished FFmpeg run, given whether it exited successfully,
/// whether the output file exists, and its error output.
pub open spec fn run_outcome(success: bool, output_exists: bool, stderr: Seq<char>) -> Result<
    (),
    Seq<char>,
> {
    if success && output_exists {
        Ok(())
    } else {
        Err(error_message(stderr))
    }
}

/// Decide how a finished FFmpeg run ended: `Ok` when it exited successfully
/// and wrote the output file, else the error message to report.
pub fn conversion_outcome(success: bool, output_exists: bool, stderr: &str) -> (r: Result<(), String>)
    ensures
        match (r, run_outcome(success, output_exists, stderr@)) {
            (Ok(()), Ok(())) => true,
            (Err(m), Err(e)) => m@ == e,
            _ => false,
        },
{
    if success && output_exists {
        Ok(())
    } else {
        Err(last_error_line(stderr))
    }
}

/// The executable path printed by `which`: its output trimmed, if anything is left.
pub fn which_output_path(stdout: &str) -> (r: Option<String>)
    ensures
        r.deep_view() == (if trim(stdout@).len() > 0 {
            Some(trim(stdout@))
        } else {
            None
        }),
{
    let t = trim_chars(chars_of(stdout).as_slice());
    if t.len() > 0 {
        Some(string_of(t.as_slice()))
    } else {
        None
    }
}

} // verus!
