//! The texts shown on screen: the settings panel's output field, the
//! scrolling path line, a job's status, how a job's row is fitted to the
//! width of the list, and what the help bar shows.
use vstd::prelude::*;
use vstd::utf8::*;
use vstd::string::StringSliceAdditionalSpecFns;
use crate::app::{App, FocusedSection, SettingsField};
use crate::job::JobStatus;
use crate::settings::{collapse_tilde_with, collapsed};
use crate::text::{chars_of, push_char, string_of_range};

verus! {

// ---------------------------------------------------------------------------
// Bytes
// ---------------------------------------------------------------------------

/// The number of bytes of `s` in UTF-8 (std's `str::len`).
pub open spec fn byte_len(s: Seq<char>) -> nat {
    encode_utf8(s).len()
}

/// The characters of the first `k` bytes of `s` (std's `&s[..k]`).
pub open spec fn byte_prefix(s: Seq<char>, k: int) -> Seq<char> {
    decode_utf8(encode_utf8(s).subrange(0, k))
}

/// Byte `k` of `s` starts a character (or ends `s`), so `s` can be cut there.
pub open spec fn cuttable(s: Seq<char>, k: int) -> bool {
    is_char_boundary(encode_utf8(s), k)
}

/// The number of bytes of `s` in UTF-8.
pub fn bytes_of(s: &str) -> (r: usize)
    ensures
        r == byte_len(s@),
{
    s.as_bytes().len()
}

/// The first `k` bytes of `s`, which must end at a character boundary.
fn cut_bytes(s: &str, k: usize) -> (r: String)
    requires
        cuttable(s@, k as int),
    ensures
        r@ == byte_prefix(s@, k as int),
{
    let (a, _) = s.split_at(k);
    proof {
        encode_utf8_decode_utf8(a@);
    }
    String::from_str(a)
}

/// `a` saturating-minus `b`.
pub open spec fn sat_sub(a: nat, b: nat) -> nat {
    if a > b {
        (a - b) as nat
    } else {
        0
    }
}

// ---------------------------------------------------------------------------
// The settings panel
// ---------------------------------------------------------------------------

/// `field` is shown highlighted: the settings panel has the focus and the
/// field is the one selected.
pub open spec fn highlighted(app: App, field: SettingsField) -> bool {
    app.focused_section == FocusedSection::Settings && app.selected_setting == field
}

/// Whether the settings field `field` is shown highlighted.
pub fn is_highlighted(app: &App, field: SettingsField) -> (r: bool)
    ensures
        r == highlighted(*app, field),
{
    app.focused_section == FocusedSection::Settings && app.selected_setting == field
}

/// The text of the output directory field: what is being typed and a `|`
/// for the cursor while it is edited; else the directory, `~` for `home`.
pub open spec fn output_field(app: App, home: Option<Seq<char>>) -> Seq<char> {
    if app.editing_output {
        app.output_input@.push('|')
    } else {
        collapsed(app.settings.output_dir@, home)
    }
}

/// The text of the output directory field, with `~` read against `home`.
pub fn output_field_text(app: &App, home: &Option<String>) -> (r: String)
    ensures
        r@ == output_field(*app, home.deep_view()),
{
    if app.editing_output {
        let mut t = app.output_input.clone();
        push_char(&mut t, '|');
        t
    } else {
        collapse_tilde_with(app.settings.output_dir.as_str(), home)
    }
}

/// The hint after the output directory field: how to start editing when it
/// is selected, the editing keys while it is edited, else nothing.
pub open spec fn output_hint_text(app: App) -> Seq<char> {
    if highlighted(app, SettingsField::OutputDir) && !app.editing_output {
        " (Enter to edit)"@
    } else if app.editing_output {
        " (Tab=complete, Enter=save, Esc=cancel)"@
    } else {
        ""@
    }
}

/// The hint shown after the output directory field.
pub fn output_hint(app: &App) -> (r: &'static str)
    ensures
        r@ == output_hint_text(*app),
{
    if is_highlighted(app, SettingsField::OutputDir) && !app.editing_output {
        " (Enter to edit)"
    } else if app.editing_output {
        " (Tab=complete, Enter=save, Esc=cancel)"
    } else {
        ""
    }
}

// ---------------------------------------------------------------------------
// The help bar
// ---------------------------------------------------------------------------

/// What the help bar shows.
#[derive(Debug)]
pub enum HelpLine {
    /// The name being typed for the selected job's output
    Rename { typed: String },
    /// The current message, an error or not
    Message { text: String, is_error: bool },
    /// The key bindings
    Keys,
}

/// What the help bar shows: the name being typed while renaming; else the
/// message, if there is one; else the key bindings.
pub fn help_line(app: &App) -> (r: HelpLine)
    ensures
        app.editing_rename ==> (r matches HelpLine::Rename { typed } && typed@
            == app.rename_input@),
        !app.editing_rename && app.message is Some ==> (r matches HelpLine::Message {
            text,
            is_error,
        } && text@ == app.message->Some_0@ && is_error == app.message_is_error),
        !app.editing_rename && app.message is None ==> r is Keys,
{
    if app.editing_rename {
        HelpLine::Rename { typed: app.rename_input.clone() }
    } else {
        match &app.message {
            Some(m) => HelpLine::Message { text: m.clone(), is_error: app.message_is_error },
            None => HelpLine::Keys,
        }
    }
}

/// How a piece of the help bar is shown.
#[derive(Debug, Clone, Copy, PartialEq, Eq, Structural)]
pub enum HelpStyle {
    /// A key to press
    Key,
    /// What a key does, or the text around what is typed
    Description,
    /// A message that is no error
    Message,
    /// An error message
    Error,
}

/// A piece of text of the help bar and how it is shown.
#[derive(Debug)]
pub struct HelpPiece {
    pub text: String,
    pub style: HelpStyle,
}

/// The pieces of text of the help bar, in order, with how each is shown.
pub open spec fn help_texts(line: HelpLine) -> Seq<(Seq<char>, HelpStyle)> {
    match line {
        HelpLine::Rename { typed } => seq![
            ("Rename: "@, HelpStyle::Description),
            (typed@, HelpStyle::Key),
            (".gif  "@, HelpStyle::Description),
            ("(enter)"@, HelpStyle::Key),
            (" save "@, HelpStyle::Description),
            ("(esc)"@, HelpStyle::Key),
            (" cancel"@, HelpStyle::Description),
        ],
        HelpLine::Message { text, is_error } => seq![
            (
                text@,
                if is_error {
                    HelpStyle::Error
                } else {
                    HelpStyle::Message
                },
            ),
        ],
        HelpLine::Keys => seq![
            ("(p)"@, HelpStyle::Key),
            ("aste  "@, HelpStyle::Description),
            ("(y)"@, HelpStyle::Key),
            (" copy  "@, HelpStyle::Description),
            ("(x)"@, HelpStyle::Key),
            (" del  "@, HelpStyle::Description),
            ("(r)"@, HelpStyle::Key),
            ("ename  "@, HelpStyle::Description),
            ("(tab)"@, HelpStyle::Key),
            (" switch  "@, HelpStyle::Description),
            ("(j/k)"@, HelpStyle::Key),
            (" nav  "@, HelpStyle::Description),
            ("(q)"@, HelpStyle::Key),
            ("uit"@, HelpStyle::Description),
        ],
    }
}

/// The texts and styles of a list of pieces.
pub open spec fn pieces_view(pieces: Seq<HelpPiece>) -> Seq<(Seq<char>, HelpStyle)> {
    pieces.map_values(|p: HelpPiece| (p.text@, p.style))
}

fn add_piece(pieces: &mut Vec<HelpPiece>, text: &str, style: HelpStyle)
    ensures
        pieces_view(final(pieces)@) == pieces_view(old(pieces)@).push((text@, style)),
{
    pieces.push(HelpPiece { text: String::from_str(text), style });
    assert(pieces_view(pieces@) =~= pieces_view(old(pieces)@).push((text@, style)));
}

/// The pieces of text of the help bar for what it shows.
pub fn help_pieces(line: &HelpLine) -> (r: Vec<HelpPiece>)
    ensures
        pieces_view(r@) == help_texts(*line),
{
    let mut r: Vec<HelpPiece> = Vec::new();
    assert(pieces_view(r@) =~= Seq::<(Seq<char>, HelpStyle)>::empty());
    match line {
        HelpLine::Rename { typed } => {
            add_piece(&mut r, "Rename: ", HelpStyle::Description);
            add_piece(&mut r, typed.as_str(), HelpStyle::Key);
            add_piece(&mut r, ".gif  ", HelpStyle::Description);
            add_piece(&mut r, "(enter)", HelpStyle::Key);
            add_piece(&mut r, " save ", HelpStyle::Description);
            add_piece(&mut r, "(esc)", HelpStyle::Key);
            add_piece(&mut r, " cancel", HelpStyle::Description);
        },
        HelpLine::Message { text, is_error } => {
            let style = if *is_error {
                HelpStyle::Error
            } else {
                HelpStyle::Message
            };
            add_piece(&mut r, text.as_str(), style);
        },
        HelpLine::Keys => {
            add_piece(&mut r, "(p)", HelpStyle::Key);
            add_piece(&mut r, "aste  ", HelpStyle::Description);
            add_piece(&mut r, "(y)", HelpStyle::Key);
            add_piece(&mut r, " copy  ", HelpStyle::Description);
            add_piece(&mut r, "(x)", HelpStyle::Key);
            add_piece(&mut r, " del  ", HelpStyle::Description);
            add_piece(&mut r, "(r)", HelpStyle::Key);
            add_piece(&mut r, "ename  ", HelpStyle::Description);
            add_piece(&mut r, "(tab)", HelpStyle::Key);
            add_piece(&mut r, " switch  ", HelpStyle::Description);
            add_piece(&mut r, "(j/k)", HelpStyle::Key);
            add_piece(&mut r, " nav  ", HelpStyle::Description);
            add_piece(&mut r, "(q)", HelpStyle::Key);
            add_piece(&mut r, "uit", HelpStyle::Description);
        },
    }
    assert(pieces_view(r@) =~= help_texts(*line));
    r
}

// ---------------------------------------------------------------------------
// The path line
// ---------------------------------------------------------------------------

/// `input -> output`.
pub open spec fn path_info_text(input: Seq<char>, output: Seq<char>) -> Seq<char> {
    input + " -> "@ + output
}

/// The line showing where a job reads from and writes to.
pub fn path_info(input: &str, output: &str) -> (r: String)
    ensures
        r@ == path_info_text(input@, output@),
{
    let mut r = String::from_str(input);
    r.append(" -> ");
    r.append(output);
    r
}

/// The part of `text` shown in `max_width` characters: all of it when it fits;
/// otherwise `max_width` characters of `text`, three spaces and `text` again,
/// from position `offset` (taken modulo the length of `text`), so that the
/// text scrolls round.
pub open spec fn scrolled(text: Seq<char>, offset: u16, max_width: nat) -> Seq<char> {
    if text.len() > max_width {
        let o = (offset as int) % (text.len() as int);
        let padded = text + "   "@ + text;
        padded.subrange(o, o + max_width)
    } else {
        text
    }
}

/// The scrolling window onto a line too long for the bar.
pub fn scroll_window(text: &str, offset: u16, max_width: usize) -> (r: String)
    ensures
        r@ == scrolled(text@, offset, max_width as nat),
        r@.len() <= max_width || r@ == text@,
{
    let v = chars_of(text);
    let n = v.len();
    if n > max_width {
        let o = (offset as usize) % n;
        let mut padded = String::from_str(text);
        padded.append("   ");
        padded.append(text);
        proof {
            reveal_strlit("   ");
        }
        let pv = chars_of(padded.as_str());
        let pn = pv.len();
        assert(pn == 2 * n + 3);
        string_of_range(pv.as_slice(), o, o + max_width)
    } else {
        String::from_str(text)
    }
}

// ---------------------------------------------------------------------------
// A job's row
// ---------------------------------------------------------------------------

/// A failure message as shown: cut to its first 27 bytes and `...` when it is
/// longer than 30 bytes.
pub open spec fn short_error(err: Seq<char>) -> Seq<char> {
    if byte_len(err) > 30 {
        byte_prefix(err, 27) + "..."@
    } else {
        err
    }
}

/// The status part of a job's row. `converting` is the text shown while the
/// job converts (its progress bar and percentage); `size` is the output size
/// once known.
pub open spec fn status_part_text(
    status: JobStatus,
    converting: Seq<char>,
    size: Option<Seq<char>>,
) -> Seq<char> {
    match status {
        JobStatus::Pending => "[Pending]"@,
        JobStatus::Converting => converting,
        JobStatus::Complete => match size {
            Some(s) => "[Complete] "@ + s,
            None => "[Complete]"@,
        },
        JobStatus::Failed(err) => "[Failed: "@ + short_error(err@) + "]"@,
        JobStatus::Cancelled => "[Cancelled]"@,
    }
}

/// Cutting the failure message would split a character.
pub open spec fn status_text_panics(status: JobStatus) -> bool {
    match status {
        JobStatus::Failed(err) => byte_len(err@) > 30 && !cuttable(err@, 27),
        _ => false,
    }
}

/// Whether showing `status` would cut its failure message inside a character.
pub fn status_text_would_panic(status: &JobStatus) -> (r: bool)
    ensures
        r == status_text_panics(*status),
{
    match status {
        JobStatus::Failed(err) => bytes_of(err.as_str()) > 30 && !err.as_str().is_char_boundary(27),
        _ => false,
    }
}

/// The status part of a job's row.
pub fn status_text(status: &JobStatus, converting: &str, size: &Option<String>) -> (r: String)
    requires
        !status_text_panics(*status),
    ensures
        r@ == status_part_text(*status, converting@, size.deep_view()),
{
    match status {
        JobStatus::Pending => String::from_str("[Pending]"),
        JobStatus::Converting => String::from_str(converting),
        JobStatus::Complete => match size {
            Some(s) => {
                let mut r = String::from_str("[Complete] ");
                r.append(s.as_str());
                r
            },
            None => String::from_str("[Complete]"),
        },
        JobStatus::Failed(err) => {
            let short = if bytes_of(err.as_str()) > 30 {
                let mut c = cut_bytes(err.as_str(), 27);
                c.append("...");
                c
            } else {
                err.clone()
            };
            let mut r = String::from_str("[Failed: ");
            r.append(short.as_str());
            r.append("]");
            r
        },
        JobStatus::Cancelled => String::from_str("[Cancelled]"),
    }
}

/// The room for a job's path text: the width less borders and padding, less
/// the status part and the space around it.
pub open spec fn path_room(status_len: nat, width: u16) -> nat {
    sat_sub(sat_sub(width as nat, 4), status_len + 4)
}

/// The path text of a job's row: cut to fit, with `...`, when it is longer
/// than the room for it and the room holds more than three bytes.
pub open spec fn row_path(path: Seq<char>, status_len: nat, width: u16) -> Seq<char> {
    let room = path_room(status_len, width);
    if byte_len(path) > room && room > 3 {
        byte_prefix(path, room - 3) + "..."@
    } else {
        path
    }
}

/// The spaces between the path text and the status part of a job's row.
pub open spec fn row_padding(path: Seq<char>, status_len: nat, width: u16) -> nat {
    sat_sub(sat_sub(width as nat, 4), byte_len(row_path(path, status_len, width)) + status_len + 2)
}

/// Cutting the path text would split a character.
pub open spec fn row_layout_panics(path: Seq<char>, status_len: nat, width: u16) -> bool {
    let room = path_room(status_len, width);
    byte_len(path) > room && room > 3 && !cuttable(path, room - 3)
}

/// Whether fitting the path text would cut it inside a character.
pub fn row_layout_would_panic(path: &str, status_len: usize, width: u16) -> (r: bool)
    requires
        status_len + 4 <= usize::MAX,
    ensures
        r == row_layout_panics(path@, status_len as nat, width),
{
    let available = width.saturating_sub(4) as usize;
    let room = available.saturating_sub(status_len + 4);
    bytes_of(path) > room && room > 3 && !path.is_char_boundary(room - 3)
}

/// The path text of a job's row, and the number of spaces after it.
pub fn row_layout(path: &str, status_len: usize, width: u16) -> (r: (String, usize))
    requires
        status_len + 4 <= usize::MAX,
        !row_layout_panics(path@, status_len as nat, width),
    ensures
        r.0@ == row_path(path@, status_len as nat, width),
        r.1 == row_padding(path@, status_len as nat, width),
{
    let available = width.saturating_sub(4) as usize;
    let room = available.saturating_sub(status_len + 4);
    let shown = if bytes_of(path) > room && room > 3 {
        let mut c = cut_bytes(path, room - 3);
        c.append("...");
        c
    } else {
        String::from_str(path)
    };
    let shown_len = bytes_of(shown.as_str());
    let padding = available.saturating_sub(shown_len.saturating_add(status_len + 2));
    (shown, padding)
}

} // verus!
