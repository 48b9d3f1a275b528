//! Key presses as the application reads them, and which of them are
//! commands.
use vstd::prelude::*;

verus! {

/// The key pressed.
#[derive(Debug, Clone, Copy, PartialEq, Eq, Structural)]
pub enum KeyCode {
    /// A character key
    Char(char),
    Enter,
    Esc,
    Backspace,
    Tab,
    BackTab,
    Up,
    Down,
    Left,
    Right,
    /// Any other key
    Other,
}

/// The modifier keys held.
#[derive(Debug, Clone, Copy, PartialEq, Eq, Structural)]
pub struct KeyModifiers {
    pub shift: bool,
    pub control: bool,
    pub alt: bool,
    pub super_key: bool,
    pub hyper: bool,
    pub meta: bool,
}

/// A key press.
#[derive(Debug, Clone, Copy, PartialEq, Eq, Structural)]
pub struct KeyEvent {
    pub code: KeyCode,
    pub modifiers: KeyModifiers,
}

/// No modifier held.
pub open spec fn no_modifiers() -> KeyModifiers {
    KeyModifiers {
        shift: false,
        control: false,
        alt: false,
        super_key: false,
        hyper: false,
        meta: false,
    }
}

/// Cmd+V (macOS) or Ctrl+V, with no other modifier held.
pub open spec fn paste_key(key: KeyEvent) -> bool {
    key.code == KeyCode::Char('v') && (key.modifiers == KeyModifiers {
        super_key: true,
        ..no_modifiers()
    } || key.modifiers == KeyModifiers { control: true, ..no_modifiers() })
}

/// `q` or Esc.
pub open spec fn quit_key(key: KeyEvent) -> bool {
    key.code == KeyCode::Char('q') || key.code == KeyCode::Esc
}

/// Up arrow or `k`.
pub open spec fn up_key(key: KeyEvent) -> bool {
    key.code == KeyCode::Up || key.code == KeyCode::Char('k')
}

/// Down arrow or `j`.
pub open spec fn down_key(key: KeyEvent) -> bool {
    key.code == KeyCode::Down || key.code == KeyCode::Char('j')
}

/// Left arrow or `h`.
pub open spec fn left_key(key: KeyEvent) -> bool {
    key.code == KeyCode::Left || key.code == KeyCode::Char('h')
}

/// Right arrow or `l`.
pub open spec fn right_key(key: KeyEvent) -> bool {
    key.code == KeyCode::Right || key.code == KeyCode::Char('l')
}

/// The navigation keys are the arrows and the vim keys: `k` up, `j` down,
/// `h` left, `l` right; no key moves in two directions.
pub proof fn lemma_navigation_keys(key: KeyEvent)
    ensures
        up_key(key) == (key.code == KeyCode::Up || key.code == KeyCode::Char('k')),
        down_key(key) == (key.code == KeyCode::Down || key.code == KeyCode::Char('j')),
        left_key(key) == (key.code == KeyCode::Left || key.code == KeyCode::Char('h')),
        right_key(key) == (key.code == KeyCode::Right || key.code == KeyCode::Char('l')),
        !(up_key(key) && down_key(key)),
        !(left_key(key) && right_key(key)),
        !((up_key(key) || down_key(key)) && (left_key(key) || right_key(key))),
        quit_key(key) == (key.code == KeyCode::Char('q') || key.code == KeyCode::Esc),
{
}

/// Check if a key event is a paste command (Cmd+V on macOS or Ctrl+V)
pub fn is_paste_key(key: &KeyEvent) -> (r: bool)
    ensures
        r == paste_key(*key),
{
    let m = key.modifiers;
    let only_super = m.super_key && !m.shift && !m.control && !m.alt && !m.hyper && !m.meta;
    let only_control = m.control && !m.shift && !m.super_key && !m.alt && !m.hyper && !m.meta;
    match key.code {
        KeyCode::Char(c) => c == 'v' && (only_super || only_control),
        _ => false,
    }
}

/// Check if a key event is a quit command
pub fn is_quit_key(key: &KeyEvent) -> (r: bool)
    ensures
        r == quit_key(*key),
{
    match key.code {
        KeyCode::Char(c) => c == 'q',
        KeyCode::Esc => true,
        _ => false,
    }
}

/// Check if a key event is navigation up
pub fn is_up_key(key: &KeyEvent) -> (r: bool)
    ensures
        r == up_key(*key),
{
    match key.code {
        KeyCode::Char(c) => c == 'k',
        KeyCode::Up => true,
        _ => false,
    }
}

/// Check if a key event is navigation down
pub fn is_down_key(key: &KeyEvent) -> (r: bool)
    ensures
        r == down_key(*key),
{
    match key.code {
        KeyCode::Char(c) => c == 'j',
        KeyCode::Down => true,
        _ => false,
    }
}

/// Check if a key event is navigation left
pub fn is_left_key(key: &KeyEvent) -> (r: bool)
    ensures
        r == left_key(*key),
{
    match key.code {
        KeyCode::Char(c) => c == 'h',
        KeyCode::Left => true,
        _ => false,
    }
}

/// Check if a key event is navigation right
pub fn is_right_key(key: &KeyEvent) -> (r: bool)
    ensures
        r == right_key(*key),
{
    match key.code {
        KeyCode::Char(c) => c == 'l',
        KeyCode::Right => true,
        _ => false,
    }
}

} // verus!
