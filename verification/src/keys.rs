//! Key presses as the terminal reports them, and the help popup that every
//! screen shares.
use vstd::prelude::*;

verus! {

/// The key pressed.
#[derive(Debug, Clone, Copy, PartialEq, Eq, Structural)]
pub enum KeyCode {
    Char(char),
    Enter,
    Esc,
    Tab,
    Backspace,
    Delete,
    Left,
    Right,
    Up,
    Down,
    Home,
    End,
    PageUp,
    PageDown,
    /// A function key, by number.
    F(u8),
    /// Any other key.
    Other,
}

/// A key press with the modifiers held.
#[derive(Debug, Clone, Copy, PartialEq, Eq, Structural)]
pub struct Key {
    pub code: KeyCode,
    pub ctrl: bool,
    pub alt: bool,
}

impl Key {
    /// A key pressed without modifiers.
    pub fn plain(code: KeyCode) -> (k: Key)
        ensures
            k == (Key { code, ctrl: false, alt: false }),
    {
        Key { code, ctrl: false, alt: false }
    }

    /// A key pressed with Ctrl held.
    pub fn ctrl(code: KeyCode) -> (k: Key)
        ensures
            k == (Key { code, ctrl: true, alt: false }),
    {
        Key { code, ctrl: true, alt: false }
    }
}

/// Ctrl+C quits from every screen.
pub open spec fn is_quit(key: Key) -> bool {
    key.code == KeyCode::Char('c') && key.ctrl
}

/// Whether the key quits the program.
pub fn quits(key: Key) -> (b: bool)
    ensures
        b == is_quit(key),
{
    match key.code {
        KeyCode::Char(c) => c == 'c' && key.ctrl,
        _ => false,
    }
}

/// `a - b`, or 0 when `b` exceeds `a`.
pub open spec fn sat_sub16(a: u16, b: u16) -> u16 {
    if a >= b { (a - b) as u16 } else { 0 }
}

/// `a + b`, or `u16::MAX` when the sum does not fit.
pub open spec fn sat_add16(a: u16, b: u16) -> u16 {
    if a + b <= u16::MAX { (a + b) as u16 } else { u16::MAX }
}

/// The help popup after `key`: shown or not, its scroll, and whether the
/// popup took the key. F1 toggles it (back to the top); while it is shown
/// it takes every key.
pub open spec fn help_after(show: bool, scroll: u16, key: Key) -> (bool, u16, bool) {
    if key.code == KeyCode::F(1) {
        (!show, 0, true)
    } else if show {
        match key.code {
            KeyCode::Esc | KeyCode::Char('q') => (false, scroll, true),
            KeyCode::Up | KeyCode::Char('k') => (true, sat_sub16(scroll, 1), true),
            KeyCode::Down | KeyCode::Char('j') => (true, sat_add16(scroll, 1), true),
            KeyCode::PageUp => (true, sat_sub16(scroll, 10), true),
            KeyCode::PageDown => (true, sat_add16(scroll, 10), true),
            _ => (true, scroll, true),
        }
    } else {
        (show, scroll, false)
    }
}

/// Applies `key` to the help popup; returns whether the popup took it.
pub fn help_key(show: &mut bool, scroll: &mut u16, key: Key) -> (taken: bool)
    ensures
        (*final(show), *final(scroll), taken) == help_after(*old(show), *old(scroll), key),
{
    if key.code == KeyCode::F(1) {
        *show = !*show;
        *scroll = 0;
        return true;
    }
    if *show {
        match key.code {
            KeyCode::Esc | KeyCode::Char('q') => {
                *show = false;
            },
            KeyCode::Up | KeyCode::Char('k') => {
                *scroll = scroll.saturating_sub(1);
            },
            KeyCode::Down | KeyCode::Char('j') => {
                *scroll = scroll.saturating_add(1);
            },
            KeyCode::PageUp => {
                *scroll = scroll.saturating_sub(10);
            },
            KeyCode::PageDown => {
                *scroll = scroll.saturating_add(10);
            },
            _ => {},
        }
        return true;
    }
    false
}

} // verus!
