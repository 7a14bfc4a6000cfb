//! Keyboard input as the panels read it: a key code plus modifier flags.
//! The terminal front end translates its own events into these.

use vstd::prelude::*;

verus! {

#[derive(Debug, Clone, Copy, PartialEq, Eq, Structural)]
pub enum KeyCode {
    Char(char),
    Up,
    Down,
    Left,
    Right,
    Enter,
    Esc,
    Backspace,
    Tab,
    BackTab,
    Home,
    End,
    PageUp,
    PageDown,
    Delete,
    Insert,
    F(u8),
    Null,
}

/// Which modifier keys were held.
#[allow(non_camel_case_types)]
#[derive(Debug, Clone, Copy, PartialEq, Eq)]
pub enum KeyModifiers {
    NONE,
    SHIFT,
    CONTROL,
    ALT,
    CONTROL_SHIFT,
    CONTROL_ALT,
    SHIFT_ALT,
    CONTROL_SHIFT_ALT,
}

impl KeyModifiers {
    pub open spec fn has_control(self) -> bool {
        self is CONTROL || self is CONTROL_SHIFT || self is CONTROL_ALT || self is CONTROL_SHIFT_ALT
    }

    pub open spec fn has_shift(self) -> bool {
        self is SHIFT || self is CONTROL_SHIFT || self is SHIFT_ALT || self is CONTROL_SHIFT_ALT
    }

    pub open spec fn has_alt(self) -> bool {
        self is ALT || self is CONTROL_ALT || self is SHIFT_ALT || self is CONTROL_SHIFT_ALT
    }

    fn flags(&self) -> (r: (bool, bool, bool))
        ensures
            r == (self.has_control(), self.has_shift(), self.has_alt()),
    {
        match self {
            KeyModifiers::NONE => (false, false, false),
            KeyModifiers::SHIFT => (false, true, false),
            KeyModifiers::CONTROL => (true, false, false),
            KeyModifiers::ALT => (false, false, true),
            KeyModifiers::CONTROL_SHIFT => (true, true, false),
            KeyModifiers::CONTROL_ALT => (true, false, true),
            KeyModifiers::SHIFT_ALT => (false, true, true),
            KeyModifiers::CONTROL_SHIFT_ALT => (true, true, true),
        }
    }

    /// Every modifier held in `other` is held in `self`.
    pub fn contains(&self, other: KeyModifiers) -> (r: bool)
        ensures
            r == ((other.has_control() ==> self.has_control()) && (other.has_shift()
                ==> self.has_shift()) && (other.has_alt() ==> self.has_alt())),
    {
        let (c, s, a) = self.flags();
        let (oc, os, oa) = other.flags();
        (!oc || c) && (!os || s) && (!oa || a)
    }
}

#[derive(Debug, Clone, Copy, PartialEq, Eq)]
pub struct KeyEvent {
    pub code: KeyCode,
    pub modifiers: KeyModifiers,
}

impl KeyEvent {
    pub fn new(code: KeyCode, modifiers: KeyModifiers) -> (r: KeyEvent)
        ensures
            r.code == code,
            r.modifiers == modifiers,
    {
        KeyEvent { code, modifiers }
    }

    /// A key press with no modifiers held.
    pub fn from_code(code: KeyCode) -> (r: KeyEvent)
        ensures
            r.code == code,
            r.modifiers == KeyModifiers::NONE,
    {
        KeyEvent { code, modifiers: KeyModifiers::NONE }
    }
}

/// The keys a text editor distinguishes: the key codes it has no use for
/// (back-tab, insert, null) all read as `Null`.
#[derive(Debug, Clone, Copy, PartialEq, Eq)]
pub enum TextKey {
    Char(char),
    F(u8),
    Backspace,
    Enter,
    Left,
    Right,
    Up,
    Down,
    Tab,
    Delete,
    Home,
    End,
    PageUp,
    PageDown,
    Esc,
    Null,
}

pub open spec fn text_key_of(code: KeyCode) -> TextKey {
    match code {
        KeyCode::Char(c) => TextKey::Char(c),
        KeyCode::F(n) => TextKey::F(n),
        KeyCode::Backspace => TextKey::Backspace,
        KeyCode::Enter => TextKey::Enter,
        KeyCode::Left => TextKey::Left,
        KeyCode::Right => TextKey::Right,
        KeyCode::Up => TextKey::Up,
        KeyCode::Down => TextKey::Down,
        KeyCode::Tab => TextKey::Tab,
        KeyCode::Delete => TextKey::Delete,
        KeyCode::Home => TextKey::Home,
        KeyCode::End => TextKey::End,
        KeyCode::PageUp => TextKey::PageUp,
        KeyCode::PageDown => TextKey::PageDown,
        KeyCode::Esc => TextKey::Esc,
        _ => TextKey::Null,
    }
}

pub fn text_key(code: KeyCode) -> (r: TextKey)
    ensures
        r == text_key_of(code),
{
    match code {
        KeyCode::Char(c) => TextKey::Char(c),
        KeyCode::F(n) => TextKey::F(n),
        KeyCode::Backspace => TextKey::Backspace,
        KeyCode::Enter => TextKey::Enter,
        KeyCode::Left => TextKey::Left,
        KeyCode::Right => TextKey::Right,
        KeyCode::Up => TextKey::Up,
        KeyCode::Down => TextKey::Down,
        KeyCode::Tab => TextKey::Tab,
        KeyCode::Delete => TextKey::Delete,
        KeyCode::Home => TextKey::Home,
        KeyCode::End => TextKey::End,
        KeyCode::PageUp => TextKey::PageUp,
        KeyCode::PageDown => TextKey::PageDown,
        KeyCode::Esc => TextKey::Esc,
        _ => TextKey::Null,
    }
}

impl KeyModifiers {
    pub fn ctrl(&self) -> (b: bool)
        ensures
            b == self.has_control(),
    {
        self.flags().0
    }

    pub fn shift(&self) -> (b: bool)
        ensures
            b == self.has_shift(),
    {
        self.flags().1
    }

    pub fn alt(&self) -> (b: bool)
        ensures
            b == self.has_alt(),
    {
        self.flags().2
    }
}

} // verus!
