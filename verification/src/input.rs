//! Keyboard input as the command interpreter sees it: a key together with the
//! modifiers that were held. The embedding program translates its event
//! source's own key type into this one.

use vstd::prelude::*;

verus! {

/// A single key press.
#[derive(Debug, Clone, Copy, PartialEq, Eq, Structural)]
pub enum Key {
    Char(char),
    Up,
    Down,
    Left,
    Right,
    Enter,
    Esc,
    Tab,
    Backspace,
    Delete,
    Null,
}

/// A key press with its modifiers.
#[derive(Debug, Clone, Copy, PartialEq, Eq, Structural)]
pub struct Input {
    pub key: Key,
    pub ctrl: bool,
    pub alt: bool,
    pub shift: bool,
}

impl Default for Input {
    /// The null input: no key, no modifiers.
    fn default() -> (inp: Input)
        ensures
            inp.key == Key::Null,
            !inp.ctrl,
            !inp.alt,
            !inp.shift,
    {
        Input { key: Key::Null, ctrl: false, alt: false, shift: false }
    }
}

} // verus!
