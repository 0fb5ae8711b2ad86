//! Keyboard input as the views receive it: the key pressed and the
//! modifier keys held.
use vstd::prelude::*;

verus! {

/// A key as the views tell keys apart.
#[derive(Debug, Clone)]
pub enum Key {
    Escape,
    Enter,
    ArrowLeft,
    ArrowRight,
    ArrowUp,
    ArrowDown,
    /// A key that produces text, with that text.
    Character(String),
    /// Any other key.
    Other,
}

/// Modifier keys held while a key is pressed.
#[derive(Debug, Clone, Copy, PartialEq, Eq, Structural)]
pub struct Modifiers {
    pub ctrl: bool,
    pub meta: bool,
    pub shift: bool,
}

/// The key produces exactly the single character `c`.
pub open spec fn is_char(key: Key, c: char) -> bool {
    key matches Key::Character(text) && text@ == seq![c]
}

/// Whether the key produces exactly the single character `c`.
pub fn key_is_char(key: &Key, c: char) -> (matches: bool)
    ensures
        matches == is_char(*key, c),
{
    match key {
        Key::Character(text) => {
            let s = text.as_str();
            if s.unicode_len() == 1 {
                let first = s.get_char(0);
                if first == c {
                    assert(text@ =~= seq![c]);
                    true
                } else {
                    false
                }
            } else {
                false
            }
        },
        _ => false,
    }
}

} // verus!
