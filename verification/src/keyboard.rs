//! The keyboard as hosts report it.

use vstd::prelude::*;

verus! {

/// A key of the keyboard, as far as the tools tell them apart.
#[derive(Clone, Copy, Debug, PartialEq, Eq, Structural)]
pub enum KeyName {
    Escape,
    Enter,
    Backspace,
    Delete,
    Tab,
    ArrowUp,
    ArrowDown,
    ArrowLeft,
    ArrowRight,
    Home,
    End,
    PageUp,
    PageDown,
    OpenBracket,
    Period,
    /// A letter key, as its lowercase letter.
    Letter(char),
    Other,
}

/// A char that can be typed: no control character.
pub open spec fn is_typed(c: char) -> bool {
    !(c <= '\u{1f}' || ('\u{7f}' <= c && c <= '\u{9f}'))
}

/// Whether a char of a text event is typed.
pub fn typed(c: char) -> (r: bool)
    ensures
        r == is_typed(c),
{
    !(c <= '\u{1f}' || ('\u{7f}' <= c && c <= '\u{9f}'))
}

} // verus!
