use vstd::prelude::*;

verus! {

/// A keyboard event, as the game reads it: a printable character, one of
/// the control keys the game reacts to, or anything else (ignored).
#[derive(Clone, Copy, Debug)]
pub enum Key {
    /// A printable character was typed.
    Char(char),
    /// The backspace key.
    Backspace,
    /// The enter key.
    Enter,
    /// The escape key.
    Esc,
    /// Any other key; the game ignores it.
    Other,
}

} // verus!
