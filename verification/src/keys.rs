//! Decoded key events. The surrounding program translates terminal escape
//! sequences into these plain values before handing them to the core.

use vstd::prelude::*;

verus! {

#[derive(Clone, Copy, PartialEq, Eq, Structural)]
pub enum Arrow {
    Up,
    Down,
    Left,
    Right,
}

#[derive(Clone, Copy, PartialEq, Eq, Structural)]
pub enum Key {
    Arrow(Arrow),
    Char(char),
    Ctrl(char),
    Tab,
    Backspace,
    Esc,
}

} // verus!
