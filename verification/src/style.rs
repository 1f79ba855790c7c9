//! Per-cell draw requests. The core computes what each screen cell shows;
//! the surrounding program maps styles to terminal attributes and paints.

use vstd::prelude::*;

verus! {

#[derive(Clone, Copy, PartialEq, Eq, Structural, Debug)]
pub enum Style {
    Default,
    CursorFocus,
    CursorNoFocus,
    StatusBar,
    Highlight,
}

/// One draw request: put `ch` at pane-relative column `x`, row `y`.
#[derive(Clone, Copy, PartialEq, Eq, Structural, Debug)]
pub struct Cell {
    pub x: usize,
    pub y: usize,
    pub ch: char,
    pub style: Style,
}

} // verus!
