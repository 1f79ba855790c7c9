//! The status line at the bottom of the screen: a full-width bar in the
//! status style carrying a text the surrounding program formats (the file
//! name and the cursor position).

use vstd::prelude::*;

use crate::layout::MAX_LEN;
use crate::style::{Cell, Style};
use crate::utils::{extend_cells, hrun, print, spec_hrun, spec_print};

verus! {

pub struct InfoLine {
    pub pos_x: usize,
    pub pos_y: usize,
    pub width: usize,
    /// The text on display, as ASCII bytes.
    pub text: Vec<u8>,
}

impl InfoLine {
    pub fn new(width: usize, pos_x: usize, pos_y: usize, text: Vec<u8>) -> (r: InfoLine)
        ensures
            r.pos_x == pos_x,
            r.pos_y == pos_y,
            r.width == width,
            r.text@ == text@,
    {
        InfoLine { pos_x, pos_y, width, text }
    }

    pub fn set_text(&mut self, text: Vec<u8>)
        ensures
            final(self).text@ == text@,
            final(self).pos_x == old(self).pos_x,
            final(self).pos_y == old(self).pos_y,
            final(self).width == old(self).width,
    {
        self.text = text;
    }

    /// Everything one render pass of the status line shows: the blank
    /// bar across the pane and one more column, then the text over it.
    pub open spec fn spec_draw_cells(self) -> Seq<Cell> {
        spec_hrun(self.pos_x as int, self.pos_y as int, self.width + 1, ' ', Style::StatusBar)
            + spec_print(self.pos_x as int, self.pos_y as int, Style::StatusBar, self.text@)
    }

    /// One render pass of the status line.
    pub fn draw(&self) -> (cells: Vec<Cell>)
        requires
            self.pos_x + self.width < MAX_LEN,
            self.pos_x + self.text@.len() <= MAX_LEN,
        ensures
            cells@ == self.spec_draw_cells(),
    {
        let mut cells = hrun(self.pos_x, self.pos_y, self.width + 1, ' ', Style::StatusBar);
        extend_cells(
            &mut cells,
            print(self.pos_x, self.pos_y, Style::StatusBar, self.text.as_slice()),
        );
        cells
    }
}

} // verus!
