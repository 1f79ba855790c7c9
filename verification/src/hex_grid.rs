//! Cursor and viewport state for the hex pane: row, raw column and scroll
//! offset, with key-based movement, offset-based jumps under the
//! minimal-disturbance margin policy, and the explicit recenter gesture.

use vstd::prelude::*;

use crate::highlight::{advance_sweep, spec_highlighted, spec_sweep_idx, sweep_hit};
use crate::keys::{Arrow, Key};
use crate::layout::{
    bytes_per_line, lemma_coords_offset, lemma_offset_coords, lemma_total_lines_bounds,
    spec_bytes_per_line, spec_row_bytes, spec_total_lines, total_lines, MAX_DIM, MAX_LEN,
};
use crate::style::{Cell, Style};
use crate::utils::{hex_char, spec_hex_char};

verus! {

/// The hex pane. Column units are raw: each byte takes columns `3*i` and
/// `3*i + 1`, and column `3*i + 2` is the one-wide gap after it, which the
/// cursor never rests on.
#[derive(Clone, Copy, PartialEq, Eq, Structural, Debug)]
pub struct HexGrid {
    pub width: usize,
    pub height: usize,
    /// Length of the byte buffer on display.
    pub len: usize,
    pub cursor_x: usize,
    pub cursor_y: usize,
    pub scroll: usize,
}

impl HexGrid {
    pub open spec fn spec_bpl(self) -> int {
        spec_bytes_per_line(self.width as int)
    }

    pub open spec fn spec_total(self) -> int {
        spec_total_lines(self.len as int, self.spec_bpl())
    }

    /// Bytes on row `row` (fewer than a full line only on a ragged last row).
    pub open spec fn spec_row_len(self, row: int) -> int {
        spec_row_bytes(self.len as int, self.spec_bpl(), row)
    }

    /// Well-formedness: dimensions in range, and the cursor on a byte of the
    /// buffer (pinned to the origin for an empty buffer), never on a gap
    /// column, with the scroll offset at or above the cursor row.
    pub open spec fn wf(self) -> bool {
        &&& 2 <= self.width <= MAX_DIM
        &&& 3 <= self.height <= MAX_DIM
        &&& self.len <= MAX_LEN
        &&& if self.len == 0 {
            self.cursor_x == 0 && self.cursor_y == 0 && self.scroll == 0
        } else {
            &&& self.cursor_y < self.spec_total()
            &&& self.cursor_x < 3 * self.spec_row_len(self.cursor_y as int)
            &&& self.cursor_x % 3 != 2
            &&& self.scroll <= self.cursor_y
        }
    }

    /// The byte offset under the cursor.
    pub open spec fn spec_byte_idx(self) -> int {
        self.cursor_y * self.spec_bpl() + self.cursor_x / 3
    }

    /// A well-formed grid's cursor names a byte inside the buffer.
    pub proof fn lemma_byte_idx_in_range(self)
        requires
            self.wf(),
            self.len > 0,
        ensures
            0 <= self.spec_byte_idx() < self.len,
            self.cursor_x / 3 < self.spec_row_len(self.cursor_y as int),
            self.spec_byte_idx() / self.spec_bpl() == self.cursor_y,
            self.spec_byte_idx() % self.spec_bpl() == self.cursor_x / 3,
    {
        let bpl = self.spec_bpl();
        let rb = self.spec_row_len(self.cursor_y as int);
        crate::layout::lemma_cols_fit(self.width as int);
        crate::layout::lemma_row_bytes_bounds(self.len as int, bpl, self.cursor_y as int);
        assert(self.cursor_x / 3 < rb) by {
            vstd::arithmetic::div_mod::lemma_fundamental_div_mod_converse(
                3 * rb - 1,
                3,
                rb - 1,
                2,
            );
            vstd::arithmetic::div_mod::lemma_div_is_ordered(
                self.cursor_x as int,
                3 * rb - 1,
                3,
            );
        }
        vstd::arithmetic::div_mod::lemma_div_pos_is_pos(self.cursor_x as int, 3);
        lemma_coords_offset(
            self.len as int,
            bpl,
            self.cursor_y as int,
            self.cursor_x as int / 3,
        );
    }

    /// Move to the next row, clamping the column when the destination is a
    /// ragged last row.
    pub open spec fn spec_next_line(self) -> HexGrid {
        let max_y = self.spec_total() - 1;
        let llb = self.len as int % self.spec_bpl();
        let x = if self.cursor_y + 1 == max_y && llb != 0 && self.cursor_x >= (llb - 1) * 3
            + 2 {
            ((llb - 1) * 3 + 1) as usize
        } else {
            self.cursor_x
        };
        HexGrid { cursor_x: x, cursor_y: (self.cursor_y + 1) as usize, ..self }
    }

    pub open spec fn spec_up(self) -> HexGrid {
        if self.cursor_y > self.scroll + 2 {
            HexGrid { cursor_y: (self.cursor_y - 1) as usize, ..self }
        } else if self.scroll > 0 {
            HexGrid {
                cursor_y: (self.cursor_y - 1) as usize,
                scroll: (self.scroll - 1) as usize,
                ..self
            }
        } else if self.cursor_y >= 1 {
            HexGrid { cursor_y: (self.cursor_y - 1) as usize, ..self }
        } else {
            self
        }
    }

    pub open spec fn spec_down(self) -> HexGrid {
        let max_y = self.spec_total() - 1;
        if self.cursor_y + 3 < self.scroll + self.height && (self.cursor_y as int) < max_y {
            self.spec_next_line()
        } else if (self.cursor_y as int) < max_y {
            if self.scroll + self.height <= max_y {
                HexGrid { scroll: (self.scroll + 1) as usize, ..self.spec_next_line() }
            } else {
                self.spec_next_line()
            }
        } else {
            self
        }
    }

    pub open spec fn spec_left(self) -> HexGrid {
        if self.cursor_x > 0 {
            let x1 = self.cursor_x - 1;
            let x2 = if x1 % 3 == 2 {
                x1 - 1
            } else {
                x1
            };
            HexGrid { cursor_x: x2 as usize, ..self }
        } else {
            self
        }
    }

    pub open spec fn spec_right(self) -> HexGrid {
        if self.len == 0 {
            self
        } else {
            let last_col = 3 * self.spec_row_len(self.cursor_y as int) - 1;
            let next_on_blank = (self.cursor_x + 2) % 3 == 0;
            let potential = self.cursor_x + if next_on_blank {
                2int
            } else {
                1int
            };
            if potential <= last_col {
                HexGrid { cursor_x: potential as usize, ..self }
            } else {
                self
            }
        }
    }

    /// Offset jump: clamp into the buffer (to the origin when empty),
    /// recompute row and column, then clamp the scroll into the margin
    /// window with minimal disturbance.
    pub open spec fn spec_move_offset(self, offset: int) -> HexGrid {
        let bpl = self.spec_bpl();
        let off = if self.len == 0 {
            0int
        } else if offset > self.len - 1 {
            self.len - 1
        } else {
            offset
        };
        let row = off / bpl;
        let col = (off % bpl) * 3;
        let min_s = if row + 3 > self.height {
            row + 3 - self.height
        } else {
            0int
        };
        let max_s = if row >= 3 {
            row - 3
        } else {
            0int
        };
        let s = if self.scroll > max_s {
            max_s
        } else if self.scroll < min_s {
            min_s
        } else {
            self.scroll as int
        };
        HexGrid { cursor_y: row as usize, cursor_x: col as usize, scroll: s as usize, ..self }
    }

    pub open spec fn spec_goto_end(self) -> HexGrid {
        if self.len == 0 {
            self
        } else {
            self.spec_move_offset(self.len - 1)
        }
    }

    pub open spec fn spec_center(self) -> HexGrid {
        if self.cursor_y >= self.height / 2 {
            HexGrid { scroll: (self.cursor_y - self.height / 2) as usize, ..self }
        } else {
            self
        }
    }

    pub open spec fn spec_keypressed(self, key: Key) -> HexGrid {
        match key {
            Key::Arrow(Arrow::Up) => self.spec_up(),
            Key::Arrow(Arrow::Down) => self.spec_down(),
            Key::Arrow(Arrow::Left) => self.spec_left(),
            Key::Arrow(Arrow::Right) => self.spec_right(),
            Key::Char(c) => if c == 'k' {
                self.spec_up()
            } else if c == 'j' {
                self.spec_down()
            } else if c == 'h' {
                self.spec_left()
            } else if c == 'l' {
                self.spec_right()
            } else if c == 'G' {
                self.spec_goto_end()
            } else {
                self
            },
            Key::Ctrl(c) => if c == 'd' {
                self.spec_move_offset(self.spec_byte_idx() + 10 * self.spec_bpl())
            } else if c == 'u' {
                let idx = self.spec_byte_idx();
                let back = idx - 10 * self.spec_bpl();
                self.spec_move_offset(
                    if back >= 0 {
                        back
                    } else {
                        0int
                    },
                )
            } else {
                self
            },
            _ => self,
        }
    }

    /// Which keys the hex pane consumes.
    pub open spec fn spec_key_handled(key: Key) -> bool {
        match key {
            Key::Arrow(_) => true,
            Key::Char(c) => c == 'k' || c == 'j' || c == 'h' || c == 'l' || c == 'G',
            Key::Ctrl(c) => c == 'd' || c == 'u',
            _ => false,
        }
    }

    /// The offset and coordinate mappings round-trip: jumping to the byte
    /// offset under the cursor restores the same row and column. Holds for
    /// cursor columns on a byte's first digit, the only columns that offset
    /// jumps themselves produce; from a second-digit column the jump lands
    /// back on the first digit of the same byte.
    pub proof fn lemma_offset_round_trip(self)
        requires
            self.wf(),
            self.len > 0,
            self.cursor_x % 3 == 0,
        ensures
            self.spec_move_offset(self.spec_byte_idx()).cursor_y == self.cursor_y,
            self.spec_move_offset(self.spec_byte_idx()).cursor_x == self.cursor_x,
    {
        self.lemma_byte_idx_in_range();
        vstd::arithmetic::div_mod::lemma_fundamental_div_mod(self.cursor_x as int, 3);
    }

    /// The margin policy keeps the cursor visible: after an offset jump into
    /// the buffer, the cursor row lies between the scroll row and the last
    /// window row, for windows at least four rows tall. (In a three-row
    /// window a jump far above a large scroll can still leave the cursor one
    /// row below the window, e.g. from scroll 20 to row 10.)
    pub proof fn lemma_move_offset_margin(self, offset: int)
        requires
            self.wf(),
            self.len > 0,
            4 <= self.height,
            0 <= offset < self.len,
        ensures
            self.spec_move_offset(offset).scroll <= self.spec_move_offset(offset).cursor_y,
            self.spec_move_offset(offset).cursor_y < self.spec_move_offset(offset).scroll
                + self.height,
    {
        lemma_offset_coords(self.len as int, self.spec_bpl(), offset);
    }

    /// An offset jump into the buffer puts the byte under the cursor at
    /// exactly the requested offset.
    pub proof fn lemma_jump_lands(self, t: int)
        requires
            2 <= self.width,
            self.len <= MAX_LEN,
            0 <= t < self.len,
        ensures
            self.spec_move_offset(t).spec_byte_idx() == t,
    {
        let bpl = self.spec_bpl();
        crate::layout::lemma_cols_fit(self.width as int);
        lemma_offset_coords(self.len as int, bpl, t);
        vstd::arithmetic::div_mod::lemma_fundamental_div_mod_converse(
            (t % bpl) * 3,
            3,
            t % bpl,
            0,
        );
    }

    pub fn new(width: usize, height: usize, len: usize) -> (r: HexGrid)
        requires
            2 <= width <= MAX_DIM,
            3 <= height <= MAX_DIM,
            len <= MAX_LEN,
        ensures
            r == (HexGrid { width, height, len, cursor_x: 0, cursor_y: 0, scroll: 0 }),
            r.wf(),
    {
        proof {
            lemma_total_lines_bounds(len as int, spec_bytes_per_line(width as int));
            crate::layout::lemma_cols_fit(width as int);
        }
        HexGrid { width, height, len, cursor_x: 0, cursor_y: 0, scroll: 0 }
    }

    pub fn width(&self) -> (r: usize)
        ensures
            r == self.width,
    {
        self.width
    }

    /// How many bytes one line of this pane shows.
    pub fn bytes_per_line(&self) -> (r: usize)
        requires
            2 <= self.width,
        ensures
            r == self.spec_bpl(),
            1 <= r,
    {
        bytes_per_line(self.width)
    }

    /// Effective width of a full line, ignoring the unusable trailing space.
    fn cols_per_line(&self) -> (r: usize)
        requires
            2 <= self.width <= MAX_DIM,
        ensures
            r == crate::layout::spec_cols_per_line(self.width as int),
    {
        crate::layout::cols_per_line(self.width)
    }

    /// How many lines the whole buffer needs.
    fn total_lines_needed(&self) -> (r: usize)
        requires
            2 <= self.width,
        ensures
            r == self.spec_total(),
    {
        total_lines(self.len, bytes_per_line(self.width))
    }

    /// How many bytes the last line renders; `0` means it is full.
    fn last_line_bytes(&self) -> (r: usize)
        requires
            2 <= self.width,
        ensures
            r == self.len as int % self.spec_bpl(),
    {
        self.len % bytes_per_line(self.width)
    }

    /// Byte offset under the cursor.
    pub fn get_byte_idx(&self) -> (r: usize)
        requires
            self.wf(),
        ensures
            r == self.spec_byte_idx(),
            self.len == 0 ==> r == 0,
            self.len > 0 ==> r < self.len,
    {
        proof {
            if self.len > 0 {
                self.lemma_byte_idx_in_range();
            } else {
                assert(self.spec_byte_idx() == 0) by (nonlinear_arith)
                    requires
                        self.cursor_y == 0,
                        self.cursor_x == 0,
                        self.spec_byte_idx() == self.cursor_y * self.spec_bpl() + self.cursor_x
                            / 3,
                ;
            }
        }
        self.cursor_y * self.bytes_per_line() + self.cursor_x / 3
    }

    pub fn get_column(&self) -> (r: usize)
        ensures
            r == self.cursor_x,
    {
        self.cursor_x
    }

    pub fn get_row(&self) -> (r: usize)
        ensures
            r == self.cursor_y,
    {
        self.cursor_y
    }

    pub fn get_scroll(&self) -> (r: usize)
        ensures
            r == self.scroll,
    {
        self.scroll
    }

    /// Explicit recenter: put the cursor row in the middle of the window,
    /// unless that would scroll above the start.
    pub fn try_center_scroll(&mut self)
        requires
            old(self).wf(),
        ensures
            *final(self) == old(self).spec_center(),
            final(self).wf(),
    {
        if self.cursor_y >= self.height / 2 {
            self.scroll = self.cursor_y - self.height / 2;
        }
    }

    /// Unconditionally move to the next row, re-clamping the column if the
    /// destination is the ragged last row.
    fn move_next_line(&mut self)
        requires
            old(self).wf(),
            old(self).len > 0,
            old(self).cursor_y + 1 < old(self).spec_total(),
        ensures
            *final(self) == old(self).spec_next_line(),
            final(self).wf(),
    {
        let ghost g0 = *old(self);
        let bpl = self.bytes_per_line();
        let max_y = self.total_lines_needed() - 1;
        if self.cursor_y + 1 == max_y {
            let llb = self.last_line_bytes();
            if llb != 0 && self.cursor_x >= (llb - 1) * 3 + 2 {
                self.cursor_x = (llb - 1) * 3 + 1;
            }
        }
        self.cursor_y = self.cursor_y + 1;
        proof {
            crate::layout::lemma_row_bytes_bounds(
                g0.len as int,
                g0.spec_bpl(),
                g0.cursor_y as int,
            );
            crate::layout::lemma_row_bytes_bounds(
                g0.len as int,
                g0.spec_bpl(),
                self.cursor_y as int,
            );
        }
    }

    fn move_up(&mut self)
        requires
            old(self).wf(),
        ensures
            *final(self) == old(self).spec_up(),
            final(self).wf(),
    {
        let ghost g0 = *old(self);
        if self.cursor_y > self.scroll + 2 {
            self.cursor_y = self.cursor_y - 1;
        } else if self.scroll > 0 {
            self.scroll = self.scroll - 1;
            self.cursor_y = self.cursor_y - 1;
        } else if self.cursor_y >= 1 {
            self.cursor_y = self.cursor_y - 1;
        }
        proof {
            if g0.len > 0 && *self != g0 {
                crate::layout::lemma_row_bytes_bounds(
                    g0.len as int,
                    g0.spec_bpl(),
                    g0.cursor_y as int,
                );
                crate::layout::lemma_row_bytes_bounds(
                    g0.len as int,
                    g0.spec_bpl(),
                    self.cursor_y as int,
                );
            }
        }
    }

    fn move_down(&mut self)
        requires
            old(self).wf(),
        ensures
            *final(self) == old(self).spec_down(),
            final(self).wf(),
    {
        let total = self.total_lines_needed();
        proof {
            crate::layout::lemma_cols_fit(self.width as int);
            lemma_total_lines_bounds(self.len as int, self.spec_bpl());
        }
        if total == 0 {
            return ;
        }
        let max_y = total - 1;
        if self.cursor_y + 3 < self.scroll + self.height && self.cursor_y < max_y {
            self.move_next_line();
        } else if self.cursor_y < max_y {
            if self.scroll + self.height <= max_y {
                // Scrolling moves the window and the cursor together, since
                // the cursor is not relative to the current scroll.
                self.move_next_line();
                self.scroll = self.scroll + 1;
            } else {
                // The window cannot scroll further, but a next row exists.
                self.move_next_line();
            }
        }
    }

    fn move_left(&mut self)
        requires
            old(self).wf(),
        ensures
            *final(self) == old(self).spec_left(),
            final(self).wf(),
    {
        if self.cursor_x > 0 {
            self.cursor_x = self.cursor_x - 1;
            // Skip the one-wide gap after a byte's second digit in one step.
            if (self.cursor_x + 1) % 3 == 0 {
                self.cursor_x = self.cursor_x - 1;
            }
        }
    }

    fn move_right(&mut self)
        requires
            old(self).wf(),
        ensures
            *final(self) == old(self).spec_right(),
            final(self).wf(),
    {
        if self.len == 0 {
            return ;
        }
        let bpl = self.bytes_per_line();
        let total = self.total_lines_needed();
        let last_col_in_line = if self.cursor_y + 1 == total {
            let llb = self.last_line_bytes();
            proof {
                crate::layout::lemma_row_bytes_bounds(
                    self.len as int,
                    self.spec_bpl(),
                    self.cursor_y as int,
                );
            }
            if llb != 0 {
                (llb - 1) * 3 + 2
            } else {
                self.cols_per_line()
            }
        } else {
            self.cols_per_line()
        };
        let next_on_blank = (self.cursor_x + 2) % 3 == 0;
        let potential_next_col = if next_on_blank {
            self.cursor_x + 2
        } else {
            self.cursor_x + 1
        };
        if potential_next_col <= last_col_in_line {
            self.cursor_x = potential_next_col;
        }
    }

    /// Jump the cursor to a byte offset, clamped into the buffer, and pull
    /// the scroll into the margin window `[row + 3 - height, row - 3]` with
    /// minimal disturbance (the lower bound wins when the window inverts).
    pub fn move_cursor_offset(&mut self, offset: usize)
        requires
            old(self).wf(),
        ensures
            *final(self) == old(self).spec_move_offset(offset as int),
            final(self).wf(),
    {
        let ghost g0 = *old(self);
        let bpl = self.bytes_per_line();
        let off = if self.len == 0 {
            0
        } else if offset > self.len - 1 {
            self.len - 1
        } else {
            offset
        };
        proof {
            if g0.len > 0 {
                lemma_offset_coords(g0.len as int, g0.spec_bpl(), off as int);
            } else {
                vstd::arithmetic::div_mod::lemma_basic_div(0, g0.spec_bpl());
                vstd::arithmetic::div_mod::lemma_small_mod(0, g0.spec_bpl() as nat);
            }
        }
        let row = off / bpl;
        let col = (off % bpl) * 3;
        self.cursor_y = row;
        self.cursor_x = col;
        let min_scroll = if row + 3 > self.height {
            row + 3 - self.height
        } else {
            0
        };
        let max_scroll = if row >= 3 {
            row - 3
        } else {
            0
        };
        if self.scroll > max_scroll {
            self.scroll = max_scroll;
        } else if self.scroll < min_scroll {
            self.scroll = min_scroll;
        }
        proof {
            if g0.len > 0 {
                crate::layout::lemma_row_bytes_bounds(
                    g0.len as int,
                    g0.spec_bpl(),
                    row as int,
                );
            }
        }
    }

    /// Style of the hex digit cell `which` (first or second) of the byte
    /// at offset `bi`: the cursor wins over a highlight, which wins over
    /// the default.
    pub open spec fn spec_digit_style(self, hl: Seq<usize>, hl_len: int, bi: int, which: int)
        -> Style {
        let bpl = self.spec_bpl();
        let row = bi / bpl;
        let col = bi % bpl;
        if col * 3 + which == self.cursor_x && row == self.cursor_y {
            Style::CursorNoFocus
        } else if spec_highlighted(hl, hl_len, bi) {
            Style::Highlight
        } else {
            Style::Default
        }
    }

    /// The draw requests for the byte at offset `bi`: its two hex digits,
    /// and the following gap cell painted in highlight style when the
    /// next byte still lies within the same match span.
    pub open spec fn spec_byte_cells(self, data: Seq<u8>, hl: Seq<usize>, hl_len: int, bi: int)
        -> Seq<Cell> {
        let bpl = self.spec_bpl();
        let row = bi / bpl;
        let col = bi % bpl;
        let y = (row - self.scroll) as usize;
        let byte = data[bi];
        let c1 = Cell {
            x: (col * 3) as usize,
            y,
            ch: spec_hex_char((byte >> 4) as u8) as char,
            style: self.spec_digit_style(hl, hl_len, bi, 0),
        };
        let c2 = Cell {
            x: (col * 3 + 1) as usize,
            y,
            ch: spec_hex_char((byte & 0x0f) as u8) as char,
            style: self.spec_digit_style(hl, hl_len, bi, 1),
        };
        let in_span = spec_highlighted(hl, hl_len, bi) && bi + 1 < hl[spec_sweep_idx(
            hl,
            hl_len,
            bi,
        )] + hl_len;
        if in_span && col * 3 + 2 < self.width - 1 {
            seq![
                c1,
                c2,
                Cell { x: (col * 3 + 2) as usize, y, ch: ' ', style: Style::Highlight },
            ]
        } else {
            seq![c1, c2]
        }
    }

    /// The draw requests of the whole render pass from byte `bi` on, in
    /// row-major, strictly ascending byte order, until the buffer or the
    /// window ends.
    pub open spec fn spec_draw_cells(self, data: Seq<u8>, hl: Seq<usize>, hl_len: int, bi: int)
        -> Seq<Cell>
        decreases data.len() - bi,
            when 0 <= bi
    {
        let bpl = self.spec_bpl();
        if bi >= data.len() || bi / bpl >= self.scroll + self.height {
            Seq::empty()
        } else {
            self.spec_byte_cells(data, hl, hl_len, bi) + self.spec_draw_cells(
                data,
                hl,
                hl_len,
                bi + 1,
            )
        }
    }

    /// One render pass of the hex pane: the cells for every byte visible
    /// in the window, with the forward highlight sweep deciding the
    /// painted cells.
    pub fn draw(&self, data: &[u8], hl: &Vec<usize>, hl_len: usize) -> (cells: Vec<Cell>)
        requires
            self.wf(),
            data@.len() == self.len,
            forall|j: int| 0 <= j < hl@.len() ==> #[trigger] hl@[j] + hl_len <= data@.len(),
        ensures
            cells@ == self.spec_draw_cells(
                data@,
                hl@,
                hl_len as int,
                self.scroll * self.spec_bpl(),
            ),
    {
        let bpl = self.bytes_per_line();
        let n = data.len();
        proof {
            lemma_total_lines_bounds(self.len as int, bpl as int);
            if self.len > 0 {
                assert(self.scroll * bpl < self.len) by (nonlinear_arith)
                    requires
                        self.scroll <= self.cursor_y,
                        self.cursor_y < spec_total_lines(self.len as int, bpl as int),
                        (spec_total_lines(self.len as int, bpl as int) - 1) * bpl
                            < self.len as int,
                        1 <= bpl,
                ;
            }
        }
        let start = if n == 0 {
            0
        } else {
            self.scroll * bpl
        };
        proof {
            if n == 0 {
                assert(self.scroll * self.spec_bpl() == 0) by (nonlinear_arith)
                    requires
                        self.scroll == 0,
                ;
            }
        }
        let ghost whole = self.spec_draw_cells(data@, hl@, hl_len as int, start as int);
        let mut cells: Vec<Cell> = Vec::new();
        let mut hl_idx: usize = 0;
        let mut bi = start;
        while bi < n && bi / bpl < self.scroll + self.height
            invariant
                self.wf(),
                bpl == self.spec_bpl(),
                n == data@.len() == self.len,
                start <= bi,
                n > 0 ==> start == self.scroll * bpl,
                forall|j: int| 0 <= j < hl@.len() ==> #[trigger] hl@[j] + hl_len <= data@.len(),
                hl_idx <= hl@.len(),
                forall|j: int| 0 <= j < hl_idx ==> #[trigger] hl@[j] + hl_len < bi,
                whole == self.spec_draw_cells(data@, hl@, hl_len as int, start as int),
                whole == cells@ + self.spec_draw_cells(data@, hl@, hl_len as int, bi as int),
            decreases n - bi,
        {
            let row = bi / bpl;
            let col = bi % bpl;
            proof {
                vstd::arithmetic::div_mod::lemma_fundamental_div_mod(bi as int, bpl as int);
                vstd::arithmetic::div_mod::lemma_mod_division_less_than_divisor(
                    bi as int,
                    bpl as int,
                );
                assert(self.scroll <= row) by {
                    if bi >= self.scroll * bpl {
                        vstd::arithmetic::div_mod::lemma_div_is_ordered(
                            self.scroll * bpl,
                            bi as int,
                            bpl as int,
                        );
                        vstd::arithmetic::div_mod::lemma_div_by_multiple(
                            self.scroll as int,
                            bpl as int,
                        );
                    }
                }
            }
            let ghost cells0 = cells@;
            hl_idx = advance_sweep(hl, hl_len, hl_idx, bi);
            let hit = sweep_hit(hl, hl_len, hl_idx, bi);
            let byte = data[bi];
            proof {
                assert((byte >> 4) < 16 && (byte & 0x0f) < 16) by (bit_vector);
            }
            let char1 = hex_char(byte >> 4);
            let char2 = hex_char(byte & 0x0f);
            let y = row - self.scroll;
            let attr_1 = col * 3 == self.cursor_x && row == self.cursor_y;
            let attr_2 = col * 3 + 1 == self.cursor_x && row == self.cursor_y;
            cells.push(
                Cell {
                    x: col * 3,
                    y,
                    ch: char1 as char,
                    style: if attr_1 {
                        Style::CursorNoFocus
                    } else if hit {
                        Style::Highlight
                    } else {
                        Style::Default
                    },
                },
            );
            cells.push(
                Cell {
                    x: col * 3 + 1,
                    y,
                    ch: char2 as char,
                    style: if attr_2 {
                        Style::CursorNoFocus
                    } else if hit {
                        Style::Highlight
                    } else {
                        Style::Default
                    },
                },
            );
            // When highlighting a word, paint the gap between the byte's
            // digits and the next byte's too.
            let in_span = hit && bi + 1 < hl[hl_idx] + hl_len;
            if in_span && col * 3 + 2 < self.width - 1 {
                cells.push(
                    Cell { x: col * 3 + 2, y, ch: ' ', style: Style::Highlight },
                );
            }
            proof {
                crate::highlight::lemma_sweep_idx_from_bounds(hl@, hl_len as int, bi as int, 0);
                let sbc = self.spec_byte_cells(data@, hl@, hl_len as int, bi as int);
                assert(self.spec_draw_cells(data@, hl@, hl_len as int, bi as int) == sbc
                    + self.spec_draw_cells(data@, hl@, hl_len as int, bi + 1));
                assert(cells@ =~= cells0 + sbc);
                assert(whole =~= cells@ + self.spec_draw_cells(
                    data@,
                    hl@,
                    hl_len as int,
                    bi + 1,
                ));
            }
            bi = bi + 1;
        }
        proof {
            assert(self.spec_draw_cells(data@, hl@, hl_len as int, bi as int) =~= Seq::empty());
            assert(cells@ =~= whole);
        }
        cells
    }

    /// Every cell of a render pass lies inside the pane.
    pub proof fn lemma_draw_cells_bounds(self, data: Seq<u8>, hl: Seq<usize>, hl_len: int, bi: int)
        requires
            2 <= self.width,
            0 <= self.scroll * self.spec_bpl() <= bi,
        ensures
            forall|k: int|
                0 <= k < self.spec_draw_cells(data, hl, hl_len, bi).len() ==> (
                #[trigger] self.spec_draw_cells(data, hl, hl_len, bi)[k]).x < 3 * self.spec_bpl()
                    && self.spec_draw_cells(data, hl, hl_len, bi)[k].y < self.height,
        decreases data.len() - bi,
    {
        let s = self.spec_draw_cells(data, hl, hl_len, bi);
        let bpl = self.spec_bpl();
        crate::layout::lemma_cols_fit(self.width as int);
        if bi >= data.len() || bi / bpl >= self.scroll + self.height {
        } else {
            let head = self.spec_byte_cells(data, hl, hl_len, bi);
            let tail = self.spec_draw_cells(data, hl, hl_len, bi + 1);
            vstd::arithmetic::div_mod::lemma_fundamental_div_mod(bi, bpl);
            vstd::arithmetic::div_mod::lemma_mod_division_less_than_divisor(bi, bpl);
            vstd::arithmetic::div_mod::lemma_div_is_ordered(self.scroll * bpl, bi, bpl);
            vstd::arithmetic::div_mod::lemma_div_by_multiple(self.scroll as int, bpl);
            assert((bi % bpl) * 3 + 2 < 3 * bpl) by (nonlinear_arith)
                requires
                    0 <= bi % bpl < bpl,
            ;
            self.lemma_draw_cells_bounds(data, hl, hl_len, bi + 1);
            assert forall|k: int|
                0 <= k < s.len() implies (#[trigger] s[k]).x < 3 * bpl && s[k].y
                < self.height by {
                if k < head.len() {
                    assert(s[k] == head[k]);
                } else {
                    assert(s[k] == tail[k - head.len()]);
                }
            }
        }
    }

    /// Handle one key; the result says whether the pane consumed it.
    pub fn keypressed(&mut self, key: Key) -> (handled: bool)
        requires
            old(self).wf(),
        ensures
            *final(self) == old(self).spec_keypressed(key),
            final(self).wf(),
            handled == HexGrid::spec_key_handled(key),
    {
        match key {
            Key::Arrow(Arrow::Up) | Key::Char('k') => {
                self.move_up();
                true
            },
            Key::Arrow(Arrow::Down) | Key::Char('j') => {
                self.move_down();
                true
            },
            Key::Arrow(Arrow::Left) | Key::Char('h') => {
                self.move_left();
                true
            },
            Key::Arrow(Arrow::Right) | Key::Char('l') => {
                self.move_right();
                true
            },
            Key::Char('G') => {
                if self.len > 0 {
                    let end = self.len - 1;
                    self.move_cursor_offset(end);
                }
                true
            },
            Key::Ctrl('d') => {
                let current_cursor = self.get_byte_idx();
                let step = 10 * self.bytes_per_line();
                self.move_cursor_offset(current_cursor + step);
                true
            },
            Key::Ctrl('u') => {
                let current_cursor = self.get_byte_idx();
                let step = 10 * self.bytes_per_line();
                let target = if current_cursor >= step {
                    current_cursor - step
                } else {
                    0
                };
                self.move_cursor_offset(target);
                true
            },
            _ => false,
        }
    }
}

} // verus!
