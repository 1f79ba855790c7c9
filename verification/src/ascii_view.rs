//! The ASCII companion pane: a stateless mirror of the hex pane's cursor,
//! one column per byte, with its own incremental scroll margins.

use vstd::prelude::*;

use crate::highlight::{advance_sweep, spec_highlighted, sweep_hit};
use crate::layout::{spec_total_lines, MAX_DIM, MAX_LEN};
use crate::style::{Cell, Style};

verus! {

pub struct AsciiView {
    pub width: usize,
    pub height: usize,
    /// Length of the byte buffer on display.
    pub len: usize,
    pub cursor_x: usize,
    pub cursor_y: usize,
    pub scroll: usize,
    pub has_focus: bool,
}

impl AsciiView {
    pub open spec fn spec_total(self) -> int {
        spec_total_lines(self.len as int, self.width as int)
    }

    pub open spec fn wf(self) -> bool {
        &&& 1 <= self.width <= MAX_DIM
        &&& 3 <= self.height <= MAX_DIM
        &&& self.len <= MAX_LEN
        &&& self.cursor_y <= self.len
        &&& self.cursor_x < self.width
        &&& self.scroll <= self.spec_total()
    }

    pub fn new(width: usize, height: usize, len: usize) -> (r: AsciiView)
        requires
            1 <= width <= MAX_DIM,
            3 <= height <= MAX_DIM,
            len <= MAX_LEN,
        ensures
            r == (AsciiView {
                width,
                height,
                len,
                cursor_x: 0,
                cursor_y: 0,
                scroll: 0,
                has_focus: false,
            }),
            r.wf(),
    {
        proof {
            crate::layout::lemma_total_lines_bounds(len as int, width as int);
        }
        AsciiView { width, height, len, cursor_x: 0, cursor_y: 0, scroll: 0, has_focus: false }
    }

    pub fn set_scroll(&mut self, scroll: usize)
        requires
            old(self).wf(),
            scroll <= old(self).spec_total(),
        ensures
            *final(self) == (AsciiView { scroll, ..*old(self) }),
            final(self).wf(),
    {
        self.scroll = scroll;
    }

    /// The printable rendering of a byte: itself inside printable ASCII,
    /// a dot for everything else.
    pub open spec fn spec_glyph(byte: u8) -> char {
        if 32 <= byte <= 126 {
            byte as char
        } else {
            '.'
        }
    }

    /// The draw request for the byte at offset `bi`: one column per byte,
    /// with the cursor winning over a highlight.
    pub open spec fn spec_byte_cell(self, data: Seq<u8>, hl: Seq<usize>, hl_len: int, bi: int)
        -> Cell {
        let w = self.width as int;
        let row = bi / w;
        let col = bi % w;
        Cell {
            x: col as usize,
            y: (row - self.scroll) as usize,
            ch: AsciiView::spec_glyph(data[bi]),
            style: if col == self.cursor_x && row == self.cursor_y {
                if self.has_focus {
                    Style::CursorFocus
                } else {
                    Style::CursorNoFocus
                }
            } else if spec_highlighted(hl, hl_len, bi) {
                Style::Highlight
            } else {
                Style::Default
            },
        }
    }

    /// The draw requests of the whole render pass from byte `bi` on.
    pub open spec fn spec_draw_cells(self, data: Seq<u8>, hl: Seq<usize>, hl_len: int, bi: int)
        -> Seq<Cell>
        decreases data.len() - bi,
            when 0 <= bi
    {
        let w = self.width as int;
        if bi >= data.len() || bi / w >= self.scroll + self.height {
            Seq::empty()
        } else {
            seq![self.spec_byte_cell(data, hl, hl_len, bi)] + self.spec_draw_cells(
                data,
                hl,
                hl_len,
                bi + 1,
            )
        }
    }

    /// One render pass of the ASCII pane: printable bytes as themselves,
    /// everything else as a dot, with the same forward highlight sweep as
    /// the hex pane.
    pub fn draw(&self, data: &[u8], hl: &Vec<usize>, hl_len: usize) -> (cells: Vec<Cell>)
        requires
            self.wf(),
            data@.len() == self.len,
            forall|j: int| 0 <= j < hl@.len() ==> #[trigger] hl@[j] + hl_len <= data@.len(),
        ensures
            cells@ == self.spec_draw_cells(
                data@,
                hl@,
                hl_len as int,
                self.scroll * self.width,
            ),
    {
        let w = self.width;
        let n = data.len();
        proof {
            crate::layout::lemma_total_lines_bounds(self.len as int, w as int);
            if self.len > 0 {
                assert(self.scroll * w <= self.len + w) by (nonlinear_arith)
                    requires
                        self.scroll <= spec_total_lines(self.len as int, w as int),
                        self.len as int <= spec_total_lines(self.len as int, w as int) * w,
                        (spec_total_lines(self.len as int, w as int) - 1) * w < self.len as int,
                        1 <= w,
                ;
            } else {
                assert(self.scroll == 0);
                assert(self.scroll * w == 0) by (nonlinear_arith)
                    requires
                        self.scroll == 0,
                ;
            }
        }
        let start = self.scroll * w;
        let ghost whole = self.spec_draw_cells(data@, hl@, hl_len as int, start as int);
        let mut cells: Vec<Cell> = Vec::new();
        let mut hl_idx: usize = 0;
        let mut bi = start;
        while bi < n && bi / w < self.scroll + self.height
            invariant
                self.wf(),
                w == self.width,
                n == data@.len() == self.len,
                start == self.scroll * w,
                start <= bi,
                forall|j: int| 0 <= j < hl@.len() ==> #[trigger] hl@[j] + hl_len <= data@.len(),
                hl_idx <= hl@.len(),
                forall|j: int| 0 <= j < hl_idx ==> #[trigger] hl@[j] + hl_len < bi,
                whole == self.spec_draw_cells(data@, hl@, hl_len as int, start as int),
                whole == cells@ + self.spec_draw_cells(data@, hl@, hl_len as int, bi as int),
            decreases n - bi,
        {
            let row = bi / w;
            let col = bi % w;
            proof {
                vstd::arithmetic::div_mod::lemma_fundamental_div_mod(bi as int, w as int);
                vstd::arithmetic::div_mod::lemma_mod_division_less_than_divisor(
                    bi as int,
                    w as int,
                );
                assert(self.scroll <= row) by {
                    vstd::arithmetic::div_mod::lemma_div_is_ordered(
                        self.scroll * w,
                        bi as int,
                        w as int,
                    );
                    vstd::arithmetic::div_mod::lemma_div_by_multiple(
                        self.scroll as int,
                        w as int,
                    );
                }
            }
            let ghost cells0 = cells@;
            hl_idx = advance_sweep(hl, hl_len, hl_idx, bi);
            let hit = sweep_hit(hl, hl_len, hl_idx, bi);
            let byte = data[bi];
            let ch = if 32 <= byte && byte <= 126 {
                byte
            } else {
                46
            };
            let style = if self.cursor_x == col && self.cursor_y == row {
                if self.has_focus {
                    Style::CursorFocus
                } else {
                    Style::CursorNoFocus
                }
            } else if hit {
                Style::Highlight
            } else {
                Style::Default
            };
            cells.push(Cell { x: col, y: row - self.scroll, ch: ch as char, style });
            proof {
                crate::highlight::lemma_sweep_idx_from_bounds(hl@, hl_len as int, bi as int, 0);
                let sbc = self.spec_byte_cell(data@, hl@, hl_len as int, bi as int);
                assert('.' == 46u8 as char);
                assert(cells@ =~= cells0 + seq![sbc]);
                assert(whole =~= cells@ + self.spec_draw_cells(
                    data@,
                    hl@,
                    hl_len as int,
                    bi + 1,
                ));
            }
            bi = bi + 1;
        }
        proof {
            assert(self.spec_draw_cells(data@, hl@, hl_len as int, bi as int) =~= Seq::empty());
            assert(cells@ =~= whole);
        }
        cells
    }

    /// Every cell of a render pass lies inside the pane.
    pub proof fn lemma_draw_cells_bounds(self, data: Seq<u8>, hl: Seq<usize>, hl_len: int, bi: int)
        requires
            1 <= self.width,
            0 <= self.scroll * self.width <= bi,
        ensures
            forall|k: int|
                0 <= k < self.spec_draw_cells(data, hl, hl_len, bi).len() ==> (
                #[trigger] self.spec_draw_cells(data, hl, hl_len, bi)[k]).x < self.width
                    && self.spec_draw_cells(data, hl, hl_len, bi)[k].y < self.height,
        decreases data.len() - bi,
    {
        let s = self.spec_draw_cells(data, hl, hl_len, bi);
        let w = self.width as int;
        if bi >= data.len() || bi / w >= self.scroll + self.height {
        } else {
            let head = self.spec_byte_cell(data, hl, hl_len, bi);
            let tail = self.spec_draw_cells(data, hl, hl_len, bi + 1);
            vstd::arithmetic::div_mod::lemma_fundamental_div_mod(bi, w);
            vstd::arithmetic::div_mod::lemma_mod_division_less_than_divisor(bi, w);
            vstd::arithmetic::div_mod::lemma_div_is_ordered(self.scroll * w, bi, w);
            vstd::arithmetic::div_mod::lemma_div_by_multiple(self.scroll as int, w);
            self.lemma_draw_cells_bounds(data, hl, hl_len, bi + 1);
            assert forall|k: int|
                0 <= k < s.len() implies (#[trigger] s[k]).x < self.width && s[k].y
                < self.height by {
                if k == 0 {
                    assert(s[k] == head);
                } else {
                    assert(s[k] == tail[k - 1]);
                }
            }
        }
    }

    /// Where the mirror puts its cursor and scroll for a byte offset: its
    /// own row and column (one column per byte), with a two-row margin
    /// pulled along only when the cursor leaves it.
    pub open spec fn spec_move_offset(self, byte_idx: int) -> AsciiView {
        let row = byte_idx / (self.width as int);
        let col = byte_idx % (self.width as int);
        let s = if row > self.scroll + self.height - 3 {
            row - (self.height - 3)
        } else if row < self.scroll + 2 {
            if row >= 2 {
                row - 2
            } else {
                0int
            }
        } else {
            self.scroll as int
        };
        AsciiView { cursor_x: col as usize, cursor_y: row as usize, scroll: s as usize, ..self }
    }

    pub fn move_cursor_offset(&mut self, byte_idx: usize)
        requires
            old(self).wf(),
            byte_idx < old(self).len || byte_idx == 0,
        ensures
            *final(self) == old(self).spec_move_offset(byte_idx as int),
            final(self).wf(),
    {
        proof {
            if byte_idx < self.len {
                crate::layout::lemma_offset_coords(
                    self.len as int,
                    self.width as int,
                    byte_idx as int,
                );
            } else {
                vstd::arithmetic::div_mod::lemma_basic_div(0, self.width as int);
                vstd::arithmetic::div_mod::lemma_small_mod(0, self.width as nat);
                crate::layout::lemma_total_lines_bounds(self.len as int, self.width as int);
            }
        }
        let cursor_y = byte_idx / self.width;
        let cursor_x = byte_idx % self.width;
        if cursor_y > self.scroll + (self.height - 3) {
            self.scroll = cursor_y - (self.height - 3);
        } else if cursor_y < self.scroll + 2 {
            self.scroll = if cursor_y >= 2 {
                cursor_y - 2
            } else {
                0
            };
        }
        self.cursor_y = cursor_y;
        self.cursor_x = cursor_x;
    }
}

} // verus!
