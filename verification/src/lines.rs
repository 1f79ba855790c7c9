//! The address-gutter pane: one hex address per visible line, following
//! the hex pane's cursor and scroll.

use vstd::prelude::*;

use crate::layout::{spec_total_lines, MAX_DIM, MAX_LEN};
use crate::utils::{hex_char, spec_hex_char};

verus! {

/// One rendered gutter row: the address text and whether the cursor's
/// line is this one.
#[derive(Debug, PartialEq)]
pub struct AddrLine {
    pub text: Vec<u8>,
    pub current: bool,
}

/// The gutter text for an address: `0x` followed by the address nibbles,
/// highest first, over the pane width.
pub open spec fn spec_hex_text(addr: u64, width: int) -> Seq<u8> {
    let digits = if width >= 2 {
        (width - 1) as nat
    } else {
        0nat
    };
    seq![48u8, 120u8] + Seq::new(
        digits,
        |i: int| spec_hex_char(((addr >> ((4 * (width - 2 - i)) as u64)) & 0xf) as u8),
    )
}

/// Widest address column the gutter renders: "0x" and up to fifteen more
/// hex digits.
pub const MAX_ADDR_WIDTH: usize = 17;

pub struct Lines {
    pub bytes_per_line: usize,
    /// Length of the byte buffer on display.
    pub length: usize,
    pub width: usize,
    pub height: usize,
    /// Byte offset (that is, address) of the hex pane's cursor.
    pub cursor: usize,
    pub scroll: usize,
}

impl Lines {
    pub open spec fn spec_total(self) -> int {
        spec_total_lines(self.length as int, self.bytes_per_line as int)
    }

    pub open spec fn wf(self) -> bool {
        &&& 1 <= self.bytes_per_line <= MAX_DIM
        &&& self.length <= MAX_LEN
        &&& self.width <= MAX_ADDR_WIDTH
        &&& 3 <= self.height <= MAX_DIM
        &&& self.cursor <= self.length
        &&& self.scroll <= self.spec_total()
    }

    pub fn new(bytes_per_line: usize, length: usize, width: usize, height: usize) -> (r: Lines)
        requires
            1 <= bytes_per_line <= MAX_DIM,
            length <= MAX_LEN,
            width <= MAX_ADDR_WIDTH,
            3 <= height <= MAX_DIM,
        ensures
            r == (Lines { bytes_per_line, length, width, height, cursor: 0, scroll: 0 }),
            r.wf(),
    {
        proof {
            crate::layout::lemma_total_lines_bounds(length as int, bytes_per_line as int);
        }
        Lines { bytes_per_line, length, width, height, cursor: 0, scroll: 0 }
    }

    pub fn width(&self) -> (r: usize)
        ensures
            r == self.width,
    {
        self.width
    }

    pub fn set_scroll(&mut self, scroll: usize)
        requires
            old(self).wf(),
            scroll <= old(self).spec_total(),
        ensures
            *final(self) == (Lines { scroll, ..*old(self) }),
            final(self).wf(),
    {
        self.scroll = scroll;
    }

    /// Rows the gutter shows: one per line of content inside the window.
    pub open spec fn spec_visible_rows(self) -> int {
        let t = self.spec_total();
        if self.height <= t - self.scroll {
            self.height as int
        } else {
            t - self.scroll
        }
    }

    /// One render pass of the address gutter: an address per visible
    /// line, marking the line the cursor rests on.
    pub fn draw(&self) -> (rows: Vec<AddrLine>)
        requires
            self.wf(),
        ensures
            rows@.len() == self.spec_visible_rows(),
            forall|i: int|
                0 <= i < rows@.len() ==> {
                    let addr = (self.scroll + i) * self.bytes_per_line;
                    &&& (#[trigger] rows@[i]).text@ == spec_hex_text(
                        addr as u64,
                        self.width as int,
                    )
                    &&& rows@[i].current == (addr <= self.cursor < addr + self.bytes_per_line)
                },
    {
        let bpl = self.bytes_per_line;
        let ghost t = self.spec_total();
        proof {
            crate::layout::lemma_total_lines_bounds(self.length as int, bpl as int);
            if self.length > 0 {
                assert(self.scroll * bpl <= self.length + bpl) by (nonlinear_arith)
                    requires
                        self.scroll <= t,
                        self.length as int <= t * bpl,
                        (t - 1) * bpl < self.length as int,
                        1 <= bpl,
                ;
            } else {
                assert(self.scroll * bpl == 0) by (nonlinear_arith)
                    requires
                        self.scroll == 0,
                ;
            }
        }
        let mut rows: Vec<AddrLine> = Vec::new();
        let mut addr = self.scroll * bpl;
        let mut line: usize = 0;
        while line < self.height && addr < self.length
            invariant
                self.wf(),
                bpl == self.bytes_per_line,
                t == self.spec_total(),
                0 <= line <= self.height,
                addr == (self.scroll + line) * bpl,
                addr <= self.length + bpl,
                line <= t - self.scroll,
                rows@.len() == line,
                forall|i: int|
                    0 <= i < line ==> {
                        let a = (self.scroll + i) * bpl;
                        &&& (#[trigger] rows@[i]).text@ == spec_hex_text(
                            a as u64,
                            self.width as int,
                        )
                        &&& rows@[i].current == (a <= self.cursor < a + bpl)
                    },
            decreases self.height - line,
        {
            let text = self.mk_hex_string(addr);
            let current = self.cursor >= addr && self.cursor < addr + bpl;
            rows.push(AddrLine { text, current });
            proof {
                assert((self.scroll + line + 1) * bpl == (self.scroll + line) * bpl + bpl)
                    by (nonlinear_arith);
                crate::layout::lemma_total_lines_bounds(self.length as int, bpl as int);
                // The address is still inside the buffer, so this line
                // index stays below the content's line count.
                assert(self.scroll + line < t) by {
                    if self.scroll + line >= t {
                        assert((self.scroll + line) * bpl >= t * bpl) by (nonlinear_arith)
                            requires
                                self.scroll + line >= t,
                                1 <= bpl,
                        ;
                    }
                }
            }
            addr = addr + bpl;
            line = line + 1;
        }
        proof {
            if line < self.height {
                // Stopped at the end of the content: the line index has
                // reached the content's line count.
                assert(self.scroll + line >= t) by {
                    if self.scroll + line < t {
                        assert((self.scroll + line) * bpl < self.length as int) by {
                            assert((self.scroll + line) * bpl <= (t - 1) * bpl)
                                by (nonlinear_arith)
                                requires
                                    self.scroll + line <= t - 1,
                                    1 <= bpl,
                            ;
                        }
                    }
                }
            }
        }
        rows
    }

    /// The gutter text for `addr` over this pane's width.
    fn mk_hex_string(&self, addr: usize) -> (r: Vec<u8>)
        requires
            self.width <= MAX_ADDR_WIDTH,
        ensures
            r@ == spec_hex_text(addr as u64, self.width as int),
    {
        let mut ret: Vec<u8> = Vec::new();
        ret.push(48);
        ret.push(120);
        if self.width >= 2 {
            let digits = self.width - 1;
            let mut i: usize = 0;
            while i < digits
                invariant
                    0 <= i <= digits,
                    digits == self.width - 1,
                    2 <= self.width <= MAX_ADDR_WIDTH,
                    ret@ == seq![48u8, 120u8] + Seq::new(
                        i as nat,
                        |k: int| spec_hex_char(
                            (((addr as u64) >> ((4 * (self.width - 2 - k)) as u64))
                                & 0xf) as u8,
                        ),
                    ),
                decreases digits - i,
            {
                let sh: u64 = (4 * (self.width - 2 - i)) as u64;
                let nibble = (((addr as u64) >> sh) & 0xf) as u8;
                proof {
                    assert(((addr as u64) >> sh) & 0xf < 16) by (bit_vector);
                }
                ret.push(hex_char(nibble));
                proof {
                    assert(ret@ =~= seq![48u8, 120u8] + Seq::new(
                        (i + 1) as nat,
                        |k: int| spec_hex_char(
                            (((addr as u64) >> ((4 * (self.width - 2 - k)) as u64))
                                & 0xf) as u8,
                        ),
                    ));
                }
                i = i + 1;
            }
            proof {
                assert(ret@ =~= spec_hex_text(addr as u64, self.width as int));
            }
        } else {
            proof {
                assert(ret@ =~= spec_hex_text(addr as u64, self.width as int));
            }
        }
        ret
    }

    /// Where the gutter's scroll lands for a byte offset: the offset's line
    /// (rounded up past a line boundary), clamped into the same margin
    /// window the hex pane uses.
    pub open spec fn spec_move_offset(self, byte_offset: int) -> Lines {
        let bpl = self.bytes_per_line as int;
        let line = byte_offset / bpl + if byte_offset % bpl != 0 {
            1int
        } else {
            0int
        };
        let min_s = if line + 3 > self.height {
            line + 3 - self.height
        } else {
            0int
        };
        let max_s = if line >= 3 {
            line - 3
        } else {
            0int
        };
        let s = if self.scroll > max_s {
            max_s
        } else if self.scroll < min_s {
            min_s
        } else {
            self.scroll as int
        };
        Lines { cursor: byte_offset as usize, scroll: s as usize, ..self }
    }

    pub fn move_cursor_offset(&mut self, byte_offset: usize)
        requires
            old(self).wf(),
            byte_offset < old(self).length || byte_offset == 0,
        ensures
            *final(self) == old(self).spec_move_offset(byte_offset as int),
            final(self).wf(),
    {
        proof {
            if byte_offset < self.length {
                crate::layout::lemma_offset_coords(
                    self.length as int,
                    self.bytes_per_line as int,
                    byte_offset as int,
                );
                crate::layout::lemma_total_lines_bounds(
                    self.length as int,
                    self.bytes_per_line as int,
                );
            } else {
                vstd::arithmetic::div_mod::lemma_basic_div(0, self.bytes_per_line as int);
                vstd::arithmetic::div_mod::lemma_small_mod(0, self.bytes_per_line as nat);
                crate::layout::lemma_total_lines_bounds(
                    self.length as int,
                    self.bytes_per_line as int,
                );
            }
        }
        self.cursor = byte_offset;
        let mut line = byte_offset / self.bytes_per_line;
        if byte_offset % self.bytes_per_line != 0 {
            line = line + 1;
        }
        let min_scroll = if line + 3 > self.height {
            line + 3 - self.height
        } else {
            0
        };
        let max_scroll = if line >= 3 {
            line - 3
        } else {
            0
        };
        if self.scroll > max_scroll {
            self.scroll = max_scroll;
        } else if self.scroll < min_scroll {
            self.scroll = min_scroll;
        }
    }
}

} // verus!
