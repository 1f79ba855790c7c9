//! The goto overlay: collects decimal digits and parses them into a byte
//! offset for a direct cursor jump. Only digits enter the buffer, so the
//! parse cannot fail; the jump itself clamps to the buffer bounds.

use vstd::prelude::*;

use crate::keys::Key;
use crate::layout::MAX_LEN;
use crate::style::{Cell, Style};
use crate::utils::{draw_box, extend_cells, print, spec_box, spec_print};

verus! {

/// The prompt shown above the input line.
pub open spec fn spec_goto_label() -> Seq<u8> {
    seq![71u8, 111u8, 116u8, 111u8, 32u8, 98u8, 121u8, 116u8, 101u8, 32u8, 111u8, 102u8,
        102u8, 115u8, 101u8, 116u8, 58u8]
}

/// Return value of the overlay, from `keypressed`.
#[derive(Clone, Copy, PartialEq, Eq, Structural, Debug)]
pub enum OverlayRet {
    /// User submitted the form.
    Ret(usize),
    /// For vi-like "go to beginning" (`gg`).
    GotoBeginning,
    /// User cancelled.
    Abort,
    /// Overlay still has focus.
    Continue,
}

/// The non-negative integer the digit string denotes.
pub open spec fn spec_decimal(digits: Seq<u8>) -> int
    decreases digits.len(),
{
    if digits.len() == 0 {
        0int
    } else {
        spec_decimal(digits.drop_last()) * 10 + (digits.last() - 48)
    }
}

/// The same, saturated at the largest representable offset.
pub open spec fn spec_clamped_decimal(digits: Seq<u8>) -> int {
    if spec_decimal(digits) > usize::MAX {
        usize::MAX as int
    } else {
        spec_decimal(digits)
    }
}

pub struct GotoOverlay {
    pub pos_x: usize,
    pub pos_y: usize,
    pub width: usize,
    pub height: usize,
    /// The digits typed so far, as ASCII bytes.
    pub input: Vec<u8>,
}

/// The abstract state of the goto overlay.
#[verifier::ext_equal]
pub struct GotoModel {
    pub pos_x: int,
    pub pos_y: int,
    pub width: int,
    pub height: int,
    pub input: Seq<u8>,
}

impl GotoModel {
    /// Only ASCII digits ever enter the input buffer.
    pub open spec fn wf(self) -> bool {
        forall|j: int| 0 <= j < self.input.len() ==> 48 <= #[trigger] self.input[j] <= 57
    }

    /// State after one key: digits accumulate, backspace removes the last
    /// digit, everything else leaves the buffer alone.
    pub open spec fn spec_step(self, key: Key) -> GotoModel {
        match key {
            Key::Char(c) => if 48 <= c as u32 && c as u32 <= 57 {
                GotoModel { input: self.input.push((c as u32) as u8), ..self }
            } else {
                self
            },
            Key::Backspace => if self.input.len() == 0 {
                self
            } else {
                GotoModel { input: self.input.drop_last(), ..self }
            },
            _ => self,
        }
    }

    /// What the overlay reports for one key: enter submits the parsed
    /// offset (or aborts when nothing was typed), `g` asks for the
    /// beginning, escape aborts, and everything else keeps the focus.
    pub open spec fn spec_ret(self, key: Key) -> OverlayRet {
        match key {
            Key::Char(c) => if 48 <= c as u32 && c as u32 <= 57 {
                OverlayRet::Continue
            } else if c == 'g' {
                OverlayRet::GotoBeginning
            } else if c == '\r' {
                if self.input.len() == 0 {
                    OverlayRet::Abort
                } else {
                    OverlayRet::Ret(spec_clamped_decimal(self.input) as usize)
                }
            } else {
                OverlayRet::Continue
            },
            Key::Esc => OverlayRet::Abort,
            _ => OverlayRet::Continue,
        }
    }
}

impl View for GotoOverlay {
    type V = GotoModel;

    open spec fn view(&self) -> GotoModel {
        GotoModel {
            pos_x: self.pos_x as int,
            pos_y: self.pos_y as int,
            width: self.width as int,
            height: self.height as int,
            input: self.input@,
        }
    }
}

impl GotoOverlay {
    /// Only ASCII digits ever enter the input buffer.
    pub open spec fn wf(self) -> bool {
        self@.wf()
    }

    pub fn new(width: usize, height: usize, pos_x: usize, pos_y: usize) -> (r: GotoOverlay)
        requires
            pos_x + width <= MAX_LEN,
            pos_y + height <= MAX_LEN,
        ensures
            r.wf(),
            r.input@.len() == 0,
            r.width == if width < 50 { width as int } else { 50int },
            r.height == if height < 10 { height as int } else { 10int },
            r.pos_x == pos_x + (width - r.width) / 2,
            r.pos_y == pos_y + (height - r.height) / 2,
    {
        let width_ = if width < 50 { width } else { 50 };
        let height_ = if height < 10 { height } else { 10 };
        GotoOverlay {
            pos_x: pos_x + (width - width_) / 2,
            pos_y: pos_y + (height - height_) / 2,
            width: width_,
            height: height_,
            input: Vec::new(),
        }
    }

    /// Everything one render pass of the goto overlay shows: its box,
    /// the prompt, the digits typed so far and the input cursor.
    pub open spec fn spec_draw_cells(self) -> Seq<Cell> {
        spec_box(
            self.pos_x as int,
            self.pos_y as int,
            self.width as int,
            self.height as int,
        ) + spec_print(self.pos_x + 5, self.pos_y + 3, Style::Default, spec_goto_label())
            + spec_print(self.pos_x + 5, self.pos_y + 5, Style::Default, seq![62u8])
            + spec_print(self.pos_x + 7, self.pos_y + 5, Style::Default, self.input@)
            + seq![
            Cell {
                x: (self.pos_x + 7 + self.input@.len()) as usize,
                y: (self.pos_y + 5) as usize,
                ch: ' ',
                style: Style::CursorFocus,
            },
        ]
    }

    /// One render pass of the goto overlay.
    pub fn draw(&self) -> (cells: Vec<Cell>)
        requires
            2 <= self.width,
            2 <= self.height,
            self.pos_x + self.width <= MAX_LEN,
            self.pos_y + self.height <= MAX_LEN,
            self.pos_x + 50 <= MAX_LEN,
            self.pos_x + 8 + self.input@.len() <= MAX_LEN,
        ensures
            cells@ == self.spec_draw_cells(),
    {
        let mut cells = draw_box(self.pos_x, self.pos_y, self.width, self.height);
        let label: Vec<u8> = vec![
            71u8, 111, 116, 111, 32, 98, 121, 116, 101, 32, 111, 102, 102, 115, 101, 116, 58,
        ];
        proof {
            assert(label@ =~= spec_goto_label());
        }
        extend_cells(
            &mut cells,
            print(self.pos_x + 5, self.pos_y + 3, Style::Default, label.as_slice()),
        );
        let prompt: Vec<u8> = vec![62u8];
        proof {
            assert(prompt@ =~= seq![62u8]);
        }
        extend_cells(
            &mut cells,
            print(self.pos_x + 5, self.pos_y + 5, Style::Default, prompt.as_slice()),
        );
        extend_cells(
            &mut cells,
            print(self.pos_x + 7, self.pos_y + 5, Style::Default, self.input.as_slice()),
        );
        cells.push(
            Cell {
                x: self.pos_x + 7 + self.input.len(),
                y: self.pos_y + 5,
                ch: ' ',
                style: Style::CursorFocus,
            },
        );
        proof {
            assert(cells@ =~= spec_box(
                self.pos_x as int,
                self.pos_y as int,
                self.width as int,
                self.height as int,
            ) + spec_print(self.pos_x + 5, self.pos_y + 3, Style::Default, spec_goto_label())
                + spec_print(self.pos_x + 5, self.pos_y + 5, Style::Default, seq![62u8])
                + spec_print(self.pos_x + 7, self.pos_y + 5, Style::Default, self.input@)
                + seq![
                Cell {
                    x: (self.pos_x + 7 + self.input@.len()) as usize,
                    y: (self.pos_y + 5) as usize,
                    ch: ' ',
                    style: Style::CursorFocus,
                },
            ]);
        }
        cells
    }

    /// Handle one key while the goto overlay has focus: digits accumulate,
    /// backspace removes the last digit, enter submits the parsed offset
    /// (or aborts when empty), a leading-independent `g` asks for the
    /// beginning, escape aborts, and everything else is ignored.
    pub fn keypressed(&mut self, key: Key) -> (r: OverlayRet)
        requires
            old(self).wf(),
        ensures
            final(self).wf(),
            final(self)@ == old(self)@.spec_step(key),
            r == old(self)@.spec_ret(key),
    {
        match key {
            Key::Char(ch) => {
                let code = ch as u32;
                if 48 <= code && code <= 57 {
                    self.input.push(code as u8);
                    proof {
                        assert(48 <= code as u8 <= 57) by (bit_vector)
                            requires
                                48 <= code <= 57,
                        ;
                        assert forall|j: int|
                            0 <= j < self.input@.len() implies 48 <= #[trigger] self.input@[j]
                            <= 57 by {
                            if j < self.input@.len() - 1 {
                                assert(self.input@[j] == old(self).input@[j]);
                                assert(48 <= old(self)@.input[j] <= 57);
                            } else {
                                assert(self.input@[j] == code as u8);
                            }
                        }
                    }
                    OverlayRet::Continue
                } else if ch == 'g' {
                    OverlayRet::GotoBeginning
                } else if ch == '\r' {
                    if self.input.len() == 0 {
                        OverlayRet::Abort
                    } else {
                        OverlayRet::Ret(self.parse_input())
                    }
                } else {
                    OverlayRet::Continue
                }
            },
            Key::Esc => OverlayRet::Abort,
            Key::Backspace => {
                let popped: Option<u8> = self.input.pop();
                proof {
                    assert forall|j: int|
                        0 <= j < self.input@.len() implies 48 <= #[trigger] self.input@[j]
                        <= 57 by {
                        assert(self.input@[j] == old(self).input@[j]);
                        assert(48 <= old(self)@.input[j] <= 57);
                    }
                }
                OverlayRet::Continue
            },
            _ => OverlayRet::Continue,
        }
    }

    /// Parse the digit buffer as a decimal offset, saturating at the
    /// largest representable offset.
    fn parse_input(&self) -> (r: usize)
        requires
            self.wf(),
        ensures
            r == spec_clamped_decimal(self.input@),
    {
        proof {
            assert(self@.input == self.input@);
        }
        let n = self.input.len();
        let mut acc: usize = 0;
        let mut i: usize = 0;
        while i < n
            invariant
                0 <= i <= n,
                n == self.input@.len(),
                forall|j: int| 0 <= j < self.input@.len() ==> 48 <= #[trigger] self.input@[j] <= 57,
                acc == spec_clamped_decimal(self.input@.take(i as int)),
            decreases n - i,
        {
            let d = self.input[i] - 48;
            let ghost pre = self.input@.take(i as int);
            let ghost post = self.input@.take(i as int + 1);
            proof {
                assert(post.drop_last() =~= pre);
                assert(post.last() == self.input@[i as int]);
                assert forall|j: int| 0 <= j < pre.len() implies 48 <= #[trigger] pre[j] <= 57 by {
                    assert(pre[j] == self.input@[j]);
                }
                lemma_decimal_nonneg(pre);
            }
            if acc > (usize::MAX - (d as usize)) / 10 {
                proof {
                    let m = usize::MAX as int;
                    vstd::arithmetic::div_mod::lemma_fundamental_div_mod(m - d, 10);
                    vstd::arithmetic::div_mod::lemma_mod_division_less_than_divisor(m - d, 10);
                    if spec_decimal(pre) <= m {
                        assert(acc * 10 + d > m) by (nonlinear_arith)
                            requires
                                acc > (m - d) / 10,
                                m - d == 10 * ((m - d) / 10) + (m - d) % 10,
                                0 <= (m - d) % 10 < 10,
                        ;
                    } else {
                        assert(spec_decimal(post) > m) by (nonlinear_arith)
                            requires
                                spec_decimal(post) == spec_decimal(pre) * 10 + d,
                                spec_decimal(pre) > m,
                                0 <= d,
                                m > 0,
                        ;
                    }
                }
                acc = usize::MAX;
            } else {
                proof {
                    let m = usize::MAX as int;
                    vstd::arithmetic::div_mod::lemma_fundamental_div_mod(m - d, 10);
                    vstd::arithmetic::div_mod::lemma_mod_division_less_than_divisor(m - d, 10);
                    assert(acc * 10 + d <= m) by (nonlinear_arith)
                        requires
                            acc <= (m - d) / 10,
                            0 <= acc,
                            m - d == 10 * ((m - d) / 10) + (m - d) % 10,
                            0 <= (m - d) % 10 < 10,
                    ;
                    // A clamped prefix cannot take this branch: the
                    // accumulator would already exceed the saturation test.
                    if spec_decimal(pre) > m {
                        assert((m - d) / 10 < m) by (nonlinear_arith)
                            requires
                                m - d == 10 * ((m - d) / 10) + (m - d) % 10,
                                0 <= (m - d) % 10 < 10,
                                0 <= d <= 9,
                                m >= 100,
                        ;
                        assert(false);
                    }
                }
                acc = acc * 10 + (d as usize);
            }
            i = i + 1;
        }
        proof {
            assert(self.input@.take(n as int) =~= self.input@);
        }
        acc
    }
}

/// A digit string denotes a non-negative number.
pub proof fn lemma_decimal_nonneg(digits: Seq<u8>)
    requires
        forall|j: int| 0 <= j < digits.len() ==> 48 <= #[trigger] digits[j] <= 57,
    ensures
        spec_decimal(digits) >= 0,
    decreases digits.len(),
{
    if digits.len() > 0 {
        lemma_decimal_nonneg(digits.drop_last());
        assert(spec_decimal(digits) == spec_decimal(digits.drop_last()) * 10 + (digits.last()
            - 48));
        assert(spec_decimal(digits.drop_last()) * 10 >= 0) by (nonlinear_arith)
            requires
                spec_decimal(digits.drop_last()) >= 0,
        ;
    }
}

} // verus!
