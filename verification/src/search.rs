//! The search overlay: a dual-mode (ASCII / hex-nibble) editable byte
//! pattern, and the linear non-overlapping scan that produces the match
//! offset list.

use vstd::prelude::*;

use crate::keys::Key;
use crate::layout::MAX_LEN;
use crate::style::{Cell, Style};
use crate::utils::{
    draw_box, extend_cells, hex_char, spec_box, spec_hex_char, spec_vrun,
};

verus! {

/// The pattern occurs in `data` at offset `i`.
pub open spec fn is_match_at(data: Seq<u8>, pat: Seq<u8>, i: int) -> bool {
    &&& 0 <= i
    &&& i + pat.len() <= data.len()
    &&& data.subrange(i, i + pat.len() as int) == pat
}

/// The offsets the non-overlapping left-to-right scan reports from
/// position `i` on: at a match, record it and skip past the whole matched
/// region; otherwise step one byte.
pub open spec fn scan_from(data: Seq<u8>, pat: Seq<u8>, i: int) -> Seq<int>
    recommends
        0 <= i,
        pat.len() > 0,
    decreases data.len() - i,
        when 0 <= i && pat.len() > 0
{
    if i >= data.len() {
        Seq::empty()
    } else if is_match_at(data, pat, i) {
        seq![i] + scan_from(data, pat, i + pat.len() as int)
    } else {
        scan_from(data, pat, i + 1)
    }
}

/// A well-formed match list for a scan that started at `i`: every entry is
/// a real match at or after `i`, and consecutive entries never overlap.
pub open spec fn scan_ok(data: Seq<u8>, pat: Seq<u8>, i: int, s: Seq<int>) -> bool {
    &&& forall|k: int|
        0 <= k < s.len() ==> is_match_at(data, pat, #[trigger] s[k]) && i <= s[k]
    &&& forall|k: int| 0 <= k && k + 1 < s.len() ==> #[trigger] s[k] + pat.len() <= s[k + 1]
}

/// Every reported offset is a real match, lies at or after the scan start,
/// and consecutive reports never overlap: `s[k] + pat.len() <= s[k + 1]`.
pub proof fn lemma_scan_from_properties(data: Seq<u8>, pat: Seq<u8>, i: int)
    requires
        0 <= i,
        pat.len() > 0,
    ensures
        scan_ok(data, pat, i, scan_from(data, pat, i)),
    decreases data.len() - i,
{
    let s = scan_from(data, pat, i);
    if i >= data.len() {
        assert(s.len() == 0);
    } else if is_match_at(data, pat, i) {
        let tail = scan_from(data, pat, i + pat.len() as int);
        lemma_scan_from_properties(data, pat, i + pat.len() as int);
        assert(s == seq![i] + tail);
        assert(s[0] == i);
        assert forall|k: int| 0 <= k < s.len() implies is_match_at(data, pat, #[trigger] s[k])
            && i <= s[k] by {
            if k > 0 {
                assert(s[k] == tail[k - 1]);
            }
        }
        assert forall|k: int| 0 <= k && k + 1 < s.len() implies #[trigger] s[k] + pat.len() <= s[k
            + 1] by {
            if k == 0 {
                assert(s[1] == tail[0]);
                assert(i + pat.len() <= tail[0]);
            } else {
                assert(s[k] == tail[k - 1] && s[k + 1] == tail[k]);
            }
        }
    } else {
        lemma_scan_from_properties(data, pat, i + 1);
        assert(s == scan_from(data, pat, i + 1));
    }
}

/// The match list of a whole-buffer scan is strictly ascending and
/// non-overlapping, and every entry is a true occurrence of the pattern:
/// `s[k] + pat.len() <= s[k + 1]`, so in particular `s[k] < s[k + 1]`.
pub proof fn lemma_scan_sorted_nonoverlapping(data: Seq<u8>, pat: Seq<u8>)
    requires
        pat.len() > 0,
    ensures
        scan_ok(data, pat, 0, scan_from(data, pat, 0)),
{
    lemma_scan_from_properties(data, pat, 0);
}

/// The first `s2.len()` bytes of `s1` equal `s2` (false when `s2` is the
/// longer one).
fn try_match(s1: &[u8], s2: &[u8]) -> (r: bool)
    ensures
        r == (s2@.len() <= s1@.len() && s1@.subrange(0, s2@.len() as int) == s2@),
{
    if s2.len() > s1.len() {
        false
    } else {
        let n = s2.len();
        let mut i: usize = 0;
        while i < n
            invariant
                0 <= i <= n,
                n == s2@.len() <= s1@.len(),
                forall|j: int| 0 <= j < i ==> s1@[j] == s2@[j],
            decreases n - i,
        {
            if s1[i] != s2[i] {
                assert(s1@.subrange(0, n as int) != s2@) by {
                    assert(s1@.subrange(0, n as int)[i as int] != s2@[i as int]);
                }
                return false;
            }
            i = i + 1;
        }
        assert(s1@.subrange(0, n as int) =~= s2@);
        true
    }
}

/// The linear non-overlapping scan over the whole buffer.
fn find_offsets(contents: &[u8], pattern: &Vec<u8>) -> (r: Vec<usize>)
    requires
        pattern@.len() > 0,
    ensures
        r@.map_values(|x: usize| x as int) == scan_from(contents@, pattern@, 0),
{
    let ghost data = contents@;
    let ghost pat = pattern@;
    let mut ret: Vec<usize> = Vec::new();
    let first_byte = pattern[0];
    let mut byte_offset: usize = 0;
    while byte_offset < contents.len()
        invariant
            0 <= byte_offset <= data.len(),
            data == contents@,
            pat == pattern@,
            pat.len() > 0,
            first_byte == pat[0],
            scan_from(data, pat, 0) == ret@.map_values(|x: usize| x as int) + scan_from(
                data,
                pat,
                byte_offset as int,
            ),
        decreases data.len() - byte_offset,
    {
        let byte = contents[byte_offset];
        let matched = if byte == first_byte {
            let rest = vstd::slice::slice_subrange(contents, byte_offset + 1, contents.len());
            let pat_tail = vstd::slice::slice_subrange(pattern.as_slice(), 1, pattern.len());
            try_match(rest, pat_tail)
        } else {
            false
        };
        proof {
            lemma_tail_match(data, pat, byte_offset as int, matched);
        }
        if matched {
            ret.push(byte_offset);
            proof {
                assert(ret@.map_values(|x: usize| x as int) =~= ret@.drop_last().map_values(
                    |x: usize| x as int,
                ) + seq![byte_offset as int]);
                assert(scan_from(data, pat, byte_offset as int) == seq![byte_offset as int]
                    + scan_from(data, pat, byte_offset + pat.len()));
            }
            byte_offset = byte_offset + pattern.len();
        } else {
            byte_offset = byte_offset + 1;
        }
    }
    ret
}

/// Comparing the pattern's tail against the buffer's tail decides a match
/// exactly when the whole pattern occurs at `i`.
proof fn lemma_tail_match(data: Seq<u8>, pat: Seq<u8>, i: int, cond: bool)
    requires
        pat.len() > 0,
        0 <= i < data.len(),
        cond == (data[i] == pat[0] && pat.len() - 1 <= data.len() - (i + 1) && data.subrange(
            i + 1,
            data.len() as int,
        ).subrange(0, pat.len() - 1) == pat.subrange(1, pat.len() as int)),
    ensures
        cond == is_match_at(data, pat, i),
{
    let whole = data.subrange(i, i + pat.len() as int);
    let tail = data.subrange(i + 1, data.len() as int).subrange(0, pat.len() - 1);
    if cond {
        assert forall|j: int| 0 <= j < pat.len() implies whole[j] == pat[j] by {
            if j > 0 {
                assert(tail[j - 1] == pat.subrange(1, pat.len() as int)[j - 1]);
            }
        }
        assert(whole =~= pat);
    } else {
        if is_match_at(data, pat, i) {
            assert(whole[0] == pat[0]);
            assert forall|j: int| 0 <= j < pat.len() - 1 implies tail[j] == pat.subrange(
                1,
                pat.len() as int,
            )[j] by {
                assert(whole[j + 1] == pat[j + 1]);
            }
            assert(tail =~= pat.subrange(1, pat.len() as int));
            assert(false);
        }
    }
}

#[derive(Clone, Copy, PartialEq, Eq, Structural, Debug)]
pub enum SearchMode {
    Ascii,
    Hex,
}

#[derive(Clone, Copy, PartialEq, Eq, Structural, Debug)]
pub enum NibbleCursor {
    /// More significant half.
    MS,
    /// Less significant half.
    LS,
}

/// Outcome of one key in the search overlay.
pub enum SearchRet {
    /// Highlight these bytes and close the overlay.
    Highlight {
        /// Byte of the pattern in focus when the search was submitted.
        focus: usize,
        /// All matching byte offsets, ascending and non-overlapping.
        all_bytes: Vec<usize>,
        /// Length of the searched pattern.
        len: usize,
    },
    /// User cancelled.
    Abort,
    /// Carry on.
    Continue,
}

/// The abstract state of the pattern editor: what spec-level transitions
/// speak about.
#[verifier::ext_equal]
pub struct SearchModel {
    pub pos_x: int,
    pub pos_y: int,
    pub width: int,
    pub height: int,
    pub mode: SearchMode,
    pub pattern: Seq<u8>,
    pub byte_cursor: int,
    pub nibble_cursor: NibbleCursor,
}

impl SearchModel {
    /// The cursor stays inside the pattern, strictly so while a byte's
    /// less-significant nibble is being edited.
    pub open spec fn wf(self) -> bool {
        &&& 0 <= self.byte_cursor <= self.pattern.len()
        &&& self.nibble_cursor is LS ==> self.byte_cursor < self.pattern.len()
    }

    /// State after the pattern editor consumes one key (unchanged for the
    /// submit and abort keys, which only report a result).
    pub open spec fn spec_step(self, key: Key) -> SearchModel {
        match key {
            Key::Tab => SearchModel {
                mode: if self.mode is Ascii {
                    SearchMode::Hex
                } else {
                    SearchMode::Ascii
                },
                ..self
            },
            Key::Backspace => self.spec_backspace(),
            Key::Char(c) => if c == '\r' {
                self
            } else {
                self.spec_char(c)
            },
            _ => self,
        }
    }

    pub open spec fn spec_backspace(self) -> SearchModel {
        if self.mode is Ascii {
            if self.pattern.len() == 0 {
                self
            } else {
                SearchModel {
                    pattern: self.pattern.drop_last(),
                    byte_cursor: if self.byte_cursor != 0 {
                        self.byte_cursor - 1
                    } else {
                        self.byte_cursor
                    },
                    nibble_cursor: NibbleCursor::MS,
                    ..self
                }
            }
        } else {
            match self.nibble_cursor {
                NibbleCursor::LS => SearchModel {
                    pattern: self.pattern.update(
                        self.byte_cursor,
                        (self.pattern[self.byte_cursor] & 0xf0) as u8,
                    ),
                    nibble_cursor: NibbleCursor::MS,
                    ..self
                },
                NibbleCursor::MS => if self.byte_cursor >= self.pattern.len() && self.byte_cursor
                    != 0 {
                    SearchModel {
                        byte_cursor: self.byte_cursor - 1,
                        nibble_cursor: NibbleCursor::LS,
                        ..self
                    }
                } else if self.pattern.len() == 0 {
                    SearchModel { nibble_cursor: NibbleCursor::MS, ..self }
                } else if self.byte_cursor != 0 {
                    SearchModel {
                        pattern: self.pattern.drop_last(),
                        byte_cursor: self.byte_cursor - 1,
                        nibble_cursor: NibbleCursor::LS,
                        ..self
                    }
                } else {
                    SearchModel {
                        pattern: self.pattern.drop_last(),
                        nibble_cursor: NibbleCursor::MS,
                        ..self
                    }
                },
            }
        }
    }

    pub open spec fn spec_char(self, c: char) -> SearchModel {
        let code = c as u32;
        if self.mode is Ascii {
            if code <= 0xff {
                SearchModel {
                    pattern: self.pattern.push(code as u8),
                    byte_cursor: self.byte_cursor + 1,
                    nibble_cursor: NibbleCursor::MS,
                    ..self
                }
            } else {
                self
            }
        } else {
            if spec_hex_digit(code) is Some {
                let nibble = spec_hex_digit(code)->Some_0;
                let current_byte: u8 = if self.byte_cursor >= self.pattern.len() {
                    0u8
                } else {
                    self.pattern[self.byte_cursor]
                };
                let new_byte: u8 = match self.nibble_cursor {
                    NibbleCursor::MS => ((current_byte & 0x0f) | (nibble << 4)) as u8,
                    NibbleCursor::LS => ((current_byte & 0xf0) | nibble) as u8,
                };
                if self.byte_cursor >= self.pattern.len() {
                    SearchModel {
                        pattern: self.pattern.push(new_byte),
                        nibble_cursor: NibbleCursor::LS,
                        ..self
                    }
                } else {
                    match self.nibble_cursor {
                        NibbleCursor::MS => SearchModel {
                            pattern: self.pattern.update(self.byte_cursor, new_byte),
                            nibble_cursor: NibbleCursor::LS,
                            ..self
                        },
                        NibbleCursor::LS => SearchModel {
                            pattern: self.pattern.update(self.byte_cursor, new_byte),
                            nibble_cursor: NibbleCursor::MS,
                            byte_cursor: self.byte_cursor + 1,
                            ..self
                        },
                    }
                }
            } else {
                self
            }
        }
    }
}

/// The hex digit value of a key code, if it is one.
pub open spec fn spec_hex_digit(code: u32) -> Option<u8> {
    if 65 <= code <= 70 {
        Some((code - 55) as u8)
    } else if 97 <= code <= 102 {
        Some((code - 87) as u8)
    } else if 48 <= code <= 57 {
        Some((code - 48) as u8)
    } else {
        None
    }
}

pub struct SearchOverlay {
    pub pos_x: usize,
    pub pos_y: usize,
    pub width: usize,
    pub height: usize,
    pub mode: SearchMode,
    pub buffer: Vec<u8>,
    /// Byte offset in the pattern buffer; equal to the buffer length at the
    /// append position.
    pub byte_cursor: usize,
    pub nibble_cursor: NibbleCursor,
}

impl View for SearchOverlay {
    type V = SearchModel;

    open spec fn view(&self) -> SearchModel {
        SearchModel {
            pos_x: self.pos_x as int,
            pos_y: self.pos_y as int,
            width: self.width as int,
            height: self.height as int,
            mode: self.mode,
            pattern: self.buffer@,
            byte_cursor: self.byte_cursor as int,
            nibble_cursor: self.nibble_cursor,
        }
    }
}

impl SearchOverlay {
    pub open spec fn wf(self) -> bool {
        self@.wf()
    }

    pub fn new(width: usize, height: usize, pos_x: usize, pos_y: usize) -> (r: SearchOverlay)
        requires
            pos_x + width <= MAX_LEN,
            pos_y + height <= MAX_LEN,
        ensures
            r.wf(),
            r.buffer@.len() == 0,
            r.byte_cursor == 0,
            r.nibble_cursor is MS,
            r.mode is Ascii,
            r.width == if width < 50 { width as int } else { 50int },
            r.height == if height < 10 { height as int } else { 10int },
            r.pos_x == pos_x + (width - r.width) / 2,
            r.pos_y == pos_y + (height - r.height) / 2,
    {
        let width_ = if width < 50 { width } else { 50 };
        let height_ = if height < 10 { height } else { 10 };
        SearchOverlay {
            pos_x: pos_x + (width - width_) / 2,
            pos_y: pos_y + (height - height_) / 2,
            width: width_,
            height: height_,
            mode: SearchMode::Ascii,
            buffer: Vec::new(),
            byte_cursor: 0,
            nibble_cursor: NibbleCursor::MS,
        }
    }

    /// The pattern echoed as hex digit pairs in the overlay's right half:
    /// the running column wraps to a new row just before it would touch
    /// the half's edge, mirroring the way the cells are laid down.
    pub open spec fn spec_hex_echo(
        pos_x: int,
        pos_y: int,
        start_column: int,
        w2: int,
        pattern: Seq<u8>,
        i: int,
        col: int,
        row: int,
    ) -> Seq<Cell>
        decreases pattern.len() - i,
            when 0 <= i
    {
        if i >= pattern.len() {
            Seq::empty()
        } else {
            let colr = if col + 1 >= w2 {
                1int
            } else {
                col
            };
            let rowr = if col + 1 >= w2 {
                row + 1
            } else {
                row
            };
            let byte = pattern[i];
            seq![
                Cell {
                    x: (pos_x + start_column + colr) as usize,
                    y: (pos_y + rowr) as usize,
                    ch: spec_hex_char((byte >> 4) as u8) as char,
                    style: Style::Default,
                },
                Cell {
                    x: (pos_x + start_column + colr + 1) as usize,
                    y: (pos_y + rowr) as usize,
                    ch: spec_hex_char((byte & 0x0f) as u8) as char,
                    style: Style::Default,
                },
            ] + SearchOverlay::spec_hex_echo(
                pos_x,
                pos_y,
                start_column,
                w2,
                pattern,
                i + 1,
                colr + 3,
                rowr,
            )
        }
    }

    /// The hex half's cursor cell: the active nibble of the byte under
    /// the cursor, or a blank at the append position.
    pub open spec fn spec_hex_cursor_cell(self) -> Cell {
        let w2 = self.width as int / 2 - 1;
        let bpl = w2 / 3;
        let cursor_x_byte = self.byte_cursor as int % bpl;
        let cursor_x = cursor_x_byte * 3 + 1 + if self.nibble_cursor is LS {
            1int
        } else {
            0int
        };
        let cursor_y = self.byte_cursor as int / bpl;
        let glyph = if self.byte_cursor >= self.buffer@.len() {
            ' '
        } else if self.nibble_cursor is MS {
            spec_hex_char((self.buffer@[self.byte_cursor as int] >> 4) as u8) as char
        } else {
            spec_hex_char((self.buffer@[self.byte_cursor as int] & 0x0f) as u8) as char
        };
        Cell {
            x: (self.pos_x + self.width as int / 2 + cursor_x) as usize,
            y: (self.pos_y + cursor_y + 1) as usize,
            ch: glyph,
            style: if self.mode is Hex {
                Style::CursorFocus
            } else {
                Style::CursorNoFocus
            },
        }
    }

    /// The pattern echoed as characters in the overlay's left half, one
    /// column per byte, wrapped at the half's width.
    pub open spec fn spec_ascii_echo(self) -> Seq<Cell> {
        let wdt = (self.width as int - 1) / 2;
        Seq::new(
            self.buffer@.len(),
            |i: int| Cell {
                x: (self.pos_x + (i % wdt) + 1) as usize,
                y: (self.pos_y + (i / wdt) + 1) as usize,
                ch: self.buffer@[i] as char,
                style: Style::Default,
            },
        )
    }

    /// The character half's cursor cell.
    pub open spec fn spec_ascii_cursor_cell(self) -> Cell {
        let wdt = (self.width as int - 1) / 2;
        let byte = if self.byte_cursor >= self.buffer@.len() {
            32u8
        } else {
            self.buffer@[self.byte_cursor as int]
        };
        Cell {
            x: (self.pos_x + (self.byte_cursor as int % wdt) + 1) as usize,
            y: (self.pos_y + self.byte_cursor as int / wdt + 1) as usize,
            ch: byte as char,
            style: if self.mode is Ascii {
                Style::CursorFocus
            } else {
                Style::CursorNoFocus
            },
        }
    }

    /// Everything one render pass of the search overlay shows: its box
    /// split in two by a rule, the pattern echoed as characters on the
    /// left and hex digit pairs on the right, and a cursor in each half.
    pub open spec fn spec_draw_cells(self) -> Seq<Cell> {
        spec_box(
                self.pos_x as int,
                self.pos_y as int,
                self.width as int,
                self.height as int,
            ) + seq![
                Cell {
                    x: (self.pos_x + self.width as int / 2) as usize,
                    y: self.pos_y as usize,
                    ch: '┬',
                    style: Style::Default,
                },
            ] + spec_vrun(
                self.pos_x + self.width as int / 2,
                self.pos_y + 1,
                self.height as int - 2,
                '│',
                Style::Default,
            ) + seq![
                Cell {
                    x: (self.pos_x + self.width as int / 2) as usize,
                    y: (self.pos_y + self.height - 1) as usize,
                    ch: '┴',
                    style: Style::Default,
                },
            ] + SearchOverlay::spec_hex_echo(
                self.pos_x as int,
                self.pos_y as int,
                self.width as int / 2,
                self.width as int / 2 - 1,
                self.buffer@,
                0,
                1,
                1,
            ) + seq![self.spec_hex_cursor_cell()] + self.spec_ascii_echo() + seq![
                self.spec_ascii_cursor_cell(),
            ]
    }

    /// One render pass of the search overlay.
    pub fn draw(&self) -> (cells: Vec<Cell>)
        requires
            self.wf(),
            8 <= self.width,
            2 <= self.height,
            self.pos_x + self.width <= MAX_LEN,
            self.pos_y + self.height <= MAX_LEN,
            self.buffer@.len() <= MAX_LEN,
        ensures
            cells@ == self.spec_draw_cells(),
    {
        let mut cells = draw_box(self.pos_x, self.pos_y, self.width, self.height);
        cells.push(
            Cell {
                x: self.pos_x + self.width / 2,
                y: self.pos_y,
                ch: '┬',
                style: Style::Default,
            },
        );
        extend_cells(
            &mut cells,
            crate::utils::vrun(
                self.pos_x + self.width / 2,
                self.pos_y + 1,
                self.height - 2,
                '│',
                Style::Default,
            ),
        );
        cells.push(
            Cell {
                x: self.pos_x + self.width / 2,
                y: self.pos_y + self.height - 1,
                ch: '┴',
                style: Style::Default,
            },
        );
        extend_cells(&mut cells, self.draw_hex());
        extend_cells(&mut cells, self.draw_ascii());
        proof {
            assert(cells@ =~= spec_box(
                self.pos_x as int,
                self.pos_y as int,
                self.width as int,
                self.height as int,
            ) + seq![
                Cell {
                    x: (self.pos_x + self.width as int / 2) as usize,
                    y: self.pos_y as usize,
                    ch: '┬',
                    style: Style::Default,
                },
            ] + spec_vrun(
                self.pos_x + self.width as int / 2,
                self.pos_y + 1,
                self.height as int - 2,
                '│',
                Style::Default,
            ) + seq![
                Cell {
                    x: (self.pos_x + self.width as int / 2) as usize,
                    y: (self.pos_y + self.height - 1) as usize,
                    ch: '┴',
                    style: Style::Default,
                },
            ] + SearchOverlay::spec_hex_echo(
                self.pos_x as int,
                self.pos_y as int,
                self.width as int / 2,
                self.width as int / 2 - 1,
                self.buffer@,
                0,
                1,
                1,
            ) + seq![self.spec_hex_cursor_cell()] + self.spec_ascii_echo() + seq![
                self.spec_ascii_cursor_cell(),
            ]);
        }
        cells
    }

    /// The left half: the pattern as characters, and its cursor.
    fn draw_ascii(&self) -> (cells: Vec<Cell>)
        requires
            self.wf(),
            3 <= self.width,
            self.pos_x + self.width <= MAX_LEN,
            self.pos_y <= MAX_LEN,
            self.buffer@.len() <= MAX_LEN,
        ensures
            cells@ == self.spec_ascii_echo() + seq![self.spec_ascii_cursor_cell()],
    {
        let width = (self.width - 1) / 2;
        let n = self.buffer.len();
        let mut cells: Vec<Cell> = Vec::new();
        let mut i: usize = 0;
        while i < n
            invariant
                0 <= i <= n,
                n == self.buffer@.len() <= MAX_LEN,
                width == (self.width as int - 1) / 2,
                1 <= width,
                3 <= self.width,
                self.pos_x + self.width <= MAX_LEN,
                self.pos_y <= MAX_LEN,
                cells@ == self.spec_ascii_echo().take(i as int),
            decreases n - i,
        {
            proof {
                vstd::arithmetic::div_mod::lemma_mod_division_less_than_divisor(
                    i as int,
                    width as int,
                );
                vstd::arithmetic::div_mod::lemma_div_pos_is_pos(i as int, width as int);
                vstd::arithmetic::div_mod::lemma_div_is_ordered(i as int, n as int, width as int);
                vstd::arithmetic::div_mod::lemma_div_nonincreasing(n as int, width as int);
            }
            let pos_x = (i % width) + 1;
            let pos_y = (i / width) + 1;
            cells.push(
                Cell {
                    x: self.pos_x + pos_x,
                    y: self.pos_y + pos_y,
                    ch: self.buffer[i] as char,
                    style: Style::Default,
                },
            );
            proof {
                assert(cells@ =~= self.spec_ascii_echo().take(i + 1));
            }
            i = i + 1;
        }
        proof {
            assert(self.spec_ascii_echo().take(n as int) =~= self.spec_ascii_echo());
            vstd::arithmetic::div_mod::lemma_mod_division_less_than_divisor(
                self.byte_cursor as int,
                width as int,
            );
            vstd::arithmetic::div_mod::lemma_div_pos_is_pos(self.byte_cursor as int, width as int);
            vstd::arithmetic::div_mod::lemma_div_nonincreasing(
                self.byte_cursor as int,
                width as int,
            );
        }
        let cursor_x = (self.byte_cursor % width) + 1;
        let cursor_y = self.byte_cursor / width;
        let byte = if self.byte_cursor >= self.buffer.len() {
            32
        } else {
            self.buffer[self.byte_cursor]
        };
        let cursor_style = match self.mode {
            SearchMode::Ascii => Style::CursorFocus,
            SearchMode::Hex => Style::CursorNoFocus,
        };
        cells.push(
            Cell {
                x: self.pos_x + cursor_x,
                y: self.pos_y + cursor_y + 1,
                ch: byte as char,
                style: cursor_style,
            },
        );
        proof {
            assert(cells@ =~= self.spec_ascii_echo() + seq![self.spec_ascii_cursor_cell()]);
        }
        cells
    }

    /// The right half: the pattern as hex digit pairs, and the nibble
    /// cursor.
    fn draw_hex(&self) -> (cells: Vec<Cell>)
        requires
            self.wf(),
            8 <= self.width,
            self.pos_x + self.width <= MAX_LEN,
            self.pos_y <= MAX_LEN,
            self.buffer@.len() <= MAX_LEN,
        ensures
            cells@ == SearchOverlay::spec_hex_echo(
                self.pos_x as int,
                self.pos_y as int,
                self.width as int / 2,
                self.width as int / 2 - 1,
                self.buffer@,
                0,
                1,
                1,
            ) + seq![self.spec_hex_cursor_cell()],
    {
        let start_column = self.width / 2;
        let width = self.width / 2 - 1;
        let ghost whole = SearchOverlay::spec_hex_echo(
            self.pos_x as int,
            self.pos_y as int,
            start_column as int,
            width as int,
            self.buffer@,
            0,
            1,
            1,
        );
        let n = self.buffer.len();
        let mut cells: Vec<Cell> = Vec::new();
        let mut col: usize = 1;
        let mut row: usize = 1;
        let mut i: usize = 0;
        while i < n
            invariant
                0 <= i <= n,
                n == self.buffer@.len() <= MAX_LEN,
                start_column == self.width as int / 2,
                width == self.width as int / 2 - 1,
                3 <= width,
                self.pos_x + self.width <= MAX_LEN,
                self.pos_y <= MAX_LEN,
                1 <= col <= width + 2,
                1 <= row <= i + 1,
                whole == cells@ + SearchOverlay::spec_hex_echo(
                    self.pos_x as int,
                    self.pos_y as int,
                    start_column as int,
                    width as int,
                    self.buffer@,
                    i as int,
                    col as int,
                    row as int,
                ),
            decreases n - i,
        {
            if col + 1 >= width {
                col = 1;
                row = row + 1;
            }
            let byte = self.buffer[i];
            proof {
                assert((byte >> 4) < 16 && (byte & 0x0f) < 16) by (bit_vector);
            }
            let nibble1 = hex_char(byte >> 4);
            let nibble2 = hex_char(byte & 0x0f);
            let ghost cells0 = cells@;
            cells.push(
                Cell {
                    x: self.pos_x + start_column + col,
                    y: self.pos_y + row,
                    ch: nibble1 as char,
                    style: Style::Default,
                },
            );
            cells.push(
                Cell {
                    x: self.pos_x + start_column + col + 1,
                    y: self.pos_y + row,
                    ch: nibble2 as char,
                    style: Style::Default,
                },
            );
            proof {
                assert(cells@ =~= cells0 + seq![
                    Cell {
                        x: (self.pos_x + start_column + col) as usize,
                        y: (self.pos_y + row) as usize,
                        ch: spec_hex_char((byte >> 4) as u8) as char,
                        style: Style::Default,
                    },
                    Cell {
                        x: (self.pos_x + start_column + col + 1) as usize,
                        y: (self.pos_y + row) as usize,
                        ch: spec_hex_char((byte & 0x0f) as u8) as char,
                        style: Style::Default,
                    },
                ]);
                assert(whole =~= cells@ + SearchOverlay::spec_hex_echo(
                    self.pos_x as int,
                    self.pos_y as int,
                    start_column as int,
                    width as int,
                    self.buffer@,
                    i + 1,
                    col + 3,
                    row as int,
                ));
            }
            col = col + 3;
            i = i + 1;
        }
        proof {
            assert(SearchOverlay::spec_hex_echo(
                self.pos_x as int,
                self.pos_y as int,
                start_column as int,
                width as int,
                self.buffer@,
                n as int,
                col as int,
                row as int,
            ) =~= Seq::empty());
            assert(cells@ =~= whole);
        }
        let bytes_per_line = width / 3;
        proof {
            vstd::arithmetic::div_mod::lemma_div_pos_is_pos(width as int, 3);
            vstd::arithmetic::div_mod::lemma_mod_division_less_than_divisor(
                self.byte_cursor as int,
                bytes_per_line as int,
            );
            vstd::arithmetic::div_mod::lemma_div_pos_is_pos(
                self.byte_cursor as int,
                bytes_per_line as int,
            );
            vstd::arithmetic::div_mod::lemma_div_nonincreasing(
                self.byte_cursor as int,
                bytes_per_line as int,
            );
        }
        let cursor_x_byte = self.byte_cursor % bytes_per_line;
        let cursor_x = cursor_x_byte * 3 + 1;
        let cursor_x = match self.nibble_cursor {
            NibbleCursor::MS => cursor_x,
            NibbleCursor::LS => cursor_x + 1,
        };
        let cursor_y = self.byte_cursor / bytes_per_line;
        let byte = if self.byte_cursor >= self.buffer.len() {
            32
        } else {
            let b = self.buffer[self.byte_cursor];
            proof {
                assert((b >> 4) < 16 && (b & 0x0f) < 16) by (bit_vector);
            }
            match self.nibble_cursor {
                NibbleCursor::MS => hex_char(b >> 4),
                NibbleCursor::LS => hex_char(b & 0x0f),
            }
        };
        let cursor_style = match self.mode {
            SearchMode::Hex => Style::CursorFocus,
            SearchMode::Ascii => Style::CursorNoFocus,
        };
        proof {
            assert(cursor_x_byte * 3 + 2 <= width + 2) by (nonlinear_arith)
                requires
                    cursor_x_byte < bytes_per_line,
                    bytes_per_line == width as int / 3,
                    width as int >= 3,
                    3 * (width as int / 3) <= width as int,
                    0 <= cursor_x_byte,
            ;
            vstd::arithmetic::div_mod::lemma_fundamental_div_mod(width as int, 3);
            vstd::arithmetic::div_mod::lemma_mod_division_less_than_divisor(width as int, 3);
        }
        cells.push(
            Cell {
                x: self.pos_x + start_column + cursor_x,
                y: self.pos_y + cursor_y + 1,
                ch: byte as char,
                style: cursor_style,
            },
        );
        proof {
            assert(cells@ =~= whole + seq![self.spec_hex_cursor_cell()]);
        }
        cells
    }

    /// Handle one key while the search overlay has focus. Submitting a
    /// non-empty pattern reports the whole-buffer non-overlapping scan and
    /// the pattern length; escape aborts; everything else edits the pattern
    /// and keeps the overlay open. The pane geometry never changes.
    pub fn keypressed(&mut self, key: Key, contents: &[u8]) -> (r: SearchRet)
        requires
            old(self).wf(),
        ensures
            final(self).wf(),
            match key {
                Key::Esc => r is Abort && final(self)@ == old(self)@,
                Key::Char(c) => if c == '\r' {
                    &&& final(self)@ == old(self)@
                    &&& if old(self).buffer@.len() > 0 {
                        r matches SearchRet::Highlight { focus, all_bytes, len }
                            && focus == old(self).byte_cursor && all_bytes@.map_values(
                            |x: usize| x as int,
                        ) == scan_from(contents@, old(self).buffer@, 0) && len == old(
                            self,
                        ).buffer@.len()
                    } else {
                        r is Continue
                    }
                } else {
                    r is Continue && final(self)@ == old(self)@.spec_step(key)
                },
                _ => r is Continue && final(self)@ == old(self)@.spec_step(key),
            },
    {
        match key {
            Key::Esc => {
                return SearchRet::Abort;
            },
            Key::Char(ch) if ch == '\r' => {
                if self.buffer.len() != 0 {
                    let offsets = find_offsets(contents, &self.buffer);
                    return SearchRet::Highlight {
                        focus: self.byte_cursor,
                        all_bytes: offsets,
                        len: self.buffer.len(),
                    };
                }
            },
            Key::Tab => {
                let new_sm = match self.mode {
                    SearchMode::Ascii => SearchMode::Hex,
                    SearchMode::Hex => SearchMode::Ascii,
                };
                self.mode = new_sm;
            },
            Key::Backspace => {
                self.backspace();
            },
            Key::Char(ch) => {
                self.insert_char(ch);
            },
            _ => {},
        }
        SearchRet::Continue
    }

    fn backspace(&mut self)
        requires
            old(self).wf(),
        ensures
            final(self)@ == old(self)@.spec_backspace(),
            final(self).wf(),
    {
        match self.mode {
            SearchMode::Ascii => {
                match self.buffer.pop() {
                    None => {},
                    Some(_) => {
                        if self.byte_cursor != 0 {
                            self.byte_cursor = self.byte_cursor - 1;
                        }
                        // ASCII edits always leave the nibble cursor on the
                        // high half, so hex mode never resumes mid-byte on a
                        // position the pop may just have removed.
                        self.nibble_cursor = NibbleCursor::MS;
                    },
                }
            },
            SearchMode::Hex => {
                match self.nibble_cursor {
                    NibbleCursor::LS => {
                        let byte = self.buffer[self.byte_cursor];
                        self.buffer.set(self.byte_cursor, byte & 0xf0);
                        self.nibble_cursor = NibbleCursor::MS;
                    },
                    NibbleCursor::MS => {
                        if self.byte_cursor >= self.buffer.len() && self.byte_cursor != 0 {
                            self.byte_cursor = self.byte_cursor - 1;
                            self.nibble_cursor = NibbleCursor::LS;
                        } else {
                            match self.buffer.pop() {
                                None => {
                                    self.nibble_cursor = NibbleCursor::MS;
                                },
                                Some(_) => {
                                    if self.byte_cursor != 0 {
                                        self.byte_cursor = self.byte_cursor - 1;
                                        self.nibble_cursor = NibbleCursor::LS;
                                    } else {
                                        self.nibble_cursor = NibbleCursor::MS;
                                    }
                                },
                            }
                        }
                    },
                }
            },
        }
    }

    fn insert_char(&mut self, ch: char)
        requires
            old(self).wf(),
        ensures
            final(self)@ == old(self)@.spec_char(ch),
            final(self).wf(),
    {
        let code = ch as u32;
        match self.mode {
            SearchMode::Ascii => {
                if code <= 0xff {
                    self.buffer.push(code as u8);
                    let n: usize = self.buffer.len();
                    assert(self.byte_cursor < n);
                    self.byte_cursor = self.byte_cursor + 1;
                    self.nibble_cursor = NibbleCursor::MS;
                }
            },
            SearchMode::Hex => {
                let nibble: Option<u8> = if 65 <= code && code <= 70 {
                    // 'A' to 'F'
                    Some((code - 55) as u8)
                } else if 97 <= code && code <= 102 {
                    // 'a' to 'f'
                    Some((code - 87) as u8)
                } else if 48 <= code && code <= 57 {
                    // '0' to '9'
                    Some((code - 48) as u8)
                } else {
                    None
                };
                if let Some(nibble) = nibble {
                    let current_byte = if self.byte_cursor >= self.buffer.len() {
                        0
                    } else {
                        self.buffer[self.byte_cursor]
                    };
                    let new_byte = match self.nibble_cursor {
                        NibbleCursor::MS => (current_byte & 0x0f) | (nibble << 4u32),
                        NibbleCursor::LS => (current_byte & 0xf0) | nibble,
                    };
                    if self.byte_cursor >= self.buffer.len() {
                        self.buffer.push(new_byte);
                        self.nibble_cursor = NibbleCursor::LS;
                    } else {
                        self.buffer.set(self.byte_cursor, new_byte);
                        match self.nibble_cursor {
                            NibbleCursor::MS => {
                                self.nibble_cursor = NibbleCursor::LS;
                            },
                            NibbleCursor::LS => {
                                self.nibble_cursor = NibbleCursor::MS;
                                self.byte_cursor = self.byte_cursor + 1;
                            },
                        }
                    }
                }
            },
        }
    }
}

} // verus!
