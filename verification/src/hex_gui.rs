//! The modal dispatcher around the hex pane: routes keys to the active
//! overlay or to the viewport, keeps the companion panes synchronized,
//! handles repeat-search and the double-`z` recenter gesture, and owns the
//! persistent highlight set.

use vstd::prelude::*;

use crate::ascii_view::AsciiView;
use crate::goto::{GotoModel, GotoOverlay, OverlayRet};
use crate::hex_grid::HexGrid;
use crate::keys::Key;
use crate::layout::{MAX_DIM, MAX_LEN};
use crate::lines::{spec_hex_text, Lines, MAX_ADDR_WIDTH};
use crate::search::{scan_from, SearchModel, SearchOverlay, SearchRet};
use crate::style::{Cell, Style};
use crate::utils::{
    extend_cells, offset_cells, print, spec_offset_cells, spec_print, spec_vrun, vrun,
};

verus! {

/// Hex digits of `size` beyond the first: the floor of the base-16
/// logarithm, and zero for sizes below 16.
pub open spec fn spec_hex_digits(size: int) -> int
    decreases size,
        when size >= 0
{
    if size < 16 {
        0int
    } else {
        1 + spec_hex_digits(size / 16)
    }
}

/// The same, capped at the widest address the gutter renders.
pub open spec fn spec_addr_digits(size: int) -> int {
    if spec_hex_digits(size) > 15 {
        15int
    } else {
        spec_hex_digits(size)
    }
}

/// Width of the address gutter: the address digits and the `0x` prefix,
/// or nothing when that would eat too much of the screen.
pub open spec fn spec_lines_width(w: int, size: int) -> int {
    let p = spec_addr_digits(size) + 2;
    if p * 40 > w * 100 {
        0int
    } else {
        p
    }
}

/// Columns left for the hex and ASCII panes and their separators.
pub open spec fn spec_panes_width(w: int, size: int) -> int {
    let lw = spec_lines_width(w, size);
    w - lw - 1 - if lw == 0 {
        1int
    } else {
        0int
    }
}

/// Every byte takes three columns in the hex pane and one in the ASCII
/// pane, hence this four-column unit.
pub open spec fn spec_unit_column(w: int, size: int) -> int {
    spec_panes_width(w, size) / 4
}

/// Pane split for a screen of width `w` showing `content_size` bytes.
pub struct Layout {
    pub lines_width: usize,
    pub hex_grid_x: usize,
    pub hex_grid_width: usize,
    pub ascii_view_x: usize,
    pub ascii_view_width: usize,
}

/// The digit count is non-negative and strictly below any size that has
/// a second digit at all.
proof fn lemma_hex_digits_bounds(s: int)
    requires
        0 <= s,
    ensures
        0 <= spec_hex_digits(s),
        s >= 16 ==> spec_hex_digits(s) < s,
    decreases s,
{
    if s >= 16 {
        vstd::arithmetic::div_mod::lemma_div_pos_is_pos(s, 16);
        vstd::arithmetic::div_mod::lemma_div_decreases(s, 16);
        lemma_hex_digits_bounds(s / 16);
    }
}

fn hex_digits(size: usize) -> (r: usize)
    ensures
        r == spec_hex_digits(size as int),
{
    proof {
        lemma_hex_digits_bounds(size as int);
    }
    let mut v = size;
    let mut d: usize = 0;
    while v >= 16
        invariant
            d + spec_hex_digits(v as int) == spec_hex_digits(size as int),
            v <= size,
            spec_hex_digits(size as int) <= size,
        decreases v,
    {
        proof {
            lemma_hex_digits_bounds(v as int);
            vstd::arithmetic::div_mod::lemma_div_pos_is_pos(v as int, 16);
            lemma_hex_digits_bounds(v as int / 16);
            assert(spec_hex_digits(v as int) >= 1);
            assert(d < spec_hex_digits(size as int));
        }
        v = v / 16;
        d = d + 1;
        proof {
            lemma_hex_digits_bounds(v as int);
        }
    }
    proof {
        lemma_hex_digits_bounds(v as int);
    }
    d
}

/// A screen wide enough that the pane split leaves a usable hex pane.
pub open spec fn spec_layout_ok(w: int, size: int) -> bool {
    &&& spec_lines_width(w, size) + 2 <= w
    &&& 1 <= spec_unit_column(w, size)
    &&& w <= MAX_DIM
}

fn layout(w: usize, content_size: usize) -> (r: Layout)
    requires
        spec_layout_ok(w as int, content_size as int),
    ensures
        r.lines_width == spec_lines_width(w as int, content_size as int),
        r.ascii_view_width == spec_unit_column(w as int, content_size as int),
        r.hex_grid_width == 3 * r.ascii_view_width,
        r.hex_grid_x == r.lines_width + 1,
        r.ascii_view_x == r.lines_width + (if r.lines_width == 0 {
            0int
        } else {
            1int
        }) + r.hex_grid_width,
        r.lines_width <= MAX_ADDR_WIDTH,
        r.hex_grid_width <= MAX_DIM,
        r.ascii_view_width <= MAX_DIM,
{
    let digits = hex_digits(content_size);
    let digits = if digits > 15 {
        15
    } else {
        digits
    };
    let lines_width_pre = digits + 2;
    // Hide the gutter when it would take more than two fifths of the
    // screen width.
    let lines_width = if lines_width_pre * 40 > w * 100 {
        0
    } else {
        lines_width_pre
    };
    let grid_width = w - lines_width - 1 - if lines_width == 0 {
        1
    } else {
        0
    };
    let unit_column = grid_width / 4;
    let hex_grid_width = unit_column * 3;
    proof {
        vstd::arithmetic::div_mod::lemma_fundamental_div_mod(grid_width as int, 4);
        vstd::arithmetic::div_mod::lemma_mod_division_less_than_divisor(grid_width as int, 4);
    }
    Layout {
        lines_width,
        hex_grid_x: lines_width + 1,
        hex_grid_width,
        ascii_view_x: lines_width + if lines_width == 0 {
            0
        } else {
            1
        } + hex_grid_width,
        ascii_view_width: unit_column,
    }
}

/// The overlay that currently owns the input focus.
pub enum Overlay {
    NoOverlay,
    SearchOverlay(SearchOverlay),
    GotoOverlay(GotoOverlay),
}

#[verifier::ext_equal]
pub enum OverlayModel {
    NoOverlay,
    Search(SearchModel),
    Goto(GotoModel),
}

impl View for Overlay {
    type V = OverlayModel;

    open spec fn view(&self) -> OverlayModel {
        match self {
            Overlay::NoOverlay => OverlayModel::NoOverlay,
            Overlay::SearchOverlay(o) => OverlayModel::Search(o@),
            Overlay::GotoOverlay(o) => OverlayModel::Goto(o@),
        }
    }
}

/// The first match offset strictly greater than `idx`, looking from
/// position `i` on.
pub open spec fn spec_first_greater(hl: Seq<int>, idx: int, i: int) -> Option<int>
    decreases hl.len() - i,
        when 0 <= i <= hl.len()
{
    if i >= hl.len() {
        None
    } else if hl[i] > idx {
        Some(hl[i])
    } else {
        spec_first_greater(hl, idx, i + 1)
    }
}

/// The last match offset strictly less than `idx`, looking from position
/// `i` backwards.
pub open spec fn spec_last_less(hl: Seq<int>, idx: int, i: int) -> Option<int>
    decreases i,
        when 0 <= i <= hl.len()
{
    if i <= 0 {
        None
    } else if hl[i - 1] < idx {
        Some(hl[i - 1])
    } else {
        spec_last_less(hl, idx, i - 1)
    }
}

/// The abstract state of the whole viewer.
#[verifier::ext_equal]
pub struct GuiModel {
    pub contents: Seq<u8>,
    pub width: int,
    pub height: int,
    pub hex_grid: HexGrid,
    pub lines: Lines,
    pub ascii_view: AsciiView,
    pub overlay: OverlayModel,
    pub highlight: Seq<int>,
    pub highlight_len: int,
    pub z_pressed: bool,
}

impl GuiModel {
    /// The grid after `g`, with both companion panes pulled to the byte
    /// offset now under the cursor.
    pub open spec fn with_views_synced(self, g: HexGrid) -> GuiModel {
        let idx = g.spec_byte_idx();
        GuiModel {
            hex_grid: g,
            ascii_view: self.ascii_view.spec_move_offset(idx),
            lines: self.lines.spec_move_offset(idx),
            ..self
        }
    }

    /// An offset jump of the grid with the companions synchronized.
    pub open spec fn spec_jump(self, offset: int) -> GuiModel {
        self.with_views_synced(self.hex_grid.spec_move_offset(offset))
    }

    /// A movement key handed to the grid; the companions follow whenever
    /// the grid consumed it.
    pub open spec fn spec_grid_key(self, key: Key) -> GuiModel {
        if HexGrid::spec_key_handled(key) {
            self.with_views_synced(self.hex_grid.spec_keypressed(key))
        } else {
            self
        }
    }

    /// Fresh goto overlay, centered in the screen's inner quarter.
    pub open spec fn spec_goto_init(self) -> GotoModel {
        let w2 = self.width / 2;
        let h2 = self.height / 2;
        let wid = if w2 < 50 {
            w2
        } else {
            50int
        };
        let hei = if h2 < 10 {
            h2
        } else {
            10int
        };
        GotoModel {
            pos_x: self.width / 4 + (w2 - wid) / 2,
            pos_y: self.height / 4 + (h2 - hei) / 2,
            width: wid,
            height: hei,
            input: Seq::empty(),
        }
    }

    /// Fresh search overlay, centered in the screen's inner quarter.
    pub open spec fn spec_search_init(self) -> SearchModel {
        let w2 = self.width / 2;
        let h2 = self.height / 2;
        let wid = if w2 < 50 {
            w2
        } else {
            50int
        };
        let hei = if h2 < 10 {
            h2
        } else {
            10int
        };
        SearchModel {
            pos_x: self.width / 4 + (w2 - wid) / 2,
            pos_y: self.height / 4 + (h2 - hei) / 2,
            width: wid,
            height: hei,
            mode: crate::search::SearchMode::Ascii,
            pattern: Seq::empty(),
            byte_cursor: 0,
            nibble_cursor: crate::search::NibbleCursor::MS,
        }
    }

    /// The double-`z` recenter: the second `z` recenters the grid and
    /// carries the new scroll into both companions.
    pub open spec fn spec_recenter(self) -> GuiModel {
        let g = self.hex_grid.spec_center();
        GuiModel {
            hex_grid: g,
            lines: Lines { scroll: g.scroll, ..self.lines },
            ascii_view: AsciiView { scroll: g.scroll, ..self.ascii_view },
            z_pressed: false,
            ..self
        }
    }

    /// Repeat search forward: jump to the first match after the cursor,
    /// wrapping to the first match overall.
    pub open spec fn spec_repeat_next(self) -> GuiModel {
        let idx = self.hex_grid.spec_byte_idx();
        match spec_first_greater(self.highlight, idx, 0) {
            Some(o) => self.spec_jump(o),
            None => if self.highlight.len() > 0 {
                self.spec_jump(self.highlight[0])
            } else {
                self
            },
        }
    }

    /// Repeat search backward: jump to the last match before the cursor,
    /// wrapping to the last match overall.
    pub open spec fn spec_repeat_prev(self) -> GuiModel {
        let idx = self.hex_grid.spec_byte_idx();
        match spec_last_less(self.highlight, idx, self.highlight.len() as int) {
            Some(o) => self.spec_jump(o),
            None => if self.highlight.len() > 0 {
                self.spec_jump(self.highlight[self.highlight.len() - 1])
            } else {
                self
            },
        }
    }

    /// One key with no overlay active: global bindings first, then the
    /// grid. Every branch but the first `z` disarms the recenter gesture.
    pub open spec fn spec_no_overlay(self, key: Key) -> GuiModel {
        match key {
            Key::Char(c) => if c == 'g' {
                GuiModel {
                    z_pressed: false,
                    overlay: OverlayModel::Goto(self.spec_goto_init()),
                    ..self
                }
            } else if c == '/' {
                GuiModel {
                    z_pressed: false,
                    overlay: OverlayModel::Search(self.spec_search_init()),
                    ..self
                }
            } else if c == 'z' {
                if self.z_pressed {
                    self.spec_recenter()
                } else {
                    GuiModel { z_pressed: true, ..self }
                }
            } else if c == 'n' {
                GuiModel { z_pressed: false, ..self }.spec_repeat_next()
            } else if c == 'N' {
                GuiModel { z_pressed: false, ..self }.spec_repeat_prev()
            } else {
                GuiModel { z_pressed: false, ..self }.spec_grid_key(key)
            },
            _ => GuiModel { z_pressed: false, ..self }.spec_grid_key(key),
        }
    }

    /// One key routed by the modal dispatcher.
    pub open spec fn spec_keypressed(self, key: Key) -> GuiModel {
        match self.overlay {
            OverlayModel::NoOverlay => if key == Key::Char('q') {
                self
            } else {
                self.spec_no_overlay(key)
            },
            OverlayModel::Goto(o) => match o.spec_ret(key) {
                OverlayRet::Ret(offset) => GuiModel {
                    overlay: OverlayModel::NoOverlay,
                    ..self.spec_jump(offset as int)
                },
                OverlayRet::GotoBeginning => GuiModel {
                    overlay: OverlayModel::NoOverlay,
                    ..self.spec_jump(0)
                },
                OverlayRet::Continue => GuiModel {
                    overlay: OverlayModel::Goto(o.spec_step(key)),
                    ..self
                },
                OverlayRet::Abort => GuiModel { overlay: OverlayModel::NoOverlay, ..self },
            },
            OverlayModel::Search(s) => match key {
                Key::Esc => GuiModel { overlay: OverlayModel::NoOverlay, ..self },
                Key::Char(c) => if c == '\r' {
                    if s.pattern.len() > 0 {
                        GuiModel {
                            overlay: OverlayModel::NoOverlay,
                            highlight: scan_from(self.contents, s.pattern, 0),
                            highlight_len: s.pattern.len() as int,
                            ..self
                        }
                    } else {
                        self
                    }
                } else {
                    GuiModel { overlay: OverlayModel::Search(s.spec_step(key)), ..self }
                },
                _ => GuiModel { overlay: OverlayModel::Search(s.spec_step(key)), ..self },
            },
        }
    }

    /// Whether this key ends the session.
    pub open spec fn spec_quit(self, key: Key) -> bool {
        self.overlay is NoOverlay && key == Key::Char('q')
    }
}

/// The viewer: the hex pane, its two companions, the overlay and the
/// highlight set, around an immutable byte buffer.
pub struct HexGui {
    pub contents: Vec<u8>,
    pub width: usize,
    pub height: usize,
    pub hex_grid: HexGrid,
    pub lines: Lines,
    pub ascii_view: AsciiView,
    pub overlay: Overlay,
    pub highlight: Vec<usize>,
    pub highlight_len: usize,
    pub z_pressed: bool,
}

impl View for HexGui {
    type V = GuiModel;

    open spec fn view(&self) -> GuiModel {
        GuiModel {
            contents: self.contents@,
            width: self.width as int,
            height: self.height as int,
            hex_grid: self.hex_grid,
            lines: self.lines,
            ascii_view: self.ascii_view,
            overlay: self.overlay@,
            highlight: self.highlight@.map_values(|x: usize| x as int),
            highlight_len: self.highlight_len as int,
            z_pressed: self.z_pressed,
        }
    }
}

impl HexGui {
    /// The highlight set stays inside the buffer, ascending and
    /// non-overlapping.
    pub open spec fn highlight_wf(self) -> bool {
        &&& forall|k: int|
            0 <= k < self.highlight@.len() ==> #[trigger] self.highlight@[k]
                + self.highlight_len <= self.contents@.len()
        &&& forall|k: int|
            0 <= k && k + 1 < self.highlight@.len() ==> #[trigger] self.highlight@[k]
                + self.highlight_len <= self.highlight@[k + 1]
    }

    pub open spec fn wf(self) -> bool {
        &&& self.hex_grid.wf()
        &&& self.lines.wf()
        &&& self.ascii_view.wf()
        &&& self.hex_grid.len == self.contents@.len()
        &&& self.ascii_view.len == self.contents@.len()
        &&& self.lines.length == self.contents@.len()
        &&& self.lines.bytes_per_line == self.hex_grid.spec_bpl()
        &&& self.ascii_view.width == self.hex_grid.spec_bpl()
        &&& match self.overlay {
            Overlay::NoOverlay => true,
            Overlay::SearchOverlay(o) => o.wf(),
            Overlay::GotoOverlay(o) => o.wf(),
        }
        &&& self.highlight_wf()
        &&& self.width <= MAX_DIM
        &&& self.height <= MAX_DIM
    }

    /// Build the viewer around a byte buffer, for a screen of the given
    /// size: split the width into gutter, hex pane and ASCII pane, and
    /// leave the bottom line for the status text.
    pub fn new(contents: Vec<u8>, width: usize, height: usize) -> (r: HexGui)
        requires
            contents@.len() <= MAX_LEN,
            4 <= height <= MAX_DIM,
            spec_layout_ok(width as int, contents@.len() as int),
        ensures
            r.wf(),
            r@.contents == contents@,
            r.hex_grid.cursor_x == 0 && r.hex_grid.cursor_y == 0 && r.hex_grid.scroll == 0,
            r@.overlay is NoOverlay,
            r@.highlight.len() == 0,
            r@.highlight_len == 0,
            r@.z_pressed == false,
            r.hex_grid.width == 3 * spec_unit_column(width as int, contents@.len() as int),
            r.hex_grid.height == height - 1,
    {
        let len = contents.len();
        let l = layout(width, len);
        proof {
            // One four-column unit yields a hex pane of at least two
            // columns showing exactly one byte per line.
            assert(2 <= 3 * spec_unit_column(width as int, len as int));
            vstd::arithmetic::div_mod::lemma_fundamental_div_mod_converse(
                3 * (l.ascii_view_width as int),
                3,
                l.ascii_view_width as int,
                0,
            );
        }
        let hex_grid = HexGrid::new(l.hex_grid_width, height - 1, len);
        let bpl = hex_grid.bytes_per_line();
        let lines = Lines::new(bpl, len, l.lines_width, height);
        let ascii_view = AsciiView::new(l.ascii_view_width, height - 1, len);
        HexGui {
            contents,
            width,
            height,
            hex_grid,
            lines,
            ascii_view,
            overlay: Overlay::NoOverlay,
            highlight: Vec::new(),
            highlight_len: 0,
            z_pressed: false,
        }
    }

    /// Jump the grid to a byte offset and pull both companions along.
    fn jump(&mut self, offset: usize)
        requires
            old(self).wf(),
        ensures
            final(self)@ == old(self)@.spec_jump(offset as int),
            final(self).wf(),
    {
        self.hex_grid.move_cursor_offset(offset);
        let idx = self.hex_grid.get_byte_idx();
        self.ascii_view.move_cursor_offset(idx);
        self.lines.move_cursor_offset(idx);
    }

    /// Route one key event; the result asks the event loop to quit.
    #[verifier::rlimit(60)]
    pub fn keypressed(&mut self, key: Key) -> (quit: bool)
        requires
            old(self).wf(),
        ensures
            final(self).wf(),
            final(self)@ == old(self)@.spec_keypressed(key),
            quit == old(self)@.spec_quit(key),
    {
        let mut reset_overlay = false;
        match &mut self.overlay {
            Overlay::NoOverlay => {
                if key == Key::Char('q') {
                    return true;
                }
                self.keypressed_no_overlay(key);
            },
            Overlay::GotoOverlay(o) => {
                let ret = o.keypressed(key);
                match ret {
                    OverlayRet::Ret(offset) => {
                        self.jump(offset);
                        reset_overlay = true;
                    },
                    OverlayRet::GotoBeginning => {
                        self.jump(0);
                        reset_overlay = true;
                    },
                    OverlayRet::Continue => {},
                    OverlayRet::Abort => {
                        reset_overlay = true;
                    },
                }
            },
            Overlay::SearchOverlay(o) => {
                let ghost pat = o.buffer@;
                let ret = o.keypressed(key, self.contents.as_slice());
                match ret {
                    SearchRet::Highlight { all_bytes: bs, len: l, .. } => {
                        proof {
                            crate::search::lemma_scan_sorted_nonoverlapping(
                                self.contents@,
                                pat,
                            );
                        }
                        self.highlight = bs;
                        self.highlight_len = l;
                        proof {
                            let s = scan_from(self.contents@, pat, 0);
                            let mapped = self.highlight@.map_values(|x: usize| x as int);
                            assert forall|k: int|
                                0 <= k < self.highlight@.len() implies #[trigger] self.highlight@[k]
                                + self.highlight_len <= self.contents@.len() by {
                                assert(mapped[k] == s[k]);
                                assert(crate::search::is_match_at(self.contents@, pat, s[k]));
                            }
                            assert forall|k: int|
                                0 <= k && k + 1 < self.highlight@.len() implies
                                #[trigger] self.highlight@[k] + self.highlight_len
                                <= self.highlight@[k + 1] by {
                                assert(mapped[k] == s[k]);
                                assert(mapped[k + 1] == s[k + 1]);
                                assert(s[k] + pat.len() <= s[k + 1]);
                            }
                        }
                        reset_overlay = true;
                    },
                    SearchRet::Abort => {
                        reset_overlay = true;
                    },
                    SearchRet::Continue => {},
                }
            },
        }
        if reset_overlay {
            self.overlay = Overlay::NoOverlay;
        }
        false
    }

    /// One key with no overlay active: open an overlay, arm or fire the
    /// recenter gesture, repeat the search, or move the grid cursor.
    fn keypressed_no_overlay(&mut self, key: Key)
        requires
            old(self).wf(),
        ensures
            final(self).wf(),
            final(self)@ == old(self)@.spec_no_overlay(key),
    {
        match key {
            Key::Char('g') => {
                self.z_pressed = false;
                self.mk_goto_overlay();
            },
            Key::Char('/') => {
                self.z_pressed = false;
                self.mk_search_overlay();
            },
            Key::Char('z') => {
                if self.z_pressed {
                    self.hex_grid.try_center_scroll();
                    let s = self.hex_grid.get_scroll();
                    proof {
                        if self.hex_grid.len > 0 {
                            crate::layout::lemma_total_lines_bounds(
                                self.hex_grid.len as int,
                                self.hex_grid.spec_bpl(),
                            );
                        } else {
                            crate::layout::lemma_total_lines_bounds(
                                0,
                                self.hex_grid.spec_bpl(),
                            );
                        }
                    }
                    self.lines.set_scroll(s);
                    self.ascii_view.set_scroll(s);
                    self.z_pressed = false;
                } else {
                    self.z_pressed = true;
                }
            },
            Key::Char('n') => {
                self.z_pressed = false;
                let byte_idx = self.hex_grid.get_byte_idx();
                let target = find_first_greater(&self.highlight, byte_idx);
                match target {
                    Some(o) => {
                        self.jump(o);
                    },
                    None => {
                        if self.highlight.len() > 0 {
                            let o = self.highlight[0];
                            self.jump(o);
                        }
                    },
                }
            },
            Key::Char('N') => {
                self.z_pressed = false;
                let byte_idx = self.hex_grid.get_byte_idx();
                let target = find_last_less(&self.highlight, byte_idx);
                match target {
                    Some(o) => {
                        self.jump(o);
                    },
                    None => {
                        if self.highlight.len() > 0 {
                            let o = self.highlight[self.highlight.len() - 1];
                            self.jump(o);
                        }
                    },
                }
            },
            _ => {
                self.z_pressed = false;
                let handled = self.hex_grid.keypressed(key);
                if handled {
                    let idx = self.hex_grid.get_byte_idx();
                    self.ascii_view.move_cursor_offset(idx);
                    self.lines.move_cursor_offset(idx);
                }
            },
        }
    }

    /// The address gutter as cells: one address per visible row, the
    /// cursor's row in the cursor style.
    pub open spec fn spec_gutter_cells(l: Lines, i: int) -> Seq<Cell>
        decreases l.spec_visible_rows() - i,
            when 0 <= i
    {
        if i >= l.spec_visible_rows() {
            Seq::empty()
        } else {
            let addr = (l.scroll + i) * l.bytes_per_line;
            let style = if addr <= l.cursor < addr + l.bytes_per_line {
                Style::CursorNoFocus
            } else {
                Style::Default
            };
            spec_print(0, i, style, spec_hex_text(addr as u64, l.width as int))
                + HexGui::spec_gutter_cells(l, i + 1)
        }
    }

    /// Everything one render pass of the whole viewer shows: the gutter,
    /// the two pane separators, the hex and ASCII panes at their columns,
    /// and the active overlay on top. The bottom status line's text comes
    /// from the surrounding program.
    pub open spec fn spec_gui_cells(self) -> Seq<Cell> {
        let grid_cells = self.hex_grid.spec_draw_cells(
            self.contents@,
            self.highlight@,
            self.highlight_len as int,
            self.hex_grid.scroll * self.hex_grid.spec_bpl(),
        );
        let ascii_cells = self.ascii_view.spec_draw_cells(
            self.contents@,
            self.highlight@,
            self.highlight_len as int,
            self.ascii_view.scroll * self.ascii_view.width,
        );
        let ascii_x = self.lines.width + (if self.lines.width == 0 {
            0int
        } else {
            1int
        }) + self.hex_grid.width;
        HexGui::spec_gutter_cells(self.lines, 0) + spec_vrun(
            self.lines.width as int,
            0,
            self.height - 1,
            '│',
            Style::Default,
        ) + spec_offset_cells(grid_cells, self.lines.width + 1) + spec_vrun(
            self.lines.width + self.hex_grid.width,
            0,
            self.height - 1,
            '│',
            Style::Default,
        ) + spec_offset_cells(ascii_cells, ascii_x) + match self.overlay {
            Overlay::NoOverlay => Seq::empty(),
            Overlay::GotoOverlay(o) => o.spec_draw_cells(),
            Overlay::SearchOverlay(o) => o.spec_draw_cells(),
        }
    }

    /// The geometry bounds the overlay draws ask of their callers.
    pub open spec fn overlay_draw_ok(self) -> bool {
        match self.overlay {
            Overlay::NoOverlay => true,
            Overlay::GotoOverlay(o) => {
                &&& 2 <= o.width
                &&& 2 <= o.height
                &&& o.pos_x + o.width <= MAX_LEN
                &&& o.pos_y + o.height <= MAX_LEN
                &&& o.pos_x + 50 <= MAX_LEN
                &&& o.pos_x + 8 + o.input@.len() <= MAX_LEN
            },
            Overlay::SearchOverlay(o) => {
                &&& 8 <= o.width
                &&& 2 <= o.height
                &&& o.pos_x + o.width <= MAX_LEN
                &&& o.pos_y + o.height <= MAX_LEN
                &&& o.buffer@.len() <= MAX_LEN
            },
        }
    }

    /// One render pass of the whole viewer.
    pub fn draw(&self) -> (cells: Vec<Cell>)
        requires
            self.wf(),
            1 <= self.height,
            self.overlay_draw_ok(),
        ensures
            cells@ == self.spec_gui_cells(),
    {
        let rows = self.lines.draw();
        let mut cells: Vec<Cell> = Vec::new();
        let n_rows = rows.len();
        let mut i: usize = 0;
        while i < n_rows
            invariant
                0 <= i <= n_rows,
                n_rows == self.lines.spec_visible_rows(),
                self.lines.wf(),
                rows@.len() == n_rows,
                forall|j: int|
                    0 <= j < n_rows ==> {
                        let addr = (self.lines.scroll + j) * self.lines.bytes_per_line;
                        &&& (#[trigger] rows@[j]).text@ == spec_hex_text(
                            addr as u64,
                            self.lines.width as int,
                        )
                        &&& rows@[j].current == (addr <= self.lines.cursor < addr
                            + self.lines.bytes_per_line)
                    },
                HexGui::spec_gutter_cells(self.lines, 0) == cells@ + HexGui::spec_gutter_cells(
                    self.lines,
                    i as int,
                ),
            decreases n_rows - i,
        {
            let ghost cells0 = cells@;
            let style = if rows[i].current {
                Style::CursorNoFocus
            } else {
                Style::Default
            };
            extend_cells(&mut cells, print(0, i, style, rows[i].text.as_slice()));
            proof {
                let l = self.lines;
                let addr = (l.scroll + i as int) * l.bytes_per_line;
                assert(HexGui::spec_gutter_cells(l, i as int) == spec_print(
                    0,
                    i as int,
                    if addr <= l.cursor < addr + l.bytes_per_line {
                        Style::CursorNoFocus
                    } else {
                        Style::Default
                    },
                    spec_hex_text(addr as u64, l.width as int),
                ) + HexGui::spec_gutter_cells(l, i + 1));
                assert(HexGui::spec_gutter_cells(l, 0) =~= cells@ + HexGui::spec_gutter_cells(
                    l,
                    i + 1,
                ));
            }
            i = i + 1;
        }
        proof {
            assert(HexGui::spec_gutter_cells(self.lines, i as int) =~= Seq::empty());
            assert(cells@ =~= HexGui::spec_gutter_cells(self.lines, 0));
        }
        extend_cells(
            &mut cells,
            vrun(self.lines.width, 0, self.height - 1, '│', Style::Default),
        );
        let grid_cells = self.hex_grid.draw(
            self.contents.as_slice(),
            &self.highlight,
            self.highlight_len,
        );
        proof {
            self.hex_grid.lemma_draw_cells_bounds(
                self.contents@,
                self.highlight@,
                self.highlight_len as int,
                self.hex_grid.scroll * self.hex_grid.spec_bpl(),
            );
            crate::layout::lemma_cols_fit(self.hex_grid.width as int);
        }
        extend_cells(&mut cells, offset_cells(grid_cells, self.lines.width + 1));
        extend_cells(
            &mut cells,
            vrun(
                self.lines.width + self.hex_grid.width,
                0,
                self.height - 1,
                '│',
                Style::Default,
            ),
        );
        let ascii_cells = self.ascii_view.draw(
            self.contents.as_slice(),
            &self.highlight,
            self.highlight_len,
        );
        proof {
            self.ascii_view.lemma_draw_cells_bounds(
                self.contents@,
                self.highlight@,
                self.highlight_len as int,
                self.ascii_view.scroll * self.ascii_view.width,
            );
        }
        let ascii_x = self.lines.width + if self.lines.width == 0 {
            0
        } else {
            1
        } + self.hex_grid.width;
        extend_cells(&mut cells, offset_cells(ascii_cells, ascii_x));
        match &self.overlay {
            Overlay::NoOverlay => {},
            Overlay::GotoOverlay(o) => {
                extend_cells(&mut cells, o.draw());
            },
            Overlay::SearchOverlay(o) => {
                extend_cells(&mut cells, o.draw());
            },
        }
        proof {
            assert(cells@ =~= self.spec_gui_cells());
        }
        cells
    }

    fn mk_goto_overlay(&mut self)
        requires
            old(self).wf(),
        ensures
            final(self).wf(),
            final(self)@ == (GuiModel {
                overlay: OverlayModel::Goto(old(self)@.spec_goto_init()),
                ..old(self)@
            }),
    {
        let o = GotoOverlay::new(self.width / 2, self.height / 2, self.width / 4, self.height / 4);
        self.overlay = Overlay::GotoOverlay(o);
        proof {
            assert(o@ =~= old(self)@.spec_goto_init());
            assert(self@ =~= (GuiModel {
                overlay: OverlayModel::Goto(old(self)@.spec_goto_init()),
                ..old(self)@
            }));
        }
    }

    fn mk_search_overlay(&mut self)
        requires
            old(self).wf(),
        ensures
            final(self).wf(),
            final(self)@ == (GuiModel {
                overlay: OverlayModel::Search(old(self)@.spec_search_init()),
                ..old(self)@
            }),
    {
        let o = SearchOverlay::new(
            self.width / 2,
            self.height / 2,
            self.width / 4,
            self.height / 4,
        );
        self.overlay = Overlay::SearchOverlay(o);
        proof {
            assert(o@ =~= old(self)@.spec_search_init());
            assert(self@ =~= (GuiModel {
                overlay: OverlayModel::Search(old(self)@.spec_search_init()),
                ..old(self)@
            }));
        }
    }
}

/// Repeat-search round trip: with exactly two matches on record and the
/// cursor standing on one of them, `n` followed by `N` returns to the
/// original offset, the wrap-around cases included. (From an offset
/// strictly between the two matches, `n` then `N` lands on the earlier
/// match instead, not back on the start.)
pub proof fn lemma_repeat_search_round_trip(m: GuiModel)
    requires
        m.hex_grid.wf(),
        m.highlight.len() == 2,
        m.highlight[0] < m.highlight[1],
        1 <= m.highlight_len,
        0 <= m.highlight[0],
        m.highlight[1] + m.highlight_len <= m.hex_grid.len,
        m.hex_grid.spec_byte_idx() == m.highlight[0] || m.hex_grid.spec_byte_idx()
            == m.highlight[1],
    ensures
        m.spec_repeat_next().spec_repeat_prev().hex_grid.spec_byte_idx()
            == m.hex_grid.spec_byte_idx(),
{
    let hl = m.highlight;
    let m0 = hl[0];
    let m1 = hl[1];
    let o = m.hex_grid.spec_byte_idx();
    if o == m0 {
        assert(spec_first_greater(hl, o, 0) == Some(m1)) by {
            assert(spec_first_greater(hl, o, 1) == Some(m1));
        }
        m.hex_grid.lemma_jump_lands(m1);
        let n1 = m.spec_repeat_next();
        assert(n1.hex_grid.spec_byte_idx() == m1);
        assert(spec_last_less(hl, m1, 2) == Some(m0)) by {
            assert(spec_last_less(hl, m1, 1) == Some(m0));
        }
        n1.hex_grid.lemma_jump_lands(m0);
    } else {
        assert(spec_first_greater(hl, o, 0) is None) by {
            assert(spec_first_greater(hl, o, 2) is None);
            assert(spec_first_greater(hl, o, 1) is None);
        }
        m.hex_grid.lemma_jump_lands(m0);
        let n1 = m.spec_repeat_next();
        assert(n1.hex_grid.spec_byte_idx() == m0);
        assert(spec_last_less(hl, m0, 2) is None) by {
            assert(spec_last_less(hl, m0, 1) is None);
            assert(spec_last_less(hl, m0, 0) is None);
        }
        n1.hex_grid.lemma_jump_lands(m1);
    }
}

/// First highlight offset strictly greater than `idx`, in list order.
fn find_first_greater(hl: &Vec<usize>, idx: usize) -> (r: Option<usize>)
    ensures
        match r {
            Some(v) => Some(v as int) == spec_first_greater(
                hl@.map_values(|x: usize| x as int),
                idx as int,
                0,
            ),
            None => spec_first_greater(hl@.map_values(|x: usize| x as int), idx as int, 0)
                is None,
        },
{
    let ghost mapped = hl@.map_values(|x: usize| x as int);
    let mut i: usize = 0;
    while i < hl.len()
        invariant
            0 <= i <= hl@.len(),
            mapped == hl@.map_values(|x: usize| x as int),
            spec_first_greater(mapped, idx as int, 0) == spec_first_greater(
                mapped,
                idx as int,
                i as int,
            ),
        decreases hl@.len() - i,
    {
        if hl[i] > idx {
            return Some(hl[i]);
        }
        i = i + 1;
    }
    None
}

/// Last highlight offset strictly less than `idx`, in list order.
fn find_last_less(hl: &Vec<usize>, idx: usize) -> (r: Option<usize>)
    ensures
        match r {
            Some(v) => Some(v as int) == spec_last_less(
                hl@.map_values(|x: usize| x as int),
                idx as int,
                hl@.len() as int,
            ),
            None => spec_last_less(
                hl@.map_values(|x: usize| x as int),
                idx as int,
                hl@.len() as int,
            ) is None,
        },
{
    let ghost mapped = hl@.map_values(|x: usize| x as int);
    let mut i: usize = hl.len();
    while i > 0
        invariant
            0 <= i <= hl@.len(),
            mapped == hl@.map_values(|x: usize| x as int),
            spec_last_less(mapped, idx as int, hl@.len() as int) == spec_last_less(
                mapped,
                idx as int,
                i as int,
            ),
        decreases i,
    {
        if hl[i - 1] < idx {
            return Some(hl[i - 1]);
        }
        i = i - 1;
    }
    None
}

} // verus!
