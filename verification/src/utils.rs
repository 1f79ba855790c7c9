//! Small shared helpers: hex digits, text runs and box borders as cell
//! lists.

use vstd::prelude::*;

use crate::layout::MAX_LEN;
use crate::style::{Cell, Style};

verus! {

/// The lower-case hex digit for a nibble.
pub open spec fn spec_hex_char(nibble: u8) -> u8 {
    if nibble < 10 {
        (48 + nibble) as u8
    } else {
        (87 + nibble) as u8
    }
}

pub fn hex_char(nibble: u8) -> (r: u8)
    requires
        nibble < 16,
    ensures
        r == spec_hex_char(nibble),
{
    if nibble < 10 {
        48 + nibble
    } else {
        97 + nibble - 10
    }
}

/// A horizontal run of one glyph.
pub open spec fn spec_hrun(x0: int, y: int, n: int, ch: char, style: Style) -> Seq<Cell> {
    Seq::new(
        if n >= 0 {
            n as nat
        } else {
            0nat
        },
        |i: int| Cell { x: (x0 + i) as usize, y: y as usize, ch, style },
    )
}

/// A vertical run of one glyph.
pub open spec fn spec_vrun(x: int, y0: int, n: int, ch: char, style: Style) -> Seq<Cell> {
    Seq::new(
        if n >= 0 {
            n as nat
        } else {
            0nat
        },
        |i: int| Cell { x: x as usize, y: (y0 + i) as usize, ch, style },
    )
}

/// A text run: one cell per byte, as its ASCII glyph.
pub open spec fn spec_print(x0: int, y: int, style: Style, text: Seq<u8>) -> Seq<Cell> {
    Seq::new(
        text.len(),
        |i: int| Cell { x: (x0 + i) as usize, y: y as usize, ch: text[i] as char, style },
    )
}

/// Emit a text run at `(pos_x, pos_y)`.
pub fn print(pos_x: usize, pos_y: usize, style: Style, text: &[u8]) -> (cells: Vec<Cell>)
    requires
        pos_x + text@.len() <= MAX_LEN,
    ensures
        cells@ == spec_print(pos_x as int, pos_y as int, style, text@),
{
    let mut cells: Vec<Cell> = Vec::new();
    let n = text.len();
    let mut i: usize = 0;
    while i < n
        invariant
            0 <= i <= n,
            n == text@.len(),
            pos_x + n <= MAX_LEN,
            cells@ == spec_print(pos_x as int, pos_y as int, style, text@).take(i as int),
        decreases n - i,
    {
        cells.push(Cell { x: pos_x + i, y: pos_y, ch: text[i] as char, style });
        proof {
            assert(cells@ =~= spec_print(pos_x as int, pos_y as int, style, text@).take(
                i + 1,
            ));
        }
        i = i + 1;
    }
    proof {
        assert(spec_print(pos_x as int, pos_y as int, style, text@).take(n as int)
            =~= spec_print(pos_x as int, pos_y as int, style, text@));
    }
    cells
}

/// The interior fill of a box, column by column.
pub open spec fn spec_box_fill(pos_x: int, pos_y: int, width: int, height: int, x: int)
    -> Seq<Cell>
    decreases width - 1 - x,
        when x >= 1
{
    if x >= width - 1 {
        Seq::empty()
    } else {
        spec_vrun(pos_x + x, pos_y + 1, height - 2, ' ', Style::Default) + spec_box_fill(
            pos_x,
            pos_y,
            width,
            height,
            x + 1,
        )
    }
}

/// The cells of a box border with a blank interior: the four edges, the
/// four corners, then the fill.
pub open spec fn spec_box(pos_x: int, pos_y: int, width: int, height: int) -> Seq<Cell> {
    spec_hrun(pos_x + 1, pos_y, width - 2, '─', Style::Default) + spec_hrun(
        pos_x + 1,
        pos_y + height - 1,
        width - 2,
        '─',
        Style::Default,
    ) + spec_vrun(pos_x, pos_y + 1, height - 2, '│', Style::Default) + spec_vrun(
        pos_x + width - 1,
        pos_y + 1,
        height - 2,
        '│',
        Style::Default,
    ) + seq![
        Cell { x: pos_x as usize, y: pos_y as usize, ch: '┌', style: Style::Default },
        Cell {
            x: (pos_x + width - 1) as usize,
            y: pos_y as usize,
            ch: '┐',
            style: Style::Default,
        },
        Cell {
            x: pos_x as usize,
            y: (pos_y + height - 1) as usize,
            ch: '└',
            style: Style::Default,
        },
        Cell {
            x: (pos_x + width - 1) as usize,
            y: (pos_y + height - 1) as usize,
            ch: '┘',
            style: Style::Default,
        },
    ] + spec_box_fill(pos_x, pos_y, width, height, 1)
}

/// Emit a horizontal run.
pub fn hrun(x0: usize, y: usize, n: usize, ch: char, style: Style) -> (cells: Vec<Cell>)
    requires
        x0 + n <= MAX_LEN,
    ensures
        cells@ == spec_hrun(x0 as int, y as int, n as int, ch, style),
{
    let mut cells: Vec<Cell> = Vec::new();
    let mut i: usize = 0;
    while i < n
        invariant
            0 <= i <= n,
            x0 + n <= MAX_LEN,
            cells@ == spec_hrun(x0 as int, y as int, n as int, ch, style).take(i as int),
        decreases n - i,
    {
        cells.push(Cell { x: x0 + i, y, ch, style });
        proof {
            assert(cells@ =~= spec_hrun(x0 as int, y as int, n as int, ch, style).take(i + 1));
        }
        i = i + 1;
    }
    proof {
        assert(spec_hrun(x0 as int, y as int, n as int, ch, style).take(n as int) =~= spec_hrun(
            x0 as int,
            y as int,
            n as int,
            ch,
            style,
        ));
    }
    cells
}

/// Emit a vertical run.
pub fn vrun(x: usize, y0: usize, n: usize, ch: char, style: Style) -> (cells: Vec<Cell>)
    requires
        y0 + n <= MAX_LEN,
    ensures
        cells@ == spec_vrun(x as int, y0 as int, n as int, ch, style),
{
    let mut cells: Vec<Cell> = Vec::new();
    let mut i: usize = 0;
    while i < n
        invariant
            0 <= i <= n,
            y0 + n <= MAX_LEN,
            cells@ == spec_vrun(x as int, y0 as int, n as int, ch, style).take(i as int),
        decreases n - i,
    {
        cells.push(Cell { x, y: y0 + i, ch, style });
        proof {
            assert(cells@ =~= spec_vrun(x as int, y0 as int, n as int, ch, style).take(i + 1));
        }
        i = i + 1;
    }
    proof {
        assert(spec_vrun(x as int, y0 as int, n as int, ch, style).take(n as int) =~= spec_vrun(
            x as int,
            y0 as int,
            n as int,
            ch,
            style,
        ));
    }
    cells
}

/// The same cells moved right by `dx` columns.
pub open spec fn spec_offset_cells(s: Seq<Cell>, dx: int) -> Seq<Cell> {
    s.map(|i: int, c: Cell| Cell { x: (c.x + dx) as usize, y: c.y, ch: c.ch, style: c.style })
}

/// Move a pane's cells to the pane's column on screen.
pub fn offset_cells(cells: Vec<Cell>, dx: usize) -> (r: Vec<Cell>)
    requires
        forall|k: int| 0 <= k < cells@.len() ==> (#[trigger] cells@[k]).x + dx <= usize::MAX,
    ensures
        r@ == spec_offset_cells(cells@, dx as int),
{
    let mut r: Vec<Cell> = Vec::new();
    let n = cells.len();
    let mut i: usize = 0;
    while i < n
        invariant
            0 <= i <= n,
            n == cells@.len(),
            forall|k: int| 0 <= k < cells@.len() ==> (#[trigger] cells@[k]).x + dx <= usize::MAX,
            r@ == spec_offset_cells(cells@, dx as int).take(i as int),
        decreases n - i,
    {
        let c = cells[i];
        r.push(Cell { x: c.x + dx, y: c.y, ch: c.ch, style: c.style });
        proof {
            assert(r@ =~= spec_offset_cells(cells@, dx as int).take(i + 1));
        }
        i = i + 1;
    }
    proof {
        assert(spec_offset_cells(cells@, dx as int).take(n as int) =~= spec_offset_cells(
            cells@,
            dx as int,
        ));
    }
    r
}

/// Append `more` to `cells`.
pub fn extend_cells(cells: &mut Vec<Cell>, more: Vec<Cell>)
    ensures
        final(cells)@ == old(cells)@ + more@,
{
    let mut more = more;
    let n = more.len();
    let mut i: usize = 0;
    while i < n
        invariant
            0 <= i <= n,
            n == more@.len(),
            cells@ == old(cells)@ + more@.take(i as int),
        decreases n - i,
    {
        let c = more[i];
        cells.push(c);
        proof {
            assert(old(cells)@ + more@.take(i + 1) =~= (old(cells)@ + more@.take(
                i as int,
            )).push(more@[i as int]));
        }
        i = i + 1;
    }
    proof {
        assert(more@.take(n as int) =~= more@);
    }
}

/// Emit a box border with a blank interior at `(pos_x, pos_y)`.
pub fn draw_box(pos_x: usize, pos_y: usize, width: usize, height: usize) -> (cells: Vec<Cell>)
    requires
        2 <= width,
        2 <= height,
        pos_x + width <= MAX_LEN,
        pos_y + height <= MAX_LEN,
    ensures
        cells@ == spec_box(pos_x as int, pos_y as int, width as int, height as int),
{
    let mut cells = hrun(pos_x + 1, pos_y, width - 2, '─', Style::Default);
    extend_cells(&mut cells, hrun(pos_x + 1, pos_y + height - 1, width - 2, '─', Style::Default));
    extend_cells(&mut cells, vrun(pos_x, pos_y + 1, height - 2, '│', Style::Default));
    extend_cells(&mut cells, vrun(pos_x + width - 1, pos_y + 1, height - 2, '│', Style::Default));
    cells.push(Cell { x: pos_x, y: pos_y, ch: '┌', style: Style::Default });
    cells.push(Cell { x: pos_x + width - 1, y: pos_y, ch: '┐', style: Style::Default });
    cells.push(Cell { x: pos_x, y: pos_y + height - 1, ch: '└', style: Style::Default });
    cells.push(
        Cell { x: pos_x + width - 1, y: pos_y + height - 1, ch: '┘', style: Style::Default },
    );
    let ghost head = cells@;
    let mut x: usize = 1;
    while x < width - 1
        invariant
            1 <= x <= width,
            2 <= width,
            2 <= height,
            pos_x + width <= MAX_LEN,
            pos_y + height <= MAX_LEN,
            head + spec_box_fill(pos_x as int, pos_y as int, width as int, height as int, 1)
                == cells@ + spec_box_fill(
                pos_x as int,
                pos_y as int,
                width as int,
                height as int,
                x as int,
            ),
        decreases width - x,
    {
        let ghost cells0 = cells@;
        extend_cells(&mut cells, vrun(pos_x + x, pos_y + 1, height - 2, ' ', Style::Default));
        proof {
            assert(spec_box_fill(pos_x as int, pos_y as int, width as int, height as int, x as int)
                == spec_vrun(pos_x + x, pos_y + 1, height - 2, ' ', Style::Default)
                + spec_box_fill(
                pos_x as int,
                pos_y as int,
                width as int,
                height as int,
                x + 1,
            ));
        }
        x = x + 1;
    }
    proof {
        assert(spec_box_fill(pos_x as int, pos_y as int, width as int, height as int, x as int)
            =~= Seq::empty());
        assert(cells@ =~= head + spec_box_fill(
            pos_x as int,
            pos_y as int,
            width as int,
            height as int,
            1,
        ));
        assert(cells@ =~= spec_box(pos_x as int, pos_y as int, width as int, height as int));
    }
    cells
}

} // verus!
