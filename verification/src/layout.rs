//! Line-wrapping arithmetic for the hex pane: how many bytes fit on one
//! rendered line, how many columns that takes, how many lines the whole
//! buffer needs, and how many bytes the ragged last line holds.

use vstd::prelude::*;

verus! {

/// Upper bound on pane widths and heights accepted by the viewer. Keeps all
/// screen-coordinate arithmetic inside `usize` on every machine.
pub const MAX_DIM: usize = 4096;

/// Upper bound on buffer lengths accepted by the viewer. Keeps all byte
/// offset arithmetic inside `usize` on every machine.
pub const MAX_LEN: usize = usize::MAX / 4;

/// Bytes shown on one line of a hex pane of the given width: each byte takes
/// two digits plus one separating space, and a final column pair without its
/// trailing space still fits.
pub open spec fn spec_bytes_per_line(width: int) -> int {
    width / 3 + if width % 3 == 2 { 1int } else { 0int }
}

/// Effective columns used by a full line: three per byte, minus the unused
/// trailing space.
pub open spec fn spec_cols_per_line(width: int) -> int {
    spec_bytes_per_line(width) * 3 - 1
}

/// Lines needed to show `len` bytes at `bpl` bytes per line (the ceiling of
/// `len / bpl`).
pub open spec fn spec_total_lines(len: int, bpl: int) -> int
    recommends
        bpl >= 1,
{
    (len + bpl - 1) / bpl
}

/// Bytes rendered on the last line; `0` means the last line is full.
pub open spec fn spec_last_line_bytes(len: int, bpl: int) -> int
    recommends
        bpl >= 1,
{
    len % bpl
}

/// Bytes rendered on line `row`: a full line everywhere except a ragged last
/// line.
pub open spec fn spec_row_bytes(len: int, bpl: int, row: int) -> int
    recommends
        bpl >= 1,
{
    if row == spec_total_lines(len, bpl) - 1 && len % bpl != 0 {
        len % bpl
    } else {
        bpl
    }
}

pub fn bytes_per_line(width: usize) -> (r: usize)
    requires
        2 <= width,
    ensures
        r == spec_bytes_per_line(width as int),
        1 <= r,
        3 * r <= width + 3,
{
    let bytes = width / 3;
    if width % 3 == 2 {
        bytes + 1
    } else {
        bytes
    }
}

pub fn cols_per_line(width: usize) -> (r: usize)
    requires
        2 <= width <= MAX_DIM,
    ensures
        r == spec_cols_per_line(width as int),
{
    bytes_per_line(width) * 3 - 1
}

/// The columns of a full line never exceed the pane width.
pub proof fn lemma_cols_fit(width: int)
    requires
        2 <= width,
    ensures
        spec_cols_per_line(width) <= width,
        1 <= spec_bytes_per_line(width),
{
}

/// Every line's byte count lies between one and a full line.
pub proof fn lemma_row_bytes_bounds(len: int, bpl: int, row: int)
    requires
        1 <= bpl,
        1 <= len,
    ensures
        1 <= spec_row_bytes(len, bpl, row) <= bpl,
{
}

pub fn total_lines(len: usize, bpl: usize) -> (r: usize)
    requires
        1 <= bpl,
    ensures
        r == spec_total_lines(len as int, bpl as int),
        r <= len,
{
    proof {
        lemma_total_lines_split(len as int, bpl as int);
    }
    if len % bpl == 0 {
        len / bpl
    } else {
        len / bpl + 1
    }
}

pub fn last_line_bytes(len: usize, bpl: usize) -> (r: usize)
    requires
        1 <= bpl,
    ensures
        r == spec_last_line_bytes(len as int, bpl as int),
{
    len % bpl
}

/// The ceiling division agrees with flooring plus a correction for a
/// non-empty remainder.
pub proof fn lemma_total_lines_split(len: int, bpl: int)
    requires
        0 <= len,
        1 <= bpl,
    ensures
        spec_total_lines(len, bpl) == len / bpl + if len % bpl == 0 { 0int } else { 1int },
        spec_total_lines(len, bpl) <= len,
{
    let q = len / bpl;
    let r = len % bpl;
    vstd::arithmetic::div_mod::lemma_fundamental_div_mod(len, bpl);
    vstd::arithmetic::div_mod::lemma_mod_division_less_than_divisor(len, bpl);
    if r == 0 {
        assert(len + bpl - 1 == q * bpl + (bpl - 1)) by (nonlinear_arith)
            requires
                len == bpl * q,
        ;
        vstd::arithmetic::div_mod::lemma_fundamental_div_mod_converse(
            len + bpl - 1,
            bpl,
            q,
            bpl - 1,
        );
        vstd::arithmetic::div_mod::lemma_div_nonincreasing(len, bpl);
    } else {
        assert(len + bpl - 1 == (q + 1) * bpl + (r - 1)) by (nonlinear_arith)
            requires
                len == bpl * q + r,
        ;
        vstd::arithmetic::div_mod::lemma_fundamental_div_mod_converse(
            len + bpl - 1,
            bpl,
            q + 1,
            r - 1,
        );
        // A non-zero remainder needs a divisor of at least two, so the
        // quotient drops strictly below `len`.
        vstd::arithmetic::div_mod::lemma_div_is_strictly_smaller(len, bpl);
    }
}

/// The column count of a line is always three per byte minus the trailing
/// space: `bytes_per_line(width) * 3 - 1 == cols_per_line(width)`.
pub proof fn lemma_bytes_cols_relation(width: int)
    ensures
        spec_bytes_per_line(width) * 3 - 1 == spec_cols_per_line(width),
{
}

/// The line count is zero exactly for an empty buffer, and otherwise is the
/// least count whose lines cover the buffer:
/// `(total_lines - 1) * bpl < len <= total_lines * bpl`.
pub proof fn lemma_total_lines_bounds(len: int, bpl: int)
    requires
        0 <= len,
        1 <= bpl,
    ensures
        spec_total_lines(len, bpl) == 0 <==> len == 0,
        len > 0 ==> (spec_total_lines(len, bpl) - 1) * bpl < len <= spec_total_lines(len, bpl)
            * bpl,
{
    lemma_total_lines_split(len, bpl);
    let t = spec_total_lines(len, bpl);
    let q = len / bpl;
    let r = len % bpl;
    vstd::arithmetic::div_mod::lemma_fundamental_div_mod(len, bpl);
    vstd::arithmetic::div_mod::lemma_mod_division_less_than_divisor(len, bpl);
    if len > 0 {
        vstd::arithmetic::div_mod::lemma_div_pos_is_pos(len, bpl);
        if r == 0 {
            assert(t == q);
            assert(q > 0) by (nonlinear_arith)
                requires
                    len == bpl * q + r,
                    r == 0,
                    len > 0,
                    1 <= bpl,
                    0 <= q,
            ;
            assert((q - 1) * bpl < len && len <= q * bpl) by (nonlinear_arith)
                requires
                    1 <= bpl,
                    0 < len,
                    len == bpl * q,
            ;
        } else {
            assert(t == q + 1);
            assert(q * bpl < len && len <= (q + 1) * bpl) by (nonlinear_arith)
                requires
                    len == bpl * q + r,
                    0 < r < bpl,
            ;
        }
    } else {
        vstd::arithmetic::div_mod::lemma_basic_div(bpl - 1, bpl);
    }
}

/// A byte offset within the buffer lands on a line below `total_lines`, and
/// its position within the line stays below that line's byte count.
pub proof fn lemma_offset_coords(len: int, bpl: int, off: int)
    requires
        1 <= bpl,
        0 <= off < len,
    ensures
        0 <= off / bpl < spec_total_lines(len, bpl),
        0 <= off % bpl < spec_row_bytes(len, bpl, off / bpl),
        off == (off / bpl) * bpl + off % bpl,
{
    let row = off / bpl;
    let pos = off % bpl;
    let t = spec_total_lines(len, bpl);
    vstd::arithmetic::div_mod::lemma_fundamental_div_mod(off, bpl);
    vstd::arithmetic::div_mod::lemma_mod_division_less_than_divisor(off, bpl);
    vstd::arithmetic::div_mod::lemma_div_pos_is_pos(off, bpl);
    lemma_total_lines_bounds(len, bpl);
    assert(off == row * bpl + pos);
    // row < t: otherwise off >= t * bpl >= len.
    if row >= t {
        assert(off >= t * bpl) by (nonlinear_arith)
            requires
                row >= t,
                1 <= bpl,
                0 <= pos,
                off == row * bpl + pos,
        ;
        assert(false);
    }
    if row == t - 1 && len % bpl != 0 {
        // On a ragged last line the position stays below the remainder.
        vstd::arithmetic::div_mod::lemma_fundamental_div_mod(len, bpl);
        lemma_total_lines_split(len, bpl);
        assert(row == len / bpl);
        assert(pos < len % bpl) by {
            assert(len == bpl * (len / bpl) + len % bpl);
            assert(off < len);
        }
    }
}

/// Converse direction: valid coordinates name a byte inside the buffer.
pub proof fn lemma_coords_offset(len: int, bpl: int, row: int, pos: int)
    requires
        1 <= bpl,
        1 <= len,
        0 <= row < spec_total_lines(len, bpl),
        0 <= pos < spec_row_bytes(len, bpl, row),
    ensures
        0 <= row * bpl + pos < len,
        (row * bpl + pos) / bpl == row,
        (row * bpl + pos) % bpl == pos,
{
    let t = spec_total_lines(len, bpl);
    lemma_total_lines_bounds(len, bpl);
    assert(pos < bpl);
    vstd::arithmetic::div_mod::lemma_fundamental_div_mod_converse(row * bpl + pos, bpl, row, pos);
    assert(0 <= row * bpl) by (nonlinear_arith)
        requires
            0 <= row,
            1 <= bpl,
    ;
    if row == t - 1 {
        lemma_total_lines_split(len, bpl);
        vstd::arithmetic::div_mod::lemma_fundamental_div_mod(len, bpl);
        if len % bpl != 0 {
            assert(row * bpl + pos < len) by (nonlinear_arith)
                requires
                    len == bpl * (len / bpl) + len % bpl,
                    row == len / bpl,
                    pos < len % bpl,
            ;
        } else {
            assert(row * bpl + pos < len) by (nonlinear_arith)
                requires
                    len == bpl * (len / bpl),
                    row == len / bpl - 1,
                    pos < bpl,
            ;
        }
    } else {
        assert(row * bpl + pos < (t - 1) * bpl) by (nonlinear_arith)
            requires
                row + 1 <= t - 1,
                1 <= bpl,
                0 <= pos < bpl,
        ;
        assert((t - 1) * bpl < len);
    }
}

} // verus!
