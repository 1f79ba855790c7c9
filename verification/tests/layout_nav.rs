use rhex::hex_grid::HexGrid;
use rhex::keys::{Arrow, Key};
use rhex::layout::{bytes_per_line, cols_per_line, last_line_bytes, total_lines};

#[test]
fn bytes_per_line_widths() {
    assert_eq!(bytes_per_line(2), 1);
    assert_eq!(bytes_per_line(3), 1);
    assert_eq!(bytes_per_line(5), 2);
    assert_eq!(bytes_per_line(11), 4);
    assert_eq!(bytes_per_line(12), 4);
}

#[test]
fn cols_relation_concrete() {
    for w in 2..200usize {
        assert_eq!(bytes_per_line(w) * 3 - 1, cols_per_line(w));
    }
}

#[test]
fn total_lines_values() {
    assert_eq!(total_lines(0, 4), 0);
    assert_eq!(total_lines(1, 4), 1);
    assert_eq!(total_lines(4, 4), 1);
    assert_eq!(total_lines(5, 4), 2);
    assert_eq!(total_lines(10, 4), 3);
    let n = 10usize;
    let bpl = 4usize;
    let t = total_lines(n, bpl);
    assert!((t - 1) * bpl < n && n <= t * bpl);
}

#[test]
fn last_line_bytes_values() {
    assert_eq!(last_line_bytes(10, 4), 2);
    assert_eq!(last_line_bytes(8, 4), 0);
}

#[test]
fn offset_jump_margin_scenario() {
    // Ten bytes at four per line in a three-row window: the jump to the
    // last byte lands on row 2, column 3, and the lower margin bound wins.
    let mut grid = HexGrid::new(11, 3, 10);
    grid.move_cursor_offset(9);
    assert_eq!(grid.get_row(), 2);
    assert_eq!(grid.get_column(), 3);
    assert_eq!(grid.get_scroll(), 2);
}

#[test]
fn offset_round_trip_concrete() {
    let mut grid = HexGrid::new(11, 6, 100);
    grid.move_cursor_offset(42);
    let row = grid.get_row();
    let col = grid.get_column();
    let idx = grid.get_byte_idx();
    assert_eq!(idx, 42);
    grid.move_cursor_offset(idx);
    assert_eq!(grid.get_row(), row);
    assert_eq!(grid.get_column(), col);
}

#[test]
fn margin_holds_after_jumps() {
    let mut grid = HexGrid::new(14, 8, 1000);
    for &o in &[0usize, 7, 500, 999, 3, 998] {
        grid.move_cursor_offset(o);
        let row = grid.get_row();
        let scroll = grid.get_scroll();
        assert!(scroll <= row && row <= scroll + 8 - 1);
    }
}

#[test]
fn empty_buffer_is_inert() {
    // A degenerate buffer pins the cursor at offset zero and ignores
    // every movement key.
    let mut grid = HexGrid::new(11, 5, 0);
    assert_eq!(grid.get_byte_idx(), 0);
    for key in [
        Key::Arrow(Arrow::Up),
        Key::Arrow(Arrow::Down),
        Key::Arrow(Arrow::Left),
        Key::Arrow(Arrow::Right),
        Key::Char('j'),
        Key::Char('k'),
        Key::Char('h'),
        Key::Char('l'),
        Key::Char('G'),
        Key::Ctrl('d'),
        Key::Ctrl('u'),
    ] {
        let handled = grid.keypressed(key);
        assert!(handled);
        assert_eq!(grid.get_row(), 0);
        assert_eq!(grid.get_column(), 0);
        assert_eq!(grid.get_scroll(), 0);
        assert_eq!(grid.get_byte_idx(), 0);
    }
}

#[test]
fn right_key_skips_gap_columns() {
    let mut grid = HexGrid::new(11, 5, 8);
    assert_eq!(grid.get_column(), 0);
    grid.keypressed(Key::Char('l'));
    assert_eq!(grid.get_column(), 1);
    grid.keypressed(Key::Char('l'));
    // From the second digit the cursor skips the gap in one step.
    assert_eq!(grid.get_column(), 3);
    grid.keypressed(Key::Char('h'));
    assert_eq!(grid.get_column(), 1);
    grid.keypressed(Key::Char('h'));
    assert_eq!(grid.get_column(), 0);
    grid.keypressed(Key::Char('h'));
    assert_eq!(grid.get_column(), 0);
}

#[test]
fn right_key_stops_at_ragged_last_row() {
    // Ten bytes at four per line: the last row holds two bytes, so the
    // cursor cannot pass column 4 there.
    let mut grid = HexGrid::new(11, 5, 10);
    grid.move_cursor_offset(8);
    assert_eq!(grid.get_row(), 2);
    grid.keypressed(Key::Char('l'));
    assert_eq!(grid.get_column(), 1);
    grid.keypressed(Key::Char('l'));
    assert_eq!(grid.get_column(), 3);
    grid.keypressed(Key::Char('l'));
    assert_eq!(grid.get_column(), 4);
    grid.keypressed(Key::Char('l'));
    assert_eq!(grid.get_column(), 4);
}

#[test]
fn down_clamps_column_on_ragged_row() {
    let mut grid = HexGrid::new(11, 5, 10);
    grid.move_cursor_offset(3);
    assert_eq!(grid.get_column(), 9);
    grid.keypressed(Key::Char('j'));
    assert_eq!(grid.get_row(), 1);
    assert_eq!(grid.get_column(), 9);
    grid.keypressed(Key::Char('j'));
    // The destination is the two-byte last row: the column clamps.
    assert_eq!(grid.get_row(), 2);
    assert_eq!(grid.get_column(), 4);
}

#[test]
fn page_down_and_up() {
    let mut grid = HexGrid::new(11, 5, 100);
    grid.keypressed(Key::Ctrl('d'));
    assert_eq!(grid.get_byte_idx(), 40);
    grid.keypressed(Key::Ctrl('u'));
    assert_eq!(grid.get_byte_idx(), 0);
    grid.keypressed(Key::Ctrl('u'));
    assert_eq!(grid.get_byte_idx(), 0);
    grid.keypressed(Key::Char('G'));
    assert_eq!(grid.get_byte_idx(), 99);
    grid.keypressed(Key::Ctrl('d'));
    assert_eq!(grid.get_byte_idx(), 99);
}

#[test]
fn go_to_end_key() {
    let mut grid = HexGrid::new(11, 5, 10);
    let handled = grid.keypressed(Key::Char('G'));
    assert!(handled);
    assert_eq!(grid.get_byte_idx(), 9);
    assert!(!grid.keypressed(Key::Char('x')));
}

#[test]
fn center_scroll() {
    let mut grid = HexGrid::new(11, 6, 100);
    grid.move_cursor_offset(80);
    let row = grid.get_row();
    grid.try_center_scroll();
    assert_eq!(grid.get_scroll(), row - 3);
    let mut near_top = HexGrid::new(11, 6, 100);
    near_top.move_cursor_offset(4);
    let s = near_top.get_scroll();
    near_top.try_center_scroll();
    assert_eq!(near_top.get_scroll(), s);
}
