use rhex::ascii_view::AsciiView;
use rhex::hex_grid::HexGrid;
use rhex::lines::Lines;
use rhex::search::SearchOverlay;
use rhex::style::{Cell, Style};
use rhex::utils::hex_char;
use rhex::keys::Key;

#[test]
fn hex_char_digits() {
    assert_eq!(hex_char(0), b'0');
    assert_eq!(hex_char(9), b'9');
    assert_eq!(hex_char(10), b'a');
    assert_eq!(hex_char(15), b'f');
}

fn cell_at(cells: &[Cell], x: usize, y: usize) -> &Cell {
    cells.iter().find(|c| c.x == x && c.y == y).expect("a cell at the position")
}

#[test]
fn grid_renders_hex_digits() {
    let grid = HexGrid::new(11, 5, 3);
    let cells = grid.draw(&[0xab, 0x01, 0xff], &vec![], 0);
    assert_eq!(cell_at(&cells, 0, 0).ch, 'a');
    assert_eq!(cell_at(&cells, 1, 0).ch, 'b');
    assert_eq!(cell_at(&cells, 3, 0).ch, '0');
    assert_eq!(cell_at(&cells, 4, 0).ch, '1');
    assert_eq!(cell_at(&cells, 6, 0).ch, 'f');
    assert_eq!(cell_at(&cells, 7, 0).ch, 'f');
    // Two digit cells per byte, no highlights.
    assert_eq!(cells.len(), 6);
    // The cursor sits on the first digit of byte zero.
    assert_eq!(cell_at(&cells, 0, 0).style, Style::CursorNoFocus);
    assert_eq!(cell_at(&cells, 1, 0).style, Style::Default);
}

#[test]
fn grid_renders_highlights_and_gap() {
    let grid = {
        let mut g = HexGrid::new(11, 5, 4);
        g.move_cursor_offset(3);
        g
    };
    // Highlight the two middle bytes: both digit pairs and the gap
    // between them paint in highlight style.
    let cells = grid.draw(&[1, 2, 3, 4], &vec![1], 2);
    assert_eq!(cell_at(&cells, 3, 0).style, Style::Highlight);
    assert_eq!(cell_at(&cells, 4, 0).style, Style::Highlight);
    assert_eq!(cell_at(&cells, 5, 0).style, Style::Highlight);
    assert_eq!(cell_at(&cells, 5, 0).ch, ' ');
    assert_eq!(cell_at(&cells, 6, 0).style, Style::Highlight);
    assert_eq!(cell_at(&cells, 7, 0).style, Style::Highlight);
    assert_eq!(cell_at(&cells, 0, 0).style, Style::Default);
    // 4 bytes, 2 digits each, plus one painted gap.
    assert_eq!(cells.len(), 9);
}

#[test]
fn grid_scrolled_window() {
    let mut grid = HexGrid::new(11, 4, 40);
    grid.move_cursor_offset(39);
    assert_eq!(grid.get_scroll(), 8);
    let data = vec![0x11u8; 40];
    let cells = grid.draw(&data, &vec![], 0);
    // Rows 8 and 9 are visible: eight bytes, two cells each.
    assert_eq!(cells.len(), 16);
    assert!(cells.iter().all(|c| c.y < 4));
}

#[test]
fn ascii_view_renders_printables_and_dots() {
    let view = AsciiView::new(4, 5, 6);
    let cells = view.draw(b"Hi\x00y!\x7f", &vec![], 0);
    assert_eq!(cells.len(), 6);
    assert_eq!(cell_at(&cells, 0, 0).ch, 'H');
    assert_eq!(cell_at(&cells, 1, 0).ch, 'i');
    assert_eq!(cell_at(&cells, 2, 0).ch, '.');
    assert_eq!(cell_at(&cells, 3, 0).ch, 'y');
    assert_eq!(cell_at(&cells, 0, 1).ch, '!');
    assert_eq!(cell_at(&cells, 1, 1).ch, '.');
    assert_eq!(cell_at(&cells, 0, 0).style, Style::CursorNoFocus);
}

#[test]
fn ascii_view_highlight() {
    let view = AsciiView::new(4, 5, 4);
    let cells = view.draw(b"abcd", &vec![2], 2);
    assert_eq!(cell_at(&cells, 1, 0).style, Style::Default);
    assert_eq!(cell_at(&cells, 2, 0).style, Style::Highlight);
    assert_eq!(cell_at(&cells, 3, 0).style, Style::Highlight);
}

#[test]
fn gutter_rows() {
    let mut lines = Lines::new(4, 10, 6, 5);
    lines.move_cursor_offset(5);
    let rows = lines.draw();
    assert_eq!(rows.len(), 3);
    assert_eq!(rows[0].text, b"0x00000".to_vec());
    assert_eq!(rows[1].text, b"0x00004".to_vec());
    assert_eq!(rows[2].text, b"0x00008".to_vec());
    assert!(!rows[0].current);
    assert!(rows[1].current);
    assert!(!rows[2].current);
}

#[test]
fn gutter_window_clipped_by_height() {
    let lines = Lines::new(4, 100, 6, 3);
    let rows = lines.draw();
    assert_eq!(rows.len(), 3);
}

#[test]
fn info_line_draw() {
    let mut info = rhex::info_line::InfoLine::new(9, 0, 23, Vec::new());
    info.set_text(b"hi".to_vec());
    let cells = info.draw();
    // Ten blank bar cells, then the text painted over the bar's start.
    assert_eq!(cells.len(), 12);
    assert!(cells.iter().all(|c| c.style == Style::StatusBar && c.y == 23));
    assert_eq!(cells[10].ch, 'h');
    assert_eq!(cells[11].ch, 'i');
    assert_eq!(cells[10].x, 0);
}

#[test]
fn search_overlay_draw_shows_pattern() {
    let mut overlay = SearchOverlay::new(100, 40, 0, 0);
    overlay.keypressed(Key::Char('A'), b"");
    let cells = overlay.draw();
    // The ASCII half echoes the byte; the hex half shows its digits.
    assert!(cells.iter().any(|c| c.ch == 'A'));
    assert!(cells.iter().any(|c| c.ch == '4' && c.x > 25));
    assert!(cells.iter().any(|c| c.ch == '1' && c.x > 25));
    assert!(cells.iter().any(|c| c.ch == '┬'));
    assert!(cells.iter().any(|c| c.ch == '┴'));
}
