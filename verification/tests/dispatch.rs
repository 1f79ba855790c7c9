use rhex::hex_gui::{HexGui, Overlay};
use rhex::keys::Key;

fn gui(contents: &[u8]) -> HexGui {
    HexGui::new(contents.to_vec(), 80, 24)
}

fn type_chars(g: &mut HexGui, text: &str) {
    for c in text.chars() {
        assert!(!g.keypressed(Key::Char(c)));
    }
}

#[test]
fn quit_key() {
    let mut g = gui(b"hello");
    assert!(!g.keypressed(Key::Char('j')));
    assert!(g.keypressed(Key::Char('q')));
}

#[test]
fn goto_overlay_flow() {
    let mut g = gui(&[0u8; 100]);
    type_chars(&mut g, "g");
    assert!(matches!(g.overlay, Overlay::GotoOverlay(_)));
    // While the overlay is open, keys go to it, not to the grid.
    type_chars(&mut g, "42\r");
    assert!(matches!(g.overlay, Overlay::NoOverlay));
    assert_eq!(g.hex_grid.get_byte_idx(), 42);
}

#[test]
fn goto_gg_jumps_to_beginning() {
    let mut g = gui(&[0u8; 100]);
    type_chars(&mut g, "G");
    assert_eq!(g.hex_grid.get_byte_idx(), 99);
    type_chars(&mut g, "gg");
    assert_eq!(g.hex_grid.get_byte_idx(), 0);
    assert!(matches!(g.overlay, Overlay::NoOverlay));
}

#[test]
fn goto_clamps_past_end() {
    let mut g = gui(&[0u8; 10]);
    type_chars(&mut g, "g99\r");
    assert_eq!(g.hex_grid.get_byte_idx(), 9);
}

#[test]
fn search_overlay_flow() {
    let mut g = gui(b"AABBAABB");
    type_chars(&mut g, "/AA\r");
    assert!(matches!(g.overlay, Overlay::NoOverlay));
    assert_eq!(g.highlight, vec![0, 4]);
    assert_eq!(g.highlight_len, 2);
}

#[test]
fn search_abort_keeps_highlight() {
    let mut g = gui(b"AABBAABB");
    type_chars(&mut g, "/AA\r");
    assert_eq!(g.highlight, vec![0, 4]);
    type_chars(&mut g, "/");
    assert!(g.keypressed(Key::Esc) == false);
    assert!(matches!(g.overlay, Overlay::NoOverlay));
    assert_eq!(g.highlight, vec![0, 4]);
}

#[test]
fn repeat_search_round_trip_two_matches() {
    // With exactly two matches and the cursor on one of them, pressing n
    // then N returns to the original offset, through the wrap-around.
    let mut g = gui(b"AABBAABB");
    type_chars(&mut g, "/AA\r");
    assert_eq!(g.hex_grid.get_byte_idx(), 0);
    type_chars(&mut g, "n");
    assert_eq!(g.hex_grid.get_byte_idx(), 4);
    type_chars(&mut g, "N");
    assert_eq!(g.hex_grid.get_byte_idx(), 0);
    // And from the second match, n wraps forward, N wraps back.
    type_chars(&mut g, "nn");
    assert_eq!(g.hex_grid.get_byte_idx(), 0);
    type_chars(&mut g, "N");
    assert_eq!(g.hex_grid.get_byte_idx(), 4);
}

#[test]
fn repeat_search_without_matches_is_noop() {
    let mut g = gui(b"AABBAABB");
    type_chars(&mut g, "n");
    assert_eq!(g.hex_grid.get_byte_idx(), 0);
    type_chars(&mut g, "N");
    assert_eq!(g.hex_grid.get_byte_idx(), 0);
}

#[test]
fn double_z_recenters() {
    let mut g = gui(&[0u8; 2000]);
    type_chars(&mut g, "G");
    let row = g.hex_grid.get_row();
    type_chars(&mut g, "zz");
    assert_eq!(g.hex_grid.get_scroll(), row - (24 - 1) / 2);
    assert_eq!(g.lines.scroll, g.hex_grid.get_scroll());
    assert_eq!(g.ascii_view.scroll, g.hex_grid.get_scroll());
}

#[test]
fn single_z_then_other_key_does_not_recenter() {
    let mut g = gui(&[0u8; 2000]);
    type_chars(&mut g, "G");
    let scroll = g.hex_grid.get_scroll();
    type_chars(&mut g, "zjz");
    assert_eq!(g.hex_grid.get_scroll(), scroll);
}

#[test]
fn movement_syncs_companion_views() {
    let mut g = gui(&[0u8; 500]);
    type_chars(&mut g, "G");
    let idx = g.hex_grid.get_byte_idx();
    assert_eq!(idx, 499);
    let bpl = g.hex_grid.bytes_per_line();
    assert_eq!(g.ascii_view.cursor_y, idx / g.ascii_view.width);
    assert_eq!(g.ascii_view.width, bpl);
    assert_eq!(g.lines.cursor, idx);
}

#[test]
fn draw_with_goto_overlay() {
    let mut g = gui(&[0u8; 64]);
    type_chars(&mut g, "g12");
    let cells = g.draw();
    // The overlay's box, prompt and typed digits all appear; the digits
    // cannot come from the zero-filled grid.
    assert!(cells.iter().any(|c| c.ch == '┌'));
    assert!(cells.iter().any(|c| c.ch == '>'));
    assert!(cells.iter().any(|c| c.ch == '1'));
    assert!(cells.iter().any(|c| c.ch == '2'));
}

#[test]
fn empty_buffer_gui_is_safe() {
    let mut g = gui(b"");
    for c in "jkhlGnN".chars() {
        assert!(!g.keypressed(Key::Char(c)));
    }
    assert_eq!(g.hex_grid.get_byte_idx(), 0);
    let cells = g.draw();
    // Only the gutter separators are drawn for an empty buffer.
    assert!(cells.iter().all(|c| c.ch == '│'));
}
