use rhex::goto::{GotoOverlay, OverlayRet};
use rhex::keys::Key;
use rhex::search::{NibbleCursor, SearchMode, SearchOverlay, SearchRet};

fn ascii_keys(overlay: &mut SearchOverlay, contents: &[u8], text: &str) {
    for c in text.chars() {
        match overlay.keypressed(Key::Char(c), contents) {
            SearchRet::Continue => {},
            _ => panic!("pattern entry should keep the overlay open"),
        }
    }
}

#[test]
fn search_two_matches() {
    // Scenario: buffer AABBAABB, pattern AA: matches at 0 and 4, length 2.
    let contents = b"AABBAABB";
    let mut overlay = SearchOverlay::new(80, 24, 0, 0);
    ascii_keys(&mut overlay, contents, "AA");
    match overlay.keypressed(Key::Char('\r'), contents) {
        SearchRet::Highlight { focus, all_bytes, len } => {
            assert_eq!(all_bytes, vec![0, 4]);
            assert_eq!(len, 2);
            assert_eq!(focus, 2);
        },
        _ => panic!("submitting a non-empty pattern must report matches"),
    }
}

#[test]
fn search_overlapping_occurrences_skipped() {
    // AAAA holds three occurrences of AA, but the scan never overlaps.
    let contents = b"AAAA";
    let mut overlay = SearchOverlay::new(80, 24, 0, 0);
    ascii_keys(&mut overlay, contents, "AA");
    match overlay.keypressed(Key::Char('\r'), contents) {
        SearchRet::Highlight { all_bytes, .. } => {
            assert_eq!(all_bytes, vec![0, 2]);
        },
        _ => panic!("submitting a non-empty pattern must report matches"),
    }
}

#[test]
fn search_matches_ascending_nonoverlapping() {
    let contents = b"xABxxABABxABx";
    let mut overlay = SearchOverlay::new(80, 24, 0, 0);
    ascii_keys(&mut overlay, contents, "AB");
    match overlay.keypressed(Key::Char('\r'), contents) {
        SearchRet::Highlight { all_bytes, len, .. } => {
            assert_eq!(all_bytes, vec![1, 5, 7, 10]);
            for w in all_bytes.windows(2) {
                assert!(w[0] + len <= w[1]);
            }
        },
        _ => panic!("submitting a non-empty pattern must report matches"),
    }
}

#[test]
fn search_pattern_longer_than_buffer() {
    let contents = b"AB";
    let mut overlay = SearchOverlay::new(80, 24, 0, 0);
    ascii_keys(&mut overlay, contents, "ABC");
    match overlay.keypressed(Key::Char('\r'), contents) {
        SearchRet::Highlight { all_bytes, .. } => assert!(all_bytes.is_empty()),
        _ => panic!("submitting a non-empty pattern must report matches"),
    }
}

#[test]
fn search_empty_submit_is_noop() {
    let contents = b"AABB";
    let mut overlay = SearchOverlay::new(80, 24, 0, 0);
    assert!(matches!(overlay.keypressed(Key::Char('\r'), contents), SearchRet::Continue));
    assert!(matches!(overlay.keypressed(Key::Esc, contents), SearchRet::Abort));
}

#[test]
fn hex_mode_nibble_entry() {
    // Scenario: hex-mode keys 4 then 1 build the pattern [0x41] with the
    // byte cursor past it and the nibble cursor back on the high half.
    let contents = b"A";
    let mut overlay = SearchOverlay::new(80, 24, 0, 0);
    overlay.keypressed(Key::Tab, contents);
    assert!(matches!(overlay.mode, SearchMode::Hex));
    overlay.keypressed(Key::Char('4'), contents);
    assert_eq!(overlay.buffer, vec![0x40]);
    assert!(matches!(overlay.nibble_cursor, NibbleCursor::LS));
    overlay.keypressed(Key::Char('1'), contents);
    assert_eq!(overlay.buffer, vec![0x41]);
    assert_eq!(overlay.byte_cursor, 1);
    assert!(matches!(overlay.nibble_cursor, NibbleCursor::MS));
}

#[test]
fn hex_mode_ignores_other_characters() {
    let contents = b"A";
    let mut overlay = SearchOverlay::new(80, 24, 0, 0);
    overlay.keypressed(Key::Tab, contents);
    overlay.keypressed(Key::Char('g'), contents);
    assert!(overlay.buffer.is_empty());
    overlay.keypressed(Key::Char('F'), contents);
    assert_eq!(overlay.buffer, vec![0xF0]);
    overlay.keypressed(Key::Char('f'), contents);
    assert_eq!(overlay.buffer, vec![0xFF]);
}

#[test]
fn hex_backspace_clears_low_nibble_in_place() {
    let contents = b"A";
    let mut overlay = SearchOverlay::new(80, 24, 0, 0);
    overlay.keypressed(Key::Tab, contents);
    overlay.keypressed(Key::Char('4'), contents);
    // On the low nibble, backspace clears it and keeps the byte.
    overlay.keypressed(Key::Backspace, contents);
    assert_eq!(overlay.buffer, vec![0x40]);
    assert!(matches!(overlay.nibble_cursor, NibbleCursor::MS));
    // On the high half of an existing byte, backspace pops it.
    overlay.keypressed(Key::Backspace, contents);
    assert!(overlay.buffer.is_empty());
    assert_eq!(overlay.byte_cursor, 0);
}

#[test]
fn ascii_backspace_pops() {
    let contents = b"A";
    let mut overlay = SearchOverlay::new(80, 24, 0, 0);
    ascii_keys(&mut overlay, contents, "ab");
    assert_eq!(overlay.buffer, vec![0x61, 0x62]);
    overlay.keypressed(Key::Backspace, contents);
    assert_eq!(overlay.buffer, vec![0x61]);
    assert_eq!(overlay.byte_cursor, 1);
    overlay.keypressed(Key::Backspace, contents);
    assert!(overlay.buffer.is_empty());
    overlay.keypressed(Key::Backspace, contents);
    assert!(overlay.buffer.is_empty());
}

#[test]
fn goto_parses_digits() {
    let mut overlay = GotoOverlay::new(40, 10, 0, 0);
    assert!(matches!(overlay.keypressed(Key::Char('1')), OverlayRet::Continue));
    assert!(matches!(overlay.keypressed(Key::Char('2')), OverlayRet::Continue));
    assert!(matches!(overlay.keypressed(Key::Char('3')), OverlayRet::Continue));
    match overlay.keypressed(Key::Char('\r')) {
        OverlayRet::Ret(v) => assert_eq!(v, 123),
        _ => panic!("enter with digits must submit"),
    }
}

#[test]
fn goto_rejects_non_digits() {
    let mut overlay = GotoOverlay::new(40, 10, 0, 0);
    overlay.keypressed(Key::Char('4'));
    overlay.keypressed(Key::Char('x'));
    overlay.keypressed(Key::Char(' '));
    match overlay.keypressed(Key::Char('\r')) {
        OverlayRet::Ret(v) => assert_eq!(v, 4),
        _ => panic!("enter with digits must submit"),
    }
}

#[test]
fn goto_backspace_and_abort() {
    let mut overlay = GotoOverlay::new(40, 10, 0, 0);
    overlay.keypressed(Key::Char('7'));
    overlay.keypressed(Key::Backspace);
    assert!(matches!(overlay.keypressed(Key::Char('\r')), OverlayRet::Abort));
    assert!(matches!(overlay.keypressed(Key::Esc), OverlayRet::Abort));
}

#[test]
fn goto_beginning_gesture() {
    let mut overlay = GotoOverlay::new(40, 10, 0, 0);
    assert!(matches!(overlay.keypressed(Key::Char('g')), OverlayRet::GotoBeginning));
}

#[test]
fn goto_saturates_huge_numbers() {
    let mut overlay = GotoOverlay::new(40, 10, 0, 0);
    for _ in 0..40 {
        overlay.keypressed(Key::Char('9'));
    }
    match overlay.keypressed(Key::Char('\r')) {
        OverlayRet::Ret(v) => assert_eq!(v, usize::MAX),
        _ => panic!("enter with digits must submit"),
    }
}
