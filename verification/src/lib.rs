//! Interactive hex viewer core: line-wrapping layout arithmetic, cursor and
//! viewport state for the hex pane, companion ASCII and address panes, a
//! dual-mode (ASCII / hex-nibble) search overlay with a non-overlapping byte
//! pattern scan, a goto overlay, the modal key dispatcher, and an ELF
//! structural parser for the auxiliary metadata display.
//!
//! Terminal input decoding and cell presentation are left to the surrounding
//! program: the library consumes plain key values and produces plain cell
//! values.

pub mod ascii_view;
pub mod elf;
pub mod goto;
pub mod hex_grid;
pub mod hex_gui;
pub mod highlight;
pub mod info_line;
pub mod keys;
pub mod layout;
pub mod lines;
pub mod search;
pub mod utils;
pub mod style;
