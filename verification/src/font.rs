//! The built-in hexadecimal font.

use vstd::prelude::*;

verus! {

/// Bytes per glyph: one byte for each of its five rows.
pub const SPRITE_WIDTH: u8 = 5;

/// Number of bytes the built-in font takes at the base of memory.
pub const FONT_SIZE: usize = 80;

/// The sixteen hexadecimal glyphs `0` to `F`, five rows each, the pixels of a
/// row in the high nibble of its byte.
pub const FONT: [u8; 80] = [
    0xF0, 0x90, 0x90, 0x90, 0xF0,
    0x20, 0x60, 0x20, 0x20, 0x70,
    0xF0, 0x10, 0xF0, 0x80, 0xF0,
    0xF0, 0x10, 0xF0, 0x10, 0xF0,
    0x90, 0x90, 0xF0, 0x10, 0x10,
    0xF0, 0x80, 0xF0, 0x10, 0xF0,
    0xF0, 0x80, 0xF0, 0x90, 0xF0,
    0xF0, 0x10, 0x20, 0x40, 0x40,
    0xF0, 0x90, 0xF0, 0x90, 0xF0,
    0xF0, 0x90, 0xF0, 0x10, 0xF0,
    0xF0, 0x90, 0xF0, 0x90, 0x90,
    0xE0, 0x90, 0xE0, 0x90, 0xE0,
    0xF0, 0x80, 0x80, 0x80, 0xF0,
    0xE0, 0x90, 0x90, 0x90, 0xE0,
    0xF0, 0x80, 0xF0, 0x80, 0xF0,
    0xF0, 0x80, 0xF0, 0x80, 0x80,
];

/// Memory offset of the glyph for the hexadecimal digit `digit`.
pub open spec fn glyph_address(digit: u8) -> int {
    SPRITE_WIDTH * digit
}

} // verus!
