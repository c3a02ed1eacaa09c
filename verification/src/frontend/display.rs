//! Showing the frame buffer.

use vstd::prelude::*;
use crate::state::{CHIP8_HEIGHT, CHIP8_WIDTH};

verus! {

/// Something that can show a frame buffer.
pub trait Display {
    /// Shows the frame buffer; each cell is 1 for a lit pixel and 0 for a dark one.
    fn draw(&mut self, vram: &[[u8; CHIP8_WIDTH]; CHIP8_HEIGHT]);
}

/// A display that shows nothing, for running without a screen.
pub struct HeadlessDisplay;

impl Display for HeadlessDisplay {
    fn draw(&mut self, _vram: &[[u8; CHIP8_WIDTH]; CHIP8_HEIGHT])
        ensures
            *final(self) == *old(self),
    {
    }
}

impl HeadlessDisplay {
    /// A display that is ready to take frames and show none of them.
    pub fn new() -> (display: Self)
        ensures
            display == HeadlessDisplay,
    {
        Self
    }
}

/// The square of the window that shows one pixel at a given scale.
#[derive(Clone, Copy, Debug, PartialEq, Eq, Structural)]
pub struct PixelRect {
    pub x: i32,
    pub y: i32,
    pub width: u32,
    pub height: u32,
    /// Whether the pixel is lit and the square therefore white, not black.
    pub lit: bool,
}

/// Width and height of the window that shows every pixel as a square of
/// `render_scale` by `render_scale`.
pub fn window_size(render_scale: u32) -> (size: (u32, u32))
    requires
        CHIP8_WIDTH * render_scale <= u32::MAX,
    ensures
        size.0 == CHIP8_WIDTH * render_scale,
        size.1 == CHIP8_HEIGHT * render_scale,
{
    (CHIP8_WIDTH as u32 * render_scale, CHIP8_HEIGHT as u32 * render_scale)
}

/// The square that shows the pixel in row `row`, column `col`: its corner
/// lies `render_scale` times the column to the right and `render_scale`
/// times the row down, and it is lit exactly when the cell holds 1.
pub fn pixel_rect(
    vram: &[[u8; CHIP8_WIDTH]; CHIP8_HEIGHT],
    row: usize,
    col: usize,
    render_scale: u32,
) -> (rect: PixelRect)
    requires
        row < CHIP8_HEIGHT,
        col < CHIP8_WIDTH,
        CHIP8_WIDTH * render_scale <= i32::MAX,
    ensures
        rect.x == col * render_scale,
        rect.y == row * render_scale,
        rect.width == render_scale,
        rect.height == render_scale,
        rect.lit == (vram@[row as int]@[col as int] == 1),
{
    assert(col * render_scale <= 64 * render_scale && row * render_scale <= 64 * render_scale)
        by (nonlinear_arith)
        requires
            row < 32,
            col < 64,
    ;
    let x_coord: u32 = col as u32 * render_scale;
    let y_coord: u32 = row as u32 * render_scale;
    PixelRect {
        x: x_coord as i32,
        y: y_coord as i32,
        width: render_scale,
        height: render_scale,
        lit: vram[row][col] == 1,
    }
}

} // verus!
