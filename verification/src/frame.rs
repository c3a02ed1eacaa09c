//! The frame buffer.

use vstd::prelude::*;
use crate::state::{blank_frame, CHIP8_HEIGHT, CHIP8_WIDTH};

verus! {

/// The screen: `CHIP8_HEIGHT` rows of `CHIP8_WIDTH` one-bit pixels, each kept
/// in a cell that holds 0 or 1.
#[derive(Debug)]
pub struct FrameBuffer {
    cells: [[u8; 64]; 32],
}

/// `frame` with the pixel at `(row, col)` flipped when `lit` holds.
pub open spec fn xor_pixel(frame: Seq<Seq<bool>>, row: int, col: int, lit: bool) -> Seq<
    Seq<bool>,
> {
    frame.update(row, frame[row].update(col, frame[row][col] != lit))
}

impl View for FrameBuffer {
    type V = Seq<Seq<bool>>;

    /// The pixels by row and column; `true` is lit.
    closed spec fn view(&self) -> Seq<Seq<bool>> {
        Seq::new(
            CHIP8_HEIGHT as nat,
            |r: int| Seq::new(CHIP8_WIDTH as nat, |c: int| self.cells@[r]@[c] == 1u8),
        )
    }
}

impl FrameBuffer {
    #[verifier::type_invariant]
    spec fn inv(&self) -> bool {
        forall|r: int, c: int|
            0 <= r < CHIP8_HEIGHT && 0 <= c < CHIP8_WIDTH ==> #[trigger] self.cells@[r]@[c] <= 1
    }

    /// The view of any frame buffer has the declared dimensions.
    pub proof fn lemma_dimensions(&self)
        ensures
            self@.len() == CHIP8_HEIGHT,
            forall|r: int| 0 <= r < CHIP8_HEIGHT ==> (#[trigger] self@[r]).len() == CHIP8_WIDTH,
    {
    }

    /// A screen with no pixel lit.
    pub fn new() -> (fb: Self)
        ensures
            fb@ == blank_frame(),
    {
        let cells: [[u8; 64]; 32] = [[0u8; 64]; 32];
        assert(forall|r: int, c: int|
            0 <= r < CHIP8_HEIGHT && 0 <= c < CHIP8_WIDTH ==> #[trigger] cells@[r]@[c] == 0);
        let fb = FrameBuffer { cells };
        assert(fb@ =~~= blank_frame());
        fb
    }

    /// Turns every pixel off.
    pub fn clear(&mut self)
        ensures
            final(self)@ == blank_frame(),
    {
        let cells: [[u8; 64]; 32] = [[0u8; 64]; 32];
        assert(forall|r: int, c: int|
            0 <= r < CHIP8_HEIGHT && 0 <= c < CHIP8_WIDTH ==> #[trigger] cells@[r]@[c] == 0);
        self.cells = cells;
        assert(self@ =~~= blank_frame());
    }

    /// The cells by row and column: 1 for a lit pixel, 0 for a dark one.
    pub fn cells(&self) -> (cells: &[[u8; CHIP8_WIDTH]; CHIP8_HEIGHT])
        ensures
            forall|r: int, c: int|
                0 <= r < CHIP8_HEIGHT && 0 <= c < CHIP8_WIDTH ==> #[trigger] cells@[r]@[c] == (
                if self@[r][c] {
                    1u8
                } else {
                    0u8
                }),
    {
        proof {
            use_type_invariant(self);
        }
        &self.cells
    }

    /// Xors the one-bit value `color` into the pixel at `(row, col)` and tells
    /// whether that turned a lit pixel off: the result is 1 if so, else 0.
    pub fn xor(&mut self, row: usize, col: usize, color: u8) -> (collision: u8)
        requires
            row < CHIP8_HEIGHT,
            col < CHIP8_WIDTH,
            color <= 1,
        ensures
            final(self)@ == xor_pixel(old(self)@, row as int, col as int, color == 1),
            collision == (if color == 1 && old(self)@[row as int][col as int] {
                1u8
            } else {
                0u8
            }),
    {
        proof {
            use_type_invariant(&*self);
        }
        let cell: u8 = self.cells[row][col];
        let collision: u8 = color & cell;
        let flipped: u8 = cell ^ color;
        assert({
            &&& flipped <= 1
            &&& (flipped == 1) == ((cell == 1) != (color == 1))
            &&& collision == (if color == 1 && cell == 1 {
                1u8
            } else {
                0u8
            })
        }) by (bit_vector)
            requires
                cell <= 1,
                color <= 1,
                collision == color & cell,
                flipped == cell ^ color,
        ;
        self.cells[row][col] = flipped;
        assert(self@ =~~= xor_pixel(old(self)@, row as int, col as int, color == 1));
        collision
    }
}

} // verus!
