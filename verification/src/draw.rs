//! Why the loop of the draw instruction gives the frame buffer and the flag
//! that `CpuState::draw` describes.

use vstd::prelude::*;
use crate::frame::xor_pixel;
use crate::state::{sprite_bit, CpuState, CHIP8_HEIGHT, CHIP8_WIDTH, FLAG_REGISTER, MEMORY_SIZE};

verus! {

/// Whether the sprite pixel that a draw puts at `(r, c)` is set and comes
/// before row `rows`, column `cols` in drawing order.
pub(crate) closed spec fn drawn_before(
    s: CpuState,
    x: u8,
    y: u8,
    n: u8,
    rows: int,
    cols: int,
    r: int,
    c: int,
) -> bool {
    let row = (r - s.draw_origin(y)) % (CHIP8_HEIGHT as int);
    let col = (c - s.draw_origin(x)) % (CHIP8_WIDTH as int);
    (row < rows || (row == rows && col < cols)) && s.sprite_covers(x, y, n, r, c)
}

/// Whether a set sprite pixel that comes before row `rows`, column `cols` in
/// drawing order lands on a pixel that was lit.
pub(crate) closed spec fn hit_before(
    s: CpuState,
    x: u8,
    y: u8,
    n: u8,
    rows: int,
    cols: int,
) -> bool {
    exists|r: int, c: int|
        0 <= r < CHIP8_HEIGHT && 0 <= c < CHIP8_WIDTH && #[trigger] drawn_before(
            s,
            x,
            y,
            n,
            rows,
            cols,
            r,
            c,
        ) && s.frame[r][c]
}

/// Before the first sprite pixel nothing is drawn and nothing is hit.
pub(crate) proof fn lemma_draw_start(s: CpuState, x: u8, y: u8, n: u8)
    requires
        s.wf(),
    ensures
        forall|r: int, c: int|
            0 <= r < CHIP8_HEIGHT && 0 <= c < CHIP8_WIDTH ==> s.frame[r][c] == (s.frame[r][c]
                != drawn_before(s, x, y, n, 0, 0, r, c)),
        !hit_before(s, x, y, n, 0, 0),
{
}

/// Among the screen's rows, `r` lies `offset` below `origin` exactly when it
/// is the row that `origin + offset` wraps to.
proof fn lemma_wrapped_row(origin: int, offset: int, r: int)
    requires
        0 <= origin < 256,
        0 <= offset < 32,
        0 <= r < 32,
    ensures
        ((r - origin) % 32 == offset) <==> (r == (origin + offset) % 32),
{
}

/// Among the screen's columns, `c` lies `offset` right of `origin` exactly
/// when it is the column that `origin + offset` wraps to.
proof fn lemma_wrapped_column(origin: int, offset: int, c: int)
    requires
        0 <= origin < 256,
        0 <= offset < 64,
        0 <= c < 64,
    ensures
        ((c - origin) % 64 == offset) <==> (c == (origin + offset) % 64),
{
}

/// One pixel of a draw: xoring sprite pixel `(row, col)` into the frame
/// buffer and or-ing the collision into the flag moves the drawing order on
/// by one pixel.
pub(crate) proof fn lemma_draw_step(
    s: CpuState,
    x: u8,
    y: u8,
    n: u8,
    row: int,
    col: int,
    frame: Seq<Seq<bool>>,
    next: Seq<Seq<bool>>,
    flag: u8,
    next_flag: u8,
)
    requires
        s.wf(),
        0 <= row < n < 16,
        0 <= col < 8,
        s.index + n <= MEMORY_SIZE,
        frame.len() == CHIP8_HEIGHT,
        forall|r: int| 0 <= r < CHIP8_HEIGHT ==> (#[trigger] frame[r]).len() == CHIP8_WIDTH,
        forall|r: int, c: int|
            0 <= r < CHIP8_HEIGHT && 0 <= c < CHIP8_WIDTH ==> frame[r][c] == (s.frame[r][c]
                != drawn_before(s, x, y, n, row, col, r, c)),
        flag == 1 <==> hit_before(s, x, y, n, row, col),
        ({
            let py = (s.draw_origin(y) + row) % (CHIP8_HEIGHT as int);
            let px = (s.draw_origin(x) + col) % (CHIP8_WIDTH as int);
            let lit = sprite_bit(s.ram[s.index + row], col as u8);
            &&& next == xor_pixel(frame, py, px, lit)
            &&& next_flag == 1 <==> flag == 1 || (lit && frame[py][px])
        }),
    ensures
        forall|r: int, c: int|
            0 <= r < CHIP8_HEIGHT && 0 <= c < CHIP8_WIDTH ==> next[r][c] == (s.frame[r][c]
                != drawn_before(s, x, y, n, row, col + 1, r, c)),
        next_flag == 1 <==> hit_before(s, x, y, n, row, col + 1),
{
    let py = (s.draw_origin(y) + row) % (CHIP8_HEIGHT as int);
    let px = (s.draw_origin(x) + col) % (CHIP8_WIDTH as int);
    let lit = sprite_bit(s.ram[s.index + row], col as u8);
    assert forall|r: int, c: int|
        #![trigger drawn_before(s, x, y, n, row, col + 1, r, c)]
        0 <= r < CHIP8_HEIGHT && 0 <= c < CHIP8_WIDTH implies {
        &&& drawn_before(s, x, y, n, row, col + 1, r, c) == (if r == py && c == px {
            lit
        } else {
            drawn_before(s, x, y, n, row, col, r, c)
        })
        &&& r == py && c == px ==> !drawn_before(s, x, y, n, row, col, r, c)
    } by {
        lemma_wrapped_row(s.draw_origin(y), row, r);
        lemma_wrapped_column(s.draw_origin(x), col, c);
    }
    assert(drawn_before(s, x, y, n, row, col + 1, py, px) == lit);
    if hit_before(s, x, y, n, row, col) {
        let (r, c) = choose|r: int, c: int|
            0 <= r < CHIP8_HEIGHT && 0 <= c < CHIP8_WIDTH && #[trigger] drawn_before(
                s,
                x,
                y,
                n,
                row,
                col,
                r,
                c,
            ) && s.frame[r][c];
        assert(drawn_before(s, x, y, n, row, col + 1, r, c));
    }
    if hit_before(s, x, y, n, row, col + 1) {
        let (r, c) = choose|r: int, c: int|
            0 <= r < CHIP8_HEIGHT && 0 <= c < CHIP8_WIDTH && #[trigger] drawn_before(
                s,
                x,
                y,
                n,
                row,
                col + 1,
                r,
                c,
            ) && s.frame[r][c];
        if !(r == py && c == px) {
            assert(drawn_before(s, x, y, n, row, col, r, c));
        }
    }
}

/// The end of a sprite row is the start of the next one.
pub(crate) proof fn lemma_draw_next_row(
    s: CpuState,
    x: u8,
    y: u8,
    n: u8,
    row: int,
    frame: Seq<Seq<bool>>,
    flag: u8,
)
    requires
        forall|r: int, c: int|
            0 <= r < CHIP8_HEIGHT && 0 <= c < CHIP8_WIDTH ==> frame[r][c] == (s.frame[r][c]
                != drawn_before(s, x, y, n, row, 8, r, c)),
        flag == 1 <==> hit_before(s, x, y, n, row, 8),
    ensures
        forall|r: int, c: int|
            0 <= r < CHIP8_HEIGHT && 0 <= c < CHIP8_WIDTH ==> frame[r][c] == (s.frame[r][c]
                != drawn_before(s, x, y, n, row + 1, 0, r, c)),
        flag == 1 <==> hit_before(s, x, y, n, row + 1, 0),
{
    assert forall|r: int, c: int| 0 <= r < CHIP8_HEIGHT && 0 <= c < CHIP8_WIDTH implies frame[r][c]
        == (s.frame[r][c] != drawn_before(s, x, y, n, row + 1, 0, r, c)) by {
        assert(drawn_before(s, x, y, n, row, 8, r, c) == drawn_before(
            s,
            x,
            y,
            n,
            row + 1,
            0,
            r,
            c,
        ));
    }
    if hit_before(s, x, y, n, row, 8) {
        let (r, c) = choose|r: int, c: int|
            0 <= r < CHIP8_HEIGHT && 0 <= c < CHIP8_WIDTH && #[trigger] drawn_before(
                s,
                x,
                y,
                n,
                row,
                8,
                r,
                c,
            ) && s.frame[r][c];
        assert(drawn_before(s, x, y, n, row + 1, 0, r, c));
    }
    if hit_before(s, x, y, n, row + 1, 0) {
        let (r, c) = choose|r: int, c: int|
            0 <= r < CHIP8_HEIGHT && 0 <= c < CHIP8_WIDTH && #[trigger] drawn_before(
                s,
                x,
                y,
                n,
                row + 1,
                0,
                r,
                c,
            ) && s.frame[r][c];
        assert(drawn_before(s, x, y, n, row, 8, r, c));
    }
}

/// After the last row the frame buffer and the flag are those of the whole draw.
pub(crate) proof fn lemma_draw_done(
    s: CpuState,
    x: u8,
    y: u8,
    n: u8,
    frame: Seq<Seq<bool>>,
    flag: u8,
)
    requires
        frame.len() == CHIP8_HEIGHT,
        forall|r: int| 0 <= r < CHIP8_HEIGHT ==> (#[trigger] frame[r]).len() == CHIP8_WIDTH,
        flag <= 1,
        forall|r: int, c: int|
            0 <= r < CHIP8_HEIGHT && 0 <= c < CHIP8_WIDTH ==> frame[r][c] == (s.frame[r][c]
                != drawn_before(s, x, y, n, n as int, 0, r, c)),
        flag == 1 <==> hit_before(s, x, y, n, n as int, 0),
    ensures
        frame == s.draw(x, y, n).frame,
        s.v.update(FLAG_REGISTER as int, flag) == s.draw(x, y, n).v,
{
    assert forall|r: int, c: int|
        drawn_before(s, x, y, n, n as int, 0, r, c) == s.sprite_covers(x, y, n, r, c) by {}
    assert(frame =~~= s.draw(x, y, n).frame);
    if hit_before(s, x, y, n, n as int, 0) {
        let (r, c) = choose|r: int, c: int|
            0 <= r < CHIP8_HEIGHT && 0 <= c < CHIP8_WIDTH && #[trigger] drawn_before(
                s,
                x,
                y,
                n,
                n as int,
                0,
                r,
                c,
            ) && s.frame[r][c];
        assert(s.sprite_covers(x, y, n, r, c));
    }
    if s.draw_collides(x, y, n) {
        let (r, c) = choose|r: int, c: int|
            0 <= r < CHIP8_HEIGHT && 0 <= c < CHIP8_WIDTH && s.sprite_covers(x, y, n, r, c)
                && s.frame[r][c];
        assert(drawn_before(s, x, y, n, n as int, 0, r, c));
    }
}

} // verus!
