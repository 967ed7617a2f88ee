//! The framebuffer and the drawing of sprites onto it.

use vstd::prelude::*;

verus! {

/// Width of the display in pixels.
pub const SCREEN_WIDTH: usize = 64;

/// Height of the display in pixels.
pub const SCREEN_HEIGHT: usize = 32;

/// Number of pixels of the display.
pub const SCREEN_BUFF_SIZE: usize = 2048;

/// Width of a sprite in pixels: one byte per row.
pub const SPRITE_WIDTH: usize = 8;

/// Largest number of rows of a sprite.
pub const SPRITE_BYTES_MAX: usize = 15;

/// Whether the pixel in column `col` of a sprite row is set. Column 0 is the
/// most significant bit of the row's byte.
pub open spec fn sprite_bit(row: u8, col: int) -> bool {
    (0x80u8 >> (col as u8)) & row != 0
}

/// The place in the framebuffer of the pixel in column `x` and row `y`,
/// each coordinate wrapping round its own edge of the screen.
pub open spec fn pixel_index(x: int, y: int) -> int {
    (y % (SCREEN_HEIGHT as int)) * SCREEN_WIDTH + x % (SCREEN_WIDTH as int)
}

/// The sprite column that lands on framebuffer place `p` when the sprite's
/// left edge is at column `x`.
pub open spec fn sprite_col(x: int, p: int) -> int {
    (p % (SCREEN_WIDTH as int) - x) % (SCREEN_WIDTH as int)
}

/// The sprite row that lands on framebuffer place `p` when the sprite's top
/// edge is at row `y`.
pub open spec fn sprite_row(y: int, p: int) -> int {
    (p / (SCREEN_WIDTH as int) - y) % (SCREEN_HEIGHT as int)
}

/// Whether the sprite `rows`, drawn with its top left corner at `(x, y)`,
/// has a set pixel on framebuffer place `p`.
pub open spec fn sprite_covers(rows: Seq<u8>, x: int, y: int, p: int) -> bool {
    &&& sprite_row(y, p) < rows.len()
    &&& sprite_col(x, p) < SPRITE_WIDTH
    &&& sprite_bit(rows[sprite_row(y, p)], sprite_col(x, p))
}

/// The framebuffer after the sprite has been drawn: every pixel under a set
/// sprite pixel is flipped, every other pixel stays.
pub open spec fn drawn(display: Seq<bool>, rows: Seq<u8>, x: int, y: int) -> Seq<bool> {
    Seq::new(display.len(), |p: int| display[p] != sprite_covers(rows, x, y, p))
}

/// Whether drawing the sprite turns off a pixel that was on.
pub open spec fn collides(display: Seq<bool>, rows: Seq<u8>, x: int, y: int) -> bool {
    exists|p: int| 0 <= p < display.len() && display[p] && sprite_covers(rows, x, y, p)
}

/// Whether the sprite pixel at (`row`, `col`) comes before the pixel at
/// (`r`, `c`) when the sprite is walked row by row.
spec fn walked(row: int, col: int, r: int, c: int) -> bool {
    row < r || (row == r && col < c)
}

/// Whether `p` is covered by a sprite pixel that comes before (`r`, `c`).
spec fn covered_before(rows: Seq<u8>, x: int, y: int, p: int, r: int, c: int) -> bool {
    sprite_covers(rows, x, y, p) && walked(sprite_row(y, p), sprite_col(x, p), r, c)
}

/// Whether a pixel that was on in `display` lies under a sprite pixel that
/// comes before (`r`, `c`).
spec fn hit_before(display: Seq<bool>, rows: Seq<u8>, x: int, y: int, r: int, c: int) -> bool {
    exists|p: int|
        0 <= p < display.len() && display[p] && #[trigger] covered_before(rows, x, y, p, r, c)
}

/// Draws `sprite` onto `display` with its top left corner at `(x, y)` and
/// says whether a pixel that was on has been turned off.
pub fn draw_sprite(
    display: &mut [bool; SCREEN_BUFF_SIZE],
    sprite: &Vec<u8>,
    x: u8,
    y: u8,
) -> (collide: bool)
    requires
        sprite@.len() <= SPRITE_BYTES_MAX,
    ensures
        final(display)@ == drawn(old(display)@, sprite@, x as int, y as int),
        collide == collides(old(display)@, sprite@, x as int, y as int),
{
    let ghost before = display@;
    let ghost rows = sprite@;
    let mut collide = false;
    let mut byte_row: usize = 0;
    while byte_row < sprite.len()
        invariant
            byte_row <= sprite@.len() <= SPRITE_BYTES_MAX,
            rows == sprite@,
            before.len() == SCREEN_BUFF_SIZE,
            forall|p: int|
                0 <= p < SCREEN_BUFF_SIZE ==> #[trigger] display@[p] == (before[p]
                    != covered_before(rows, x as int, y as int, p, byte_row as int, 0)),
            collide == hit_before(before, rows, x as int, y as int, byte_row as int, 0),
        decreases sprite@.len() - byte_row,
    {
        let row: u8 = sprite[byte_row];
        let mut bit_col: u8 = 0;
        while bit_col < 8
            invariant
                bit_col <= 8,
                byte_row < sprite@.len() <= SPRITE_BYTES_MAX,
                rows == sprite@,
                row == rows[byte_row as int],
                before.len() == SCREEN_BUFF_SIZE,
                forall|p: int|
                    0 <= p < SCREEN_BUFF_SIZE ==> #[trigger] display@[p] == (before[p]
                        != covered_before(
                        rows,
                        x as int,
                        y as int,
                        p,
                        byte_row as int,
                        bit_col as int,
                    )),
                collide == hit_before(
                    before,
                    rows,
                    x as int,
                    y as int,
                    byte_row as int,
                    bit_col as int,
                ),
            decreases 8 - bit_col,
        {
            let ghost was = collide;
            let ghost shown = display@;
            if ((0x80u8 >> bit_col) & row) != 0 {
                let pixel_x: usize = (x as usize + bit_col as usize) % SCREEN_WIDTH;
                let pixel_y: usize = (y as usize + byte_row) % SCREEN_HEIGHT;
                let display_buffer_index: usize = pixel_y * SCREEN_WIDTH + pixel_x;
                proof {
                    lemma_lands(x as int, y as int, bit_col as int, byte_row as int);
                }
                if display[display_buffer_index] {
                    collide = true;
                }
                display[display_buffer_index] = !display[display_buffer_index];
            }
            proof {
                lemma_walk_right(
                    before,
                    rows,
                    x as int,
                    y as int,
                    byte_row as int,
                    bit_col as int,
                );
                let q = pixel_index(x + bit_col, y + byte_row);
                assert(shown[q] == before[q]);
            }
            bit_col = bit_col + 1;
        }
        proof {
            lemma_walk_down(before, rows, x as int, y as int, byte_row as int);
        }
        byte_row = byte_row + 1;
    }
    proof {
        lemma_walk_done(before, rows, x as int, y as int);
        assert(display@ =~= drawn(before, rows, x as int, y as int));
    }
    collide
}

/// One step to the right in the walk over the sprite: the pixel at
/// (`r`, `c`) joins the ones walked, and nothing else changes.
proof fn lemma_walk_right(display: Seq<bool>, rows: Seq<u8>, x: int, y: int, r: int, c: int)
    requires
        display.len() == SCREEN_BUFF_SIZE,
        0 <= x <= u8::MAX,
        0 <= y <= u8::MAX,
        0 <= c < SPRITE_WIDTH,
        0 <= r < rows.len() <= SPRITE_BYTES_MAX,
    ensures
        forall|p: int|
            0 <= p < SCREEN_BUFF_SIZE ==> (#[trigger] covered_before(rows, x, y, p, r, c + 1)
                <==> covered_before(rows, x, y, p, r, c) || (p == pixel_index(x + c, y + r)
                && sprite_bit(rows[r], c))),
        !covered_before(rows, x, y, pixel_index(x + c, y + r), r, c),
        hit_before(display, rows, x, y, r, c + 1) <==> hit_before(display, rows, x, y, r, c) || (
        display[pixel_index(x + c, y + r)] && sprite_bit(rows[r], c)),
{
    let q = pixel_index(x + c, y + r);
    lemma_lands(x, y, c, r);
    assert forall|p: int| 0 <= p < SCREEN_BUFF_SIZE implies (#[trigger] covered_before(
        rows,
        x,
        y,
        p,
        r,
        c + 1,
    ) <==> covered_before(rows, x, y, p, r, c) || (p == q && sprite_bit(rows[r], c))) by {
        lemma_only_place(x, y, c, r, p);
    }
    if hit_before(display, rows, x, y, r, c) {
        let p = choose|p: int|
            0 <= p < display.len() && display[p] && #[trigger] covered_before(rows, x, y, p, r, c);
        assert(covered_before(rows, x, y, p, r, c + 1));
    }
    if display[q] && sprite_bit(rows[r], c) {
        assert(covered_before(rows, x, y, q, r, c + 1));
    }
    if hit_before(display, rows, x, y, r, c + 1) {
        let p = choose|p: int|
            0 <= p < display.len() && display[p] && #[trigger] covered_before(
                rows,
                x,
                y,
                p,
                r,
                c + 1,
            );
        if p != q {
            assert(covered_before(rows, x, y, p, r, c));
        }
    }
}

/// The end of one sprite row is the start of the next.
proof fn lemma_walk_down(display: Seq<bool>, rows: Seq<u8>, x: int, y: int, r: int)
    requires
        display.len() == SCREEN_BUFF_SIZE,
    ensures
        forall|p: int|
            0 <= p < SCREEN_BUFF_SIZE ==> (#[trigger] covered_before(rows, x, y, p, r + 1, 0)
                <==> covered_before(rows, x, y, p, r, SPRITE_WIDTH as int)),
        hit_before(display, rows, x, y, r + 1, 0) <==> hit_before(
            display,
            rows,
            x,
            y,
            r,
            SPRITE_WIDTH as int,
        ),
{
    assert forall|p: int| 0 <= p < SCREEN_BUFF_SIZE implies (#[trigger] covered_before(
        rows,
        x,
        y,
        p,
        r + 1,
        0,
    ) <==> covered_before(rows, x, y, p, r, SPRITE_WIDTH as int)) by {
        lemma_place_bounds(x, y, p);
    }
    if hit_before(display, rows, x, y, r + 1, 0) {
        let p = choose|p: int|
            0 <= p < display.len() && display[p] && #[trigger] covered_before(
                rows,
                x,
                y,
                p,
                r + 1,
                0,
            );
        assert(covered_before(rows, x, y, p, r, SPRITE_WIDTH as int));
    }
    if hit_before(display, rows, x, y, r, SPRITE_WIDTH as int) {
        let p = choose|p: int|
            0 <= p < display.len() && display[p] && #[trigger] covered_before(
                rows,
                x,
                y,
                p,
                r,
                SPRITE_WIDTH as int,
            );
        assert(covered_before(rows, x, y, p, r + 1, 0));
    }
}

/// When the walk is over, the pixels walked are the sprite's pixels.
proof fn lemma_walk_done(display: Seq<bool>, rows: Seq<u8>, x: int, y: int)
    requires
        display.len() == SCREEN_BUFF_SIZE,
    ensures
        forall|p: int|
            0 <= p < SCREEN_BUFF_SIZE ==> (#[trigger] covered_before(
                rows,
                x,
                y,
                p,
                rows.len() as int,
                0,
            ) <==> sprite_covers(rows, x, y, p)),
        hit_before(display, rows, x, y, rows.len() as int, 0) <==> collides(display, rows, x, y),
{
    let n = rows.len() as int;
    assert forall|p: int| 0 <= p < SCREEN_BUFF_SIZE implies (#[trigger] covered_before(
        rows,
        x,
        y,
        p,
        n,
        0,
    ) <==> sprite_covers(rows, x, y, p)) by {
        lemma_place_bounds(x, y, p);
    }
    if hit_before(display, rows, x, y, n, 0) {
        let p = choose|p: int|
            0 <= p < display.len() && display[p] && #[trigger] covered_before(rows, x, y, p, n, 0);
        assert(sprite_covers(rows, x, y, p));
    }
    if collides(display, rows, x, y) {
        let p = choose|p: int| 0 <= p < display.len() && display[p] && sprite_covers(rows, x, y, p);
        assert(covered_before(rows, x, y, p, n, 0));
    }
}

/// A column of the screen lies under sprite column `c` exactly if it is `c`
/// columns to the right of the sprite's left edge, wrapped.
proof fn lemma_col(x: int, c: int, px: int)
    requires
        0 <= x <= u8::MAX,
        0 <= c < SPRITE_WIDTH,
        0 <= px < SCREEN_WIDTH,
    ensures
        (px - x) % 64 == c <==> px == (x + c) % 64,
{
    let k = (px - x) / 64;
    let j = (x + c) / 64;
    assert(-4 <= k <= 0);
    assert(0 <= j <= 4);
}

/// A row of the screen lies under sprite row `r` exactly if it is `r` rows
/// below the sprite's top edge, wrapped.
proof fn lemma_row(y: int, r: int, py: int)
    requires
        0 <= y <= u8::MAX,
        0 <= r < SCREEN_HEIGHT,
        0 <= py < SCREEN_HEIGHT,
    ensures
        (py - y) % 32 == r <==> py == (y + r) % 32,
{
    let k = (py - y) / 32;
    let j = (y + r) / 32;
    assert(-8 <= k <= 0);
    assert(0 <= j <= 8);
}

/// The sprite pixel at (`r`, `c`) lands on a place of the framebuffer, and
/// from that place the pixel is found again.
pub(crate) proof fn lemma_lands(x: int, y: int, c: int, r: int)
    requires
        0 <= x <= u8::MAX,
        0 <= y <= u8::MAX,
        0 <= c < SPRITE_WIDTH,
        0 <= r < SCREEN_HEIGHT,
    ensures
        0 <= pixel_index(x + c, y + r) < SCREEN_BUFF_SIZE,
        pixel_index(x + c, y + r) == ((y + r) % 32) * 64 + (x + c) % 64,
        sprite_col(x, pixel_index(x + c, y + r)) == c,
        sprite_row(y, pixel_index(x + c, y + r)) == r,
{
    let px = (x + c) % 64;
    let py = (y + r) % 32;
    let q = py * 64 + px;
    assert(q % 64 == px && q / 64 == py);
    lemma_col(x, c, px);
    lemma_row(y, r, py);
}

/// Every place of the framebuffer has a sprite row and a sprite column.
proof fn lemma_place_bounds(x: int, y: int, p: int)
    requires
        0 <= p < SCREEN_BUFF_SIZE,
    ensures
        0 <= sprite_col(x, p) < SCREEN_WIDTH,
        0 <= sprite_row(y, p) < SCREEN_HEIGHT,
{
}

/// Only one place of the framebuffer lies under the sprite pixel at
/// (`r`, `c`).
pub(crate) proof fn lemma_only_place(x: int, y: int, c: int, r: int, p: int)
    requires
        0 <= x <= u8::MAX,
        0 <= y <= u8::MAX,
        0 <= c < SPRITE_WIDTH,
        0 <= r < SCREEN_HEIGHT,
        0 <= p < SCREEN_BUFF_SIZE,
    ensures
        (sprite_col(x, p) == c && sprite_row(y, p) == r) <==> p == pixel_index(x + c, y + r),
{
    let px = p % 64;
    let py = p / 64;
    assert(p == py * 64 + px);
    lemma_col(x, c, px);
    lemma_row(y, r, py);
    let qx = (x + c) % 64;
    let qy = (y + r) % 32;
    let q = qy * 64 + qx;
    assert(q % 64 == qx && q / 64 == qy);
    assert(pixel_index(x + c, y + r) == q);
}

} // verus!
