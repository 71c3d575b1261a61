//! Drawing a sprite onto the screen in XOR mode, pixel by pixel.
use vstd::prelude::*;
use crate::model::{
    collides, draw_gfx, hit, pixel_index, sprite_bit, sprite_fits, sprite_px, MEMORY_SIZE,
    SCREEN_SIZE,
};

verus! {

/// Whether the sprite pixel that lands on `p` (if any) comes before pixel
/// (`row`, `col`) in drawing order: rows top to bottom, columns left to right.
pub open spec fn drawn_before(x: int, y: int, p: int, row: int, col: int) -> bool {
    let d = p - x - 64 * y;
    d / 64 < row || (d / 64 == row && d % 64 < col)
}

/// The screen once every sprite pixel before (`row`, `col`) is drawn.
pub open spec fn drawn_upto(
    g0: Seq<u8>,
    mem: Seq<u8>,
    i: int,
    x: int,
    y: int,
    n: int,
    row: int,
    col: int,
) -> Seq<u8> {
    Seq::new(
        g0.len(),
        |p: int|
            if hit(mem, i, x, y, n, p) && drawn_before(x, y, p, row, col) {
                g0[p] ^ 1u8
            } else {
                g0[p]
            },
    )
}

/// Whether a pixel drawn before (`row`, `col`) turned off a pixel that was on.
pub open spec fn collides_upto(
    g0: Seq<u8>,
    mem: Seq<u8>,
    i: int,
    x: int,
    y: int,
    n: int,
    row: int,
    col: int,
) -> bool {
    exists|p: int|
        0 <= p < g0.len() && #[trigger] hit(mem, i, x, y, n, p) && drawn_before(x, y, p, row, col)
            && g0[p] == 1
}

/// The offset of a sprite pixel from the sprite's origin names it again.
pub proof fn lemma_offset(row: int, col: int)
    requires
        0 <= col < 8,
    ensures
        (col + 64 * row) / 64 == row,
        (col + 64 * row) % 64 == col,
{
    vstd::arithmetic::div_mod::lemma_fundamental_div_mod_converse(col + 64 * row, 64, row, col);
}

/// Drawing one more sprite pixel flips exactly the screen pixel under it,
/// and only if the sprite pixel is set.
proof fn lemma_draw_step(g0: Seq<u8>, mem: Seq<u8>, i: int, x: int, y: int, n: int, row: int, col: int)
    requires
        0 <= row < n,
        0 <= col < 8,
        sprite_px(mem, i, row, col) ==> 0 <= pixel_index(x, y, row, col) < g0.len(),
    ensures
        ({
            let idx = pixel_index(x, y, row, col);
            let cur = drawn_upto(g0, mem, i, x, y, n, row, col);
            let next = drawn_upto(g0, mem, i, x, y, n, row, col + 1);
            &&& sprite_px(mem, i, row, col) ==> cur[idx] == g0[idx] && next == cur.update(
                idx,
                g0[idx] ^ 1u8,
            )
            &&& !sprite_px(mem, i, row, col) ==> next == cur
            &&& collides_upto(g0, mem, i, x, y, n, row, col + 1) == (collides_upto(
                g0,
                mem,
                i,
                x,
                y,
                n,
                row,
                col,
            ) || (sprite_px(mem, i, row, col) && g0[idx] == 1))
        }),
{
    let idx = pixel_index(x, y, row, col);
    let cur = drawn_upto(g0, mem, i, x, y, n, row, col);
    let next = drawn_upto(g0, mem, i, x, y, n, row, col + 1);
    lemma_offset(row, col);
    assert(idx - x - 64 * y == col + 64 * row);
    // every other pixel is drawn before (row, col + 1) exactly when it is
    // drawn before (row, col)
    assert forall|p: int| p != idx implies drawn_before(x, y, p, row, col + 1) == drawn_before(
        x,
        y,
        p,
        row,
        col,
    ) by {
        let d = p - x - 64 * y;
        if d / 64 == row && d % 64 == col {
            vstd::arithmetic::div_mod::lemma_fundamental_div_mod(d, 64);
            assert(d == col + 64 * row);
        }
    }
    if sprite_px(mem, i, row, col) {
        if 0 <= col + 64 * row {
            assert(hit(mem, i, x, y, n, idx));
        }
        assert(next =~= cur.update(idx, g0[idx] ^ 1u8));
    } else {
        assert(!hit(mem, i, x, y, n, idx));
        assert(next =~= cur);
    }
    let c0 = collides_upto(g0, mem, i, x, y, n, row, col);
    let c1 = collides_upto(g0, mem, i, x, y, n, row, col + 1);
    if c1 {
        let q = choose|q: int|
            0 <= q < g0.len() && #[trigger] hit(mem, i, x, y, n, q) && drawn_before(
                x,
                y,
                q,
                row,
                col + 1,
            ) && g0[q] == 1;
        if q != idx {
            assert(drawn_before(x, y, q, row, col));
        }
    }
    if c0 {
        let q = choose|q: int|
            0 <= q < g0.len() && #[trigger] hit(mem, i, x, y, n, q) && drawn_before(
                x,
                y,
                q,
                row,
                col,
            ) && g0[q] == 1;
        assert(drawn_before(x, y, q, row, col + 1));
    }
    if sprite_px(mem, i, row, col) && g0[idx] == 1 {
        assert(hit(mem, i, x, y, n, idx));
        assert(drawn_before(x, y, idx, row, col + 1));
    }
}

/// After the last column of a row, drawing goes on with the next row.
proof fn lemma_next_row(g0: Seq<u8>, mem: Seq<u8>, i: int, x: int, y: int, n: int, row: int)
    ensures
        drawn_upto(g0, mem, i, x, y, n, row, 8) == drawn_upto(g0, mem, i, x, y, n, row + 1, 0),
        collides_upto(g0, mem, i, x, y, n, row, 8) == collides_upto(
            g0,
            mem,
            i,
            x,
            y,
            n,
            row + 1,
            0,
        ),
{
    assert forall|p: int| #[trigger] hit(mem, i, x, y, n, p) implies drawn_before(x, y, p, row, 8)
        == drawn_before(x, y, p, row + 1, 0) by {}
    assert(drawn_upto(g0, mem, i, x, y, n, row, 8) =~= drawn_upto(g0, mem, i, x, y, n, row + 1, 0));
}

/// Before anything is drawn the screen is unchanged and nothing collided;
/// once every row is drawn the screen and the collision are those of the
/// whole sprite.
proof fn lemma_draw_ends(g0: Seq<u8>, mem: Seq<u8>, i: int, x: int, y: int, n: int)
    requires
        n >= 0,
    ensures
        drawn_upto(g0, mem, i, x, y, n, 0, 0) == g0,
        !collides_upto(g0, mem, i, x, y, n, 0, 0),
        drawn_upto(g0, mem, i, x, y, n, n, 0) == draw_gfx(g0, mem, i, x, y, n),
        collides_upto(g0, mem, i, x, y, n, n, 0) == collides(g0, mem, i, x, y, n),
{
    assert(drawn_upto(g0, mem, i, x, y, n, 0, 0) =~= g0);
    assert(drawn_upto(g0, mem, i, x, y, n, n, 0) =~= draw_gfx(g0, mem, i, x, y, n));
    if collides(g0, mem, i, x, y, n) {
        let q = choose|q: int|
            0 <= q < g0.len() && #[trigger] hit(mem, i, x, y, n, q) && g0[q] == 1;
        assert(drawn_before(x, y, q, n, 0));
    }
    if collides_upto(g0, mem, i, x, y, n, n, 0) {
        let q = choose|q: int|
            0 <= q < g0.len() && #[trigger] hit(mem, i, x, y, n, q) && drawn_before(x, y, q, n, 0)
                && g0[q] == 1;
        assert(hit(mem, i, x, y, n, q));
    }
}

/// Draws the `height` rows high sprite stored at `i` at (`x`, `y`) in XOR
/// mode, and tells whether a pixel that was on went off.
pub fn draw_sprite(
    gfx: &mut [u8; 2048],
    memory: &[u8; 4096],
    i: u16,
    x: u8,
    y: u8,
    height: u16,
) -> (collision: bool)
    requires
        height < 16,
        sprite_fits(memory@, i as int, x as int, y as int, height as int),
    ensures
        final(gfx)@ == draw_gfx(old(gfx)@, memory@, i as int, x as int, y as int, height as int),
        collision == collides(old(gfx)@, memory@, i as int, x as int, y as int, height as int),
{
    let ghost g0 = gfx@;
    let ghost (gi, gx, gy, gn) = (i as int, x as int, y as int, height as int);
    let x16 = x as u16;
    let y16 = y as u16;
    let mut collision = false;
    let mut yline: u16 = 0;
    proof {
        lemma_draw_ends(g0, memory@, gi, gx, gy, gn);
    }
    while yline < height
        invariant
            height < 16,
            sprite_fits(memory@, gi, gx, gy, gn),
            g0.len() == SCREEN_SIZE,
            gi == i,
            gx == x,
            gy == y,
            gn == height,
            x16 == x,
            y16 == y,
            yline <= height,
            gfx@ == drawn_upto(g0, memory@, gi, gx, gy, gn, yline as int, 0),
            collision == collides_upto(g0, memory@, gi, gx, gy, gn, yline as int, 0),
        decreases height - yline,
    {
        assert(i + yline < MEMORY_SIZE);
        let row = memory[(i + yline) as usize];
        let mut xline: u16 = 0;
        while xline < 8
            invariant
                height < 16,
                sprite_fits(memory@, gi, gx, gy, gn),
                g0.len() == SCREEN_SIZE,
                gi == i,
                gx == x,
                gy == y,
                gn == height,
                x16 == x,
                y16 == y,
                yline < height,
                xline <= 8,
                row == memory@[gi + yline],
                gfx@ == drawn_upto(g0, memory@, gi, gx, gy, gn, yline as int, xline as int),
                collision == collides_upto(
                    g0,
                    memory@,
                    gi,
                    gx,
                    gy,
                    gn,
                    yline as int,
                    xline as int,
                ),
            decreases 8 - xline,
        {
            let ghost (r, c) = (yline as int, xline as int);
            proof {
                assert(sprite_px(memory@, gi, r, c) == sprite_bit(row, c));
                if sprite_px(memory@, gi, r, c) {
                    assert(pixel_index(gx, gy, r, c) < SCREEN_SIZE);
                }
                lemma_draw_step(g0, memory@, gi, gx, gy, gn, r, c);
            }
            if row & (0x80u8 >> (xline as u8)) != 0 {
                let idx = (x16 + xline + (y16 + yline) * 64) as usize;
                assert(idx == pixel_index(gx, gy, r, c));
                if gfx[idx] == 1 {
                    collision = true;
                }
                gfx[idx] = gfx[idx] ^ 1;
            }
            xline = xline + 1;
        }
        proof {
            lemma_next_row(g0, memory@, gi, gx, gy, gn, yline as int);
        }
        yline = yline + 1;
    }
    proof {
        lemma_draw_ends(g0, memory@, gi, gx, gy, gn);
    }
    collision
}

/// Whether the `height` rows high sprite stored at `i` can be drawn at
/// (`x`, `y`): see `sprite_fits`.
pub fn sprite_fits_exec(memory: &[u8; 4096], i: u16, x: u8, y: u8, height: u16) -> (ok: bool)
    requires
        height < 16,
    ensures
        ok == sprite_fits(memory@, i as int, x as int, y as int, height as int),
{
    if height > 0 && (i as usize) + (height as usize) > 4096 {
        return false;
    }
    let x16 = x as u16;
    let y16 = y as u16;
    let mut row: u16 = 0;
    while row < height
        invariant
            height < 16,
            height > 0 ==> i + height <= MEMORY_SIZE,
            x16 == x,
            y16 == y,
            row <= height,
            forall|r: int, c: int|
                0 <= r < row && 0 <= c < 8 && #[trigger] sprite_px(memory@, i as int, r, c)
                    ==> pixel_index(x as int, y as int, r, c) < SCREEN_SIZE,
        decreases height - row,
    {
        let byte = memory[(i + row) as usize];
        let mut col: u16 = 0;
        while col < 8
            invariant
                height < 16,
                height > 0 ==> i + height <= MEMORY_SIZE,
                x16 == x,
                y16 == y,
                row < height,
                col <= 8,
                byte == memory@[i + row],
                forall|r: int, c: int|
                    0 <= r < row && 0 <= c < 8 && #[trigger] sprite_px(memory@, i as int, r, c)
                        ==> pixel_index(x as int, y as int, r, c) < SCREEN_SIZE,
                forall|c: int|
                    0 <= c < col && #[trigger] sprite_px(memory@, i as int, row as int, c)
                        ==> pixel_index(x as int, y as int, row as int, c) < SCREEN_SIZE,
            decreases 8 - col,
        {
            assert(sprite_px(memory@, i as int, row as int, col as int) == sprite_bit(
                byte,
                col as int,
            ));
            if byte & (0x80u8 >> (col as u8)) != 0 {
                let idx = x16 + col + (y16 + row) * 64;
                assert(idx == pixel_index(x as int, y as int, row as int, col as int));
                if idx >= 2048 {
                    return false;
                }
            }
            col = col + 1;
        }
        row = row + 1;
    }
    true
}

} // verus!
