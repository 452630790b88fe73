//! Sprite drawing on the display of 64 columns by 32 rows, held row by row
//! in 2048 cells: what a draw does to each pixel, stated pixel by pixel, and
//! the loop that does it.

use vstd::prelude::*;

verus! {

/// Whether a sprite row has its bit for column `col` set; column 0 is the
/// most significant bit.
pub open spec fn sprite_bit(row_byte: u8, col: u8) -> bool {
    row_byte & (0x80u8 >> col) != 0
}

/// The display index that bit `col` of sprite row `row` lands on when the
/// sprite's origin is `(vx, vy)`: the linear index wraps at the end of the
/// display.
pub open spec fn target_pixel(vx: u8, vy: u8, row: int, col: int) -> int {
    (vx + col + (vy + row) * 64) % 2048
}

/// How far pixel `p` lies behind the sprite's origin, counted along the
/// display with wraparound.
pub open spec fn pixel_offset(vx: u8, vy: u8, p: int) -> int {
    (p - (vx + vy * 64)) % 2048
}

/// Whether drawing the sprite `rows` at `(vx, vy)` flips pixel `p`.
pub open spec fn toggles(rows: Seq<u8>, vx: u8, vy: u8, p: int) -> bool {
    let d = pixel_offset(vx, vy, p);
    d / 64 < rows.len() && d % 64 < 8 && sprite_bit(rows[d / 64], (d % 64) as u8)
}

/// The display after the sprite `rows` is drawn at `(vx, vy)`: each pixel
/// under a set bit is XORed with 1.
pub open spec fn drawn(gfx: Seq<u8>, rows: Seq<u8>, vx: u8, vy: u8) -> Seq<u8> {
    Seq::new(
        2048,
        |p: int|
            if toggles(rows, vx, vy, p) {
                gfx[p] ^ 1
            } else {
                gfx[p]
            },
    )
}

/// Whether the draw flips a pixel that was on.
pub open spec fn collides(gfx: Seq<u8>, rows: Seq<u8>, vx: u8, vy: u8) -> bool {
    exists|p: int| 0 <= p < 2048 && #[trigger] toggles(rows, vx, vy, p) && gfx[p] == 1
}

/// Whether the draw flips pixel `p` with one of the first `k` sprite bits,
/// counted row by row with 64 to a row.
pub open spec fn toggles_before(rows: Seq<u8>, vx: u8, vy: u8, p: int, k: int) -> bool {
    toggles(rows, vx, vy, p) && pixel_offset(vx, vy, p) < k
}

/// Whether one of the first `k` sprite bits flips a pixel that was on.
pub open spec fn collides_before(gfx: Seq<u8>, rows: Seq<u8>, vx: u8, vy: u8, k: int) -> bool {
    exists|p: int|
        0 <= p < 2048 && #[trigger] toggles_before(rows, vx, vy, p, k) && gfx[p] == 1
}

/// Bit `col` of row `row` lands on exactly one pixel of the display, and no
/// other pixel lies at that offset from the origin.
pub proof fn lemma_target_pixel(vx: u8, vy: u8, row: int, col: int)
    requires
        0 <= row < 32,
        0 <= col < 64,
    ensures
        0 <= target_pixel(vx, vy, row, col) < 2048,
        pixel_offset(vx, vy, target_pixel(vx, vy, row, col)) == row * 64 + col,
        forall|p: int|
            0 <= p < 2048 && #[trigger] pixel_offset(vx, vy, p) == row * 64 + col ==> p
                == target_pixel(vx, vy, row, col),
{
}

/// A sprite bit that would fall past the right edge lands in column
/// `(vx + col) mod 64`: the column wraps around.
pub proof fn lemma_target_column(vx: u8, vy: u8, row: int, col: int)
    requires
        0 <= row < 32,
        0 <= col < 64,
    ensures
        target_pixel(vx, vy, row, col) % 64 == (vx + col) % 64,
{
}

/// Draws the `n` sprite rows stored in `memory` from address `start` on at
/// `(vx, vy)`, most significant bit first, and reports whether a pixel that
/// was on has been turned off.
pub fn draw_sprite(
    gfx: &mut [u8; 2048],
    memory: &[u8; 4096],
    start: usize,
    n: usize,
    vx: u8,
    vy: u8,
) -> (hit: bool)
    requires
        n < 16,
        start + n <= 4096,
    ensures
        final(gfx)@ == drawn(old(gfx)@, memory@.subrange(start as int, start + n), vx, vy),
        hit == collides(old(gfx)@, memory@.subrange(start as int, start + n), vx, vy),
{
    let ghost rows = memory@.subrange(start as int, start + n);
    let ghost before = gfx@;
    let mut hit = false;
    let mut row: usize = 0;
    while row < n
        invariant
            row <= n < 16,
            start + n <= 4096,
            rows == memory@.subrange(start as int, start + n),
            before == old(gfx)@,
            forall|p: int|
                0 <= p < 2048 ==> gfx@[p] == if toggles_before(rows, vx, vy, p, row * 64) {
                    before[p] ^ 1
                } else {
                    before[p]
                },
            hit == collides_before(before, rows, vx, vy, row * 64),
        decreases n - row,
    {
        let row_byte = memory[start + row];
        let mut col: u8 = 0;
        while col < 8
            invariant
                row < n < 16,
                col <= 8,
                start + n <= 4096,
                rows == memory@.subrange(start as int, start + n),
                row_byte == rows[row as int],
                forall|p: int|
                    0 <= p < 2048 ==> gfx@[p] == if toggles_before(
                        rows,
                        vx,
                        vy,
                        p,
                        row * 64 + col,
                    ) {
                        before[p] ^ 1
                    } else {
                        before[p]
                    },
                hit == collides_before(before, rows, vx, vy, row * 64 + col),
            decreases 8 - col,
        {
            let index = ((vx as u16 + col as u16 + (vy as u16 + row as u16) * 64) % 2048) as usize;
            let bit = row_byte & (0x80u8 >> col) != 0;
            proof {
                let k = row * 64 + col;
                lemma_target_pixel(vx, vy, row as int, col as int);
                assert(index == target_pixel(vx, vy, row as int, col as int));
                assert(pixel_offset(vx, vy, index as int) == k);
                assert(toggles(rows, vx, vy, index as int) == bit);
                assert forall|p: int| 0 <= p < 2048 implies #[trigger] toggles_before(
                    rows,
                    vx,
                    vy,
                    p,
                    k + 1,
                ) == (toggles_before(rows, vx, vy, p, k) || (p == index && bit)) by {
                    if pixel_offset(vx, vy, p) == k {
                        assert(p == index);
                    }
                }
                if collides_before(before, rows, vx, vy, k) {
                    let p = choose|p: int|
                        0 <= p < 2048 && #[trigger] toggles_before(rows, vx, vy, p, k)
                            && before[p] == 1;
                    assert(toggles_before(rows, vx, vy, p, k + 1));
                }
                if bit && before[index as int] == 1 {
                    assert(toggles_before(rows, vx, vy, index as int, k + 1));
                }
                if collides_before(before, rows, vx, vy, k + 1) {
                    let p = choose|p: int|
                        0 <= p < 2048 && #[trigger] toggles_before(rows, vx, vy, p, k + 1)
                            && before[p] == 1;
                    if p != index {
                        assert(toggles_before(rows, vx, vy, p, k));
                    }
                }
                assert(collides_before(before, rows, vx, vy, k + 1) == (collides_before(
                    before,
                    rows,
                    vx,
                    vy,
                    k,
                ) || (bit && before[index as int] == 1)));
            }
            if bit {
                if gfx[index] == 1 {
                    hit = true;
                }
                gfx[index] ^= 1;
            }
            col += 1;
        }
        proof {
            let k = row * 64 + 8;
            let next = (row + 1) * 64;
            assert forall|p: int| 0 <= p < 2048 implies #[trigger] toggles_before(
                rows,
                vx,
                vy,
                p,
                next,
            ) == toggles_before(rows, vx, vy, p, k) by {}
            if collides_before(before, rows, vx, vy, k) {
                let p = choose|p: int|
                    0 <= p < 2048 && #[trigger] toggles_before(rows, vx, vy, p, k) && before[p]
                        == 1;
                assert(toggles_before(rows, vx, vy, p, next));
            }
            if collides_before(before, rows, vx, vy, next) {
                let p = choose|p: int|
                    0 <= p < 2048 && #[trigger] toggles_before(rows, vx, vy, p, next)
                        && before[p] == 1;
                assert(toggles_before(rows, vx, vy, p, k));
            }
        }
        row += 1;
    }
    proof {
        let k = n * 64;
        assert forall|p: int| 0 <= p < 2048 implies #[trigger] toggles_before(
            rows,
            vx,
            vy,
            p,
            k,
        ) == toggles(rows, vx, vy, p) by {}
        if collides_before(before, rows, vx, vy, k) {
            let p = choose|p: int|
                0 <= p < 2048 && #[trigger] toggles_before(rows, vx, vy, p, k) && before[p] == 1;
            assert(toggles(rows, vx, vy, p));
        }
        if collides(before, rows, vx, vy) {
            let p = choose|p: int|
                0 <= p < 2048 && #[trigger] toggles(rows, vx, vy, p) && before[p] == 1;
            assert(toggles_before(rows, vx, vy, p, k));
        }
        assert(gfx@ =~= drawn(before, rows, vx, vy));
    }
    hit
}

/// Drawing a sprite a second time at the same place undoes the first draw:
/// the display is what it was, so every pixel that the sprite touched on a
/// blank area is off again.
pub proof fn lemma_draw_twice_restores(gfx: Seq<u8>, rows: Seq<u8>, vx: u8, vy: u8)
    requires
        gfx.len() == 2048,
    ensures
        drawn(drawn(gfx, rows, vx, vy), rows, vx, vy) == gfx,
{
    let once = drawn(gfx, rows, vx, vy);
    let twice = drawn(once, rows, vx, vy);
    assert forall|p: int| 0 <= p < 2048 implies twice[p] == gfx[p] by {
        let b = gfx[p];
        assert((b ^ 1) ^ 1 == b) by (bit_vector);
    }
    assert(twice =~= gfx);
}

/// Where a set bit of the sprite lands on a pixel that is off, the first
/// draw reports no collision at that pixel and turns it on, and a second
/// draw at the same place collides.
pub proof fn lemma_draw_twice_collides(
    gfx: Seq<u8>,
    rows: Seq<u8>,
    vx: u8,
    vy: u8,
    row: int,
    col: int,
)
    requires
        gfx.len() == 2048,
        rows.len() < 16,
        0 <= row < rows.len(),
        0 <= col < 8,
        sprite_bit(rows[row], col as u8),
        gfx[target_pixel(vx, vy, row, col)] == 0,
    ensures
        drawn(gfx, rows, vx, vy)[target_pixel(vx, vy, row, col)] == 1,
        collides(drawn(gfx, rows, vx, vy), rows, vx, vy),
{
    let p = target_pixel(vx, vy, row, col);
    lemma_target_pixel(vx, vy, row, col);
    assert(toggles(rows, vx, vy, p));
    assert(0u8 ^ 1 == 1) by (bit_vector);
}

} // verus!
