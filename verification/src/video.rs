//! The monochrome framebuffer: a fixed 64x32 grid of single-bit pixels
//! stored as bytes, cleared as a whole and mutated only by XOR-blitting
//! sprite rows with horizontal and vertical wraparound.

use vstd::prelude::*;

use vstd::arithmetic::div_mod::lemma_fundamental_div_mod;
use vstd::arithmetic::div_mod::lemma_mod_bound;

use crate::mem::Memory;
use crate::mem::MEM_SIZE;

verus! {

/// Width of the pixel grid.
pub const SCREEN_WIDTH: usize = 64;

/// Height of the pixel grid.
pub const SCREEN_HEIGHT: usize = 32;

/// Number of pixels in the grid.
pub const PIXEL_COUNT: usize = 2048;

/// The pixel written by sprite bit (`row`, `col`) when the sprite is drawn
/// at (`x`, `y`): coordinates wrap modulo the screen width and height.
pub open spec fn sprite_target(x: u8, y: u8, row: int, col: int) -> int {
    (x + col) % (SCREEN_WIDTH as int) + ((y + row) % (SCREEN_HEIGHT as int)) * (
    SCREEN_WIDTH as int)
}

/// Whether bit `col` (most-significant first) of sprite row `row`, read from
/// memory at base address `i`, is set.
pub open spec fn sprite_bit(m: Seq<u8>, i: u16, row: int, col: int) -> bool {
    m[i + row] & (0x80u8 >> (col as u8)) != 0
}

/// Whether drawing an `n`-row sprite from address `i` at (`x`, `y`) writes
/// pixel `p`.
pub open spec fn sprite_hits(m: Seq<u8>, i: u16, n: u16, x: u8, y: u8, p: int) -> bool {
    exists|row: int, col: int|
        0 <= row < n && 0 <= col < 8 && #[trigger] sprite_bit(m, i, row, col)
            && sprite_target(x, y, row, col) == p
}

/// The pixel grid after XOR-blitting an `n`-row sprite from address `i` at
/// (`x`, `y`): every pixel the sprite writes is flipped, the rest are kept.
pub open spec fn blit(px: Seq<u8>, m: Seq<u8>, x: u8, y: u8, n: u16, i: u16) -> Seq<u8> {
    Seq::new(
        px.len(),
        |p: int|
            if sprite_hits(m, i, n, x, y, p) {
                px[p] ^ 1
            } else {
                px[p]
            },
    )
}

/// Whether the blit collides: some sprite bit writes a pixel that already
/// held 1 before the blit.
pub open spec fn blit_collides(px: Seq<u8>, m: Seq<u8>, x: u8, y: u8, n: u16, i: u16) -> bool {
    exists|row: int, col: int|
        0 <= row < n && 0 <= col < 8 && #[trigger] sprite_bit(m, i, row, col)
            && px[sprite_target(x, y, row, col)] == 1
}

/// Distinct bits of a sprite of at most `SCREEN_HEIGHT` rows land on
/// distinct pixels: within a row the eight columns stay distinct modulo the
/// width, and rows fewer than the height apart stay distinct modulo the
/// height.
pub proof fn lemma_sprite_target_injective(x: u8, y: u8, r1: int, c1: int, r2: int, c2: int)
    requires
        0 <= r1 < SCREEN_HEIGHT,
        0 <= r2 < SCREEN_HEIGHT,
        0 <= c1 < 8,
        0 <= c2 < 8,
        !(r1 == r2 && c1 == c2),
    ensures
        sprite_target(x, y, r1, c1) != sprite_target(x, y, r2, c2),
{
    let w = SCREEN_WIDTH as int;
    let h = SCREEN_HEIGHT as int;
    lemma_mod_bound(x + c1, w);
    lemma_mod_bound(x + c2, w);
    lemma_mod_bound(y + r1, h);
    lemma_mod_bound(y + r2, h);
    if sprite_target(x, y, r1, c1) == sprite_target(x, y, r2, c2) {
        // The column parts lie below the width, so equal targets force equal
        // row parts and equal column parts.
        assert((x + c1) % w == (x + c2) % w && (y + r1) % h == (y + r2) % h);
        lemma_fundamental_div_mod(x + c1, w);
        lemma_fundamental_div_mod(x + c2, w);
        lemma_fundamental_div_mod(y + r1, h);
        lemma_fundamental_div_mod(y + r2, h);
        // Equal remainders at distance below the divisor force equal values.
        assert(c1 == c2 && r1 == r2);
    }
}

pub struct Video {
    pixels: [u8; PIXEL_COUNT],
}

impl View for Video {
    type V = Seq<u8>;

    closed spec fn view(&self) -> Seq<u8> {
        self.pixels@
    }
}

impl Video {
    /// A blank pixel grid.
    pub fn new() -> (video: Video)
        ensures
            video@.len() == PIXEL_COUNT,
            forall|p: int| 0 <= p < PIXEL_COUNT ==> video@[p] == 0u8,
    {
        Video { pixels: [0; PIXEL_COUNT] }
    }

    /// Zeroes every pixel, whatever the grid held before.
    pub fn clear(&mut self)
        ensures
            final(self)@.len() == PIXEL_COUNT,
            forall|p: int| 0 <= p < PIXEL_COUNT ==> final(self)@[p] == 0u8,
    {
        let mut i: usize = 0;
        while i < PIXEL_COUNT
            invariant
                i <= PIXEL_COUNT,
                self@.len() == PIXEL_COUNT,
                forall|p: int| 0 <= p < i ==> self@[p] == 0u8,
            decreases PIXEL_COUNT - i,
        {
            self.pixels[i] = 0;
            i += 1;
        }
    }

    /// The pixel at column `x`, row `y`: 0 or 1.
    pub fn pixel(&self, x: usize, y: usize) -> (p: u8)
        requires
            x < SCREEN_WIDTH,
            y < SCREEN_HEIGHT,
        ensures
            p == self@[x + y * SCREEN_WIDTH],
    {
        self.pixels[x + y * SCREEN_WIDTH]
    }

    /// XOR-blits an `n`-row, 8-pixel-wide sprite read from memory at address
    /// `i` onto the grid at (`x`, `y`), wrapping both coordinates; reports
    /// whether any written pixel already held 1.
    pub fn draw_sprite(&mut self, x: u8, y: u8, n: u16, i: u16, mem: &Memory) -> (flipped: bool)
        requires
            n <= 15,
            i + n <= MEM_SIZE,
        ensures
            final(self)@ == blit(old(self)@, mem@, x, y, n, i),
            flipped == blit_collides(old(self)@, mem@, x, y, n, i),
    {
        let ghost px0 = self@;
        let ghost m = mem@;
        let mut flipped = false;
        let xus = x as usize;
        let yus = y as usize;

        let mut yline: u16 = 0;
        while yline < n
            invariant
                n <= 15,
                i + n <= MEM_SIZE,
                yline <= n,
                m == mem@,
                px0.len() == PIXEL_COUNT,
                self@.len() == PIXEL_COUNT,
                xus == x && yus == y,
                forall|p: int|
                    0 <= p < PIXEL_COUNT ==> self@[p] == (if sprite_hits(m, i, yline, x, y, p) {
                        px0[p] ^ 1
                    } else {
                        px0[p]
                    }),
                flipped == blit_collides(px0, m, x, y, yline, i),
            decreases n - yline,
        {
            let pixel = mem.get_byte(i + yline);
            proof {
                lemma_prefix_full_rows(m, i, x, y, yline);
            }
            let mut xline: usize = 0;
            while xline < 8
                invariant
                    n <= 15,
                    i + n <= MEM_SIZE,
                    yline < n,
                    xline <= 8,
                    m == mem@,
                    pixel == m[i + yline],
                    px0.len() == PIXEL_COUNT,
                    self@.len() == PIXEL_COUNT,
                    xus == x && yus == y,
                    forall|p: int|
                        0 <= p < PIXEL_COUNT ==> self@[p] == (
                        if hits_prefix(m, i, x, y, yline as int, xline as int, p) {
                            px0[p] ^ 1
                        } else {
                            px0[p]
                        }),
                    flipped == collides_prefix(px0, m, i, x, y, yline as int, xline as int),
                decreases 8 - xline,
            {
                if pixel & (0x80u8 >> (xline as u8)) != 0 {
                    let px = (xus + xline) % SCREEN_WIDTH;
                    let py = (yus + yline as usize) % SCREEN_HEIGHT;
                    let idx = px + py * SCREEN_WIDTH;
                    proof {
                        lemma_mod_bound(x + xline, SCREEN_WIDTH as int);
                        lemma_mod_bound(y + yline, SCREEN_HEIGHT as int);
                        assert(idx == sprite_target(x, y, yline as int, xline as int));
                        lemma_prefix_not_hit(m, i, x, y, yline as int, xline as int);
                    }
                    if self.pixels[idx] == 1 {
                        flipped = true
                    }
                    self.pixels[idx] = self.pixels[idx] ^ 1;
                    proof {
                        lemma_prefix_step(m, i, x, y, yline as int, xline as int);
                    }
                } else {
                    proof {
                        lemma_prefix_step(m, i, x, y, yline as int, xline as int);
                    }
                }
                xline += 1;
            }
            proof {
                lemma_prefix_row_done(m, i, x, y, yline as int);
                lemma_prefix_full_rows(m, i, x, y, (yline + 1) as u16);
            }
            yline += 1;
        }
        proof {
            assert(self@ =~= blit(px0, m, x, y, n, i));
        }
        flipped
    }
}

/// Whether some sprite bit strictly before (`row`, `col`) in blit order
/// writes pixel `p`.
pub open spec fn hits_prefix(m: Seq<u8>, i: u16, x: u8, y: u8, row: int, col: int, p: int) -> bool {
    exists|r: int, c: int|
        0 <= r && 0 <= c < 8 && (r < row || (r == row && c < col)) && #[trigger] sprite_bit(
            m,
            i,
            r,
            c,
        ) && sprite_target(x, y, r, c) == p
}

/// Whether some sprite bit strictly before (`row`, `col`) in blit order
/// writes a pixel that held 1 in `px`.
pub open spec fn collides_prefix(
    px: Seq<u8>,
    m: Seq<u8>,
    i: u16,
    x: u8,
    y: u8,
    row: int,
    col: int,
) -> bool {
    exists|r: int, c: int|
        0 <= r && 0 <= c < 8 && (r < row || (r == row && c < col)) && #[trigger] sprite_bit(
            m,
            i,
            r,
            c,
        ) && px[sprite_target(x, y, r, c)] == 1
}

/// A prefix standing at the start of row `n` covers exactly the bits of an
/// `n`-row sprite.
proof fn lemma_prefix_full_rows(m: Seq<u8>, i: u16, x: u8, y: u8, n: u16)
    ensures
        forall|p: int| hits_prefix(m, i, x, y, n as int, 0, p) == sprite_hits(m, i, n, x, y, p),
        forall|px: Seq<u8>| #![auto]
            collides_prefix(px, m, i, x, y, n as int, 0) == blit_collides(px, m, x, y, n, i),
{
    assert forall|p: int|
        hits_prefix(m, i, x, y, n as int, 0, p) == sprite_hits(m, i, n, x, y, p) by {
        if hits_prefix(m, i, x, y, n as int, 0, p) {
            let (r, c) = choose|r: int, c: int|
                0 <= r && 0 <= c < 8 && (r < n || (r == n && c < 0)) && #[trigger] sprite_bit(
                    m,
                    i,
                    r,
                    c,
                ) && sprite_target(x, y, r, c) == p;
            assert(0 <= r < n);
            assert(sprite_hits(m, i, n, x, y, p));
        }
        if sprite_hits(m, i, n, x, y, p) {
            let (r, c) = choose|r: int, c: int|
                0 <= r < n && 0 <= c < 8 && #[trigger] sprite_bit(m, i, r, c) && sprite_target(
                    x,
                    y,
                    r,
                    c,
                ) == p;
            assert(hits_prefix(m, i, x, y, n as int, 0, p));
        }
    }
    assert forall|px: Seq<u8>| #![auto]
        collides_prefix(px, m, i, x, y, n as int, 0) == blit_collides(px, m, x, y, n, i) by {
        if collides_prefix(px, m, i, x, y, n as int, 0) {
            let (r, c) = choose|r: int, c: int|
                0 <= r && 0 <= c < 8 && (r < n || (r == n && c < 0)) && #[trigger] sprite_bit(
                    m,
                    i,
                    r,
                    c,
                ) && px[sprite_target(x, y, r, c)] == 1;
            assert(0 <= r < n);
            assert(blit_collides(px, m, x, y, n, i));
        }
        if blit_collides(px, m, x, y, n, i) {
            let (r, c) = choose|r: int, c: int|
                0 <= r < n && 0 <= c < 8 && #[trigger] sprite_bit(m, i, r, c)
                    && px[sprite_target(x, y, r, c)] == 1;
            assert(collides_prefix(px, m, i, x, y, n as int, 0));
        }
    }
}

/// No bit before (`row`, `col`) writes the pixel that (`row`, `col`) itself
/// writes, rows staying below the screen height.
proof fn lemma_prefix_not_hit(m: Seq<u8>, i: u16, x: u8, y: u8, row: int, col: int)
    requires
        0 <= row < SCREEN_HEIGHT,
        0 <= col < 8,
    ensures
        !hits_prefix(m, i, x, y, row, col, sprite_target(x, y, row, col)),
{
    let p = sprite_target(x, y, row, col);
    if hits_prefix(m, i, x, y, row, col, p) {
        let (r, c) = choose|r: int, c: int|
            0 <= r && 0 <= c < 8 && (r < row || (r == row && c < col)) && #[trigger] sprite_bit(
                m,
                i,
                r,
                c,
            ) && sprite_target(x, y, r, c) == p;
        lemma_sprite_target_injective(x, y, r, c, row, col);
    }
}

/// Extending the prefix by one bit extends exactly by that bit's effect.
proof fn lemma_prefix_step(m: Seq<u8>, i: u16, x: u8, y: u8, row: int, col: int)
    requires
        0 <= row,
        0 <= col < 8,
    ensures
        forall|p: int|
            hits_prefix(m, i, x, y, row, col + 1, p) == (hits_prefix(m, i, x, y, row, col, p) || (
            sprite_bit(m, i, row, col) && sprite_target(x, y, row, col) == p)),
        forall|px: Seq<u8>| #![auto]
            collides_prefix(px, m, i, x, y, row, col + 1) == (collides_prefix(
                px,
                m,
                i,
                x,
                y,
                row,
                col,
            ) || (sprite_bit(m, i, row, col) && px[sprite_target(x, y, row, col)] == 1)),
{
    assert forall|p: int|
        hits_prefix(m, i, x, y, row, col + 1, p) == (hits_prefix(m, i, x, y, row, col, p) || (
        sprite_bit(m, i, row, col) && sprite_target(x, y, row, col) == p)) by {
        if hits_prefix(m, i, x, y, row, col, p) {
            assert(hits_prefix(m, i, x, y, row, col + 1, p));
        }
        if sprite_bit(m, i, row, col) && sprite_target(x, y, row, col) == p {
            assert(hits_prefix(m, i, x, y, row, col + 1, p));
        }
        if hits_prefix(m, i, x, y, row, col + 1, p) {
            let (r, c) = choose|r: int, c: int|
                0 <= r && 0 <= c < 8 && (r < row || (r == row && c < col + 1))
                    && #[trigger] sprite_bit(m, i, r, c) && sprite_target(x, y, r, c) == p;
            if r == row && c == col {
                assert(sprite_bit(m, i, row, col) && sprite_target(x, y, row, col) == p);
            } else {
                assert(hits_prefix(m, i, x, y, row, col, p));
            }
        }
    }
    assert forall|px: Seq<u8>| #![auto]
        collides_prefix(px, m, i, x, y, row, col + 1) == (collides_prefix(px, m, i, x, y, row, col)
            || (sprite_bit(m, i, row, col) && px[sprite_target(x, y, row, col)] == 1)) by {
        if collides_prefix(px, m, i, x, y, row, col) {
            assert(collides_prefix(px, m, i, x, y, row, col + 1));
        }
        if sprite_bit(m, i, row, col) && px[sprite_target(x, y, row, col)] == 1 {
            assert(collides_prefix(px, m, i, x, y, row, col + 1));
        }
        if collides_prefix(px, m, i, x, y, row, col + 1) {
            let (r, c) = choose|r: int, c: int|
                0 <= r && 0 <= c < 8 && (r < row || (r == row && c < col + 1))
                    && #[trigger] sprite_bit(m, i, r, c) && px[sprite_target(x, y, r, c)] == 1;
            if r == row && c == col {
                assert(sprite_bit(m, i, row, col) && px[sprite_target(x, y, row, col)] == 1);
            } else {
                assert(collides_prefix(px, m, i, x, y, row, col));
            }
        }
    }
}

/// A prefix that has finished a whole row is the prefix of the next row.
proof fn lemma_prefix_row_done(m: Seq<u8>, i: u16, x: u8, y: u8, row: int)
    requires
        0 <= row,
    ensures
        forall|p: int|
            hits_prefix(m, i, x, y, row, 8, p) == hits_prefix(m, i, x, y, row + 1, 0, p),
        forall|px: Seq<u8>| #![auto]
            collides_prefix(px, m, i, x, y, row, 8) == collides_prefix(px, m, i, x, y, row + 1, 0),
{
    assert forall|p: int|
        hits_prefix(m, i, x, y, row, 8, p) == hits_prefix(m, i, x, y, row + 1, 0, p) by {
        if hits_prefix(m, i, x, y, row, 8, p) {
            let (r, c) = choose|r: int, c: int|
                0 <= r && 0 <= c < 8 && (r < row || (r == row && c < 8)) && #[trigger] sprite_bit(
                    m,
                    i,
                    r,
                    c,
                ) && sprite_target(x, y, r, c) == p;
            assert(r < row + 1);
            assert(hits_prefix(m, i, x, y, row + 1, 0, p));
        }
        if hits_prefix(m, i, x, y, row + 1, 0, p) {
            let (r, c) = choose|r: int, c: int|
                0 <= r && 0 <= c < 8 && (r < row + 1 || (r == row + 1 && c < 0))
                    && #[trigger] sprite_bit(m, i, r, c) && sprite_target(x, y, r, c) == p;
            assert(r < row || (r == row && c < 8));
            assert(hits_prefix(m, i, x, y, row, 8, p));
        }
    }
    assert forall|px: Seq<u8>| #![auto]
        collides_prefix(px, m, i, x, y, row, 8) == collides_prefix(px, m, i, x, y, row + 1, 0) by {
        if collides_prefix(px, m, i, x, y, row, 8) {
            let (r, c) = choose|r: int, c: int|
                0 <= r && 0 <= c < 8 && (r < row || (r == row && c < 8)) && #[trigger] sprite_bit(
                    m,
                    i,
                    r,
                    c,
                ) && px[sprite_target(x, y, r, c)] == 1;
            assert(r < row + 1);
            assert(collides_prefix(px, m, i, x, y, row + 1, 0));
        }
        if collides_prefix(px, m, i, x, y, row + 1, 0) {
            let (r, c) = choose|r: int, c: int|
                0 <= r && 0 <= c < 8 && (r < row + 1 || (r == row + 1 && c < 0))
                    && #[trigger] sprite_bit(m, i, r, c) && px[sprite_target(x, y, r, c)] == 1;
            assert(r < row || (r == row && c < 8));
            assert(collides_prefix(px, m, i, x, y, row, 8));
        }
    }
}

} // verus!
