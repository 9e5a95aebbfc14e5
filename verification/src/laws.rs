//! Laws of the instruction set, stated against the transition function
//! `step` and the framebuffer blit, and proved once for all states.

use vstd::prelude::*;

use vstd::arithmetic::div_mod::lemma_mod_bound;

use crate::cpu::Instruction;
use crate::system::step;
use crate::system::sys_wf;
use crate::system::SystemView;
use crate::video::blit;
use crate::video::blit_collides;
use crate::video::sprite_bit;
use crate::video::sprite_hits;
use crate::video::sprite_target;
use crate::video::PIXEL_COUNT;
use crate::video::SCREEN_HEIGHT;
use crate::video::SCREEN_WIDTH;

verus! {

/// For every register x other than VF and all bytes a in VX and b in VY:
/// the copy and the three bitwise instructions leave exactly b, a|b, a&b
/// and a^b in VX, and leave VF unchanged.
pub proof fn lemma_copy_and_bitwise_keep_vf(
    s: SystemView,
    keys: Seq<bool>,
    x: u16,
    y: u16,
    a: u8,
    b: u8,
)
    requires
        sys_wf(s),
        x < 16,
        y < 16,
        x != 0xF,
        s.cpu.v[x as int] == a,
        s.cpu.v[y as int] == b,
    ensures
        step(s, keys, Instruction::VxSetVy(x, y)).cpu.v[x as int] == b,
        step(s, keys, Instruction::VxBitOrVy(x, y)).cpu.v[x as int] == (a | b),
        step(s, keys, Instruction::VxBitAndVy(x, y)).cpu.v[x as int] == (a & b),
        step(s, keys, Instruction::VxBitXOrVy(x, y)).cpu.v[x as int] == (a ^ b),
        step(s, keys, Instruction::VxSetVy(x, y)).cpu.v[15] == s.cpu.v[15],
        step(s, keys, Instruction::VxBitOrVy(x, y)).cpu.v[15] == s.cpu.v[15],
        step(s, keys, Instruction::VxBitAndVy(x, y)).cpu.v[15] == s.cpu.v[15],
        step(s, keys, Instruction::VxBitXOrVy(x, y)).cpu.v[15] == s.cpu.v[15],
{
}

/// For every register x other than VF: the carrying add leaves
/// (a + b) mod 256 in VX and sets VF to 1 exactly when a + b overflows a
/// byte.
pub proof fn lemma_add_sets_carry(s: SystemView, keys: Seq<bool>, x: u16, y: u16, a: u8, b: u8)
    requires
        sys_wf(s),
        x < 16,
        y < 16,
        x != 0xF,
        s.cpu.v[x as int] == a,
        s.cpu.v[y as int] == b,
    ensures
        step(s, keys, Instruction::VxBitAddVy(x, y)).cpu.v[x as int] == ((a + b) % 256) as u8,
        step(s, keys, Instruction::VxBitAddVy(x, y)).cpu.v[15] == (if a + b > 255 {
            1u8
        } else {
            0u8
        }),
{
}

/// For every register x other than VF: VX = VX - VY leaves (a - b) mod 256
/// in VX and sets VF to 0 exactly when b > a borrows.
pub proof fn lemma_sub_sets_borrow(s: SystemView, keys: Seq<bool>, x: u16, y: u16, a: u8, b: u8)
    requires
        sys_wf(s),
        x < 16,
        y < 16,
        x != 0xF,
        s.cpu.v[x as int] == a,
        s.cpu.v[y as int] == b,
    ensures
        step(s, keys, Instruction::VxSubVy(x, y)).cpu.v[x as int] == ((a - b) % 256) as u8,
        step(s, keys, Instruction::VxSubVy(x, y)).cpu.v[15] == (if b > a {
            0u8
        } else {
            1u8
        }),
{
}

/// For every register x other than VF: VX = VY - VX leaves (b - a) mod 256
/// in VX and sets VF to 0 exactly when a > b borrows.
pub proof fn lemma_rsub_sets_borrow(s: SystemView, keys: Seq<bool>, x: u16, y: u16, a: u8, b: u8)
    requires
        sys_wf(s),
        x < 16,
        y < 16,
        x != 0xF,
        s.cpu.v[x as int] == a,
        s.cpu.v[y as int] == b,
    ensures
        step(s, keys, Instruction::VxMinusVy(x, y)).cpu.v[x as int] == ((b - a) % 256) as u8,
        step(s, keys, Instruction::VxMinusVy(x, y)).cpu.v[15] == (if a > b {
            0u8
        } else {
            1u8
        }),
{
}

/// For every register x other than VF and every operand y: the right shift
/// leaves a >> 1 in VX and the shifted-out bit a & 1 in VF, and any two y
/// operands give the very same machine state: the y operand has no effect.
pub proof fn lemma_shift_right_ignores_vy(
    s: SystemView,
    keys: Seq<bool>,
    x: u16,
    y: u16,
    y2: u16,
    a: u8,
)
    requires
        sys_wf(s),
        x < 16,
        y < 16,
        y2 < 16,
        x != 0xF,
        s.cpu.v[x as int] == a,
    ensures
        step(s, keys, Instruction::VxBitShiftRVy(x, y)).cpu.v[x as int] == a >> 1,
        step(s, keys, Instruction::VxBitShiftRVy(x, y)).cpu.v[15] == a & 1,
        step(s, keys, Instruction::VxBitShiftRVy(x, y)) == step(
            s,
            keys,
            Instruction::VxBitShiftRVy(x, y2),
        ),
{
}

/// Blitting the same sprite twice at the same location restores the grid,
/// and the second blit reports a collision exactly when the first blit set
/// some pixel that was unset before it.
pub proof fn lemma_draw_twice_restores(px: Seq<u8>, m: Seq<u8>, x: u8, y: u8, n: u16, i: u16)
    requires
        px.len() == PIXEL_COUNT,
        forall|p: int| 0 <= p < px.len() ==> px[p] <= 1,
    ensures
        blit(blit(px, m, x, y, n, i), m, x, y, n, i) == px,
        blit_collides(blit(px, m, x, y, n, i), m, x, y, n, i) == (exists|p: int|
            0 <= p < px.len() && sprite_hits(m, i, n, x, y, p) && px[p] == 0),
{
    let b1 = blit(px, m, x, y, n, i);
    assert(forall|t: u8| #![auto] (t ^ 1) ^ 1 == t) by (bit_vector);
    assert(forall|t: u8| #![auto] t <= 1 ==> ((t ^ 1 == 1) <==> t == 0)) by (bit_vector);
    assert forall|p: int| 0 <= p < px.len() implies blit(b1, m, x, y, n, i)[p] == px[p] by {
        if sprite_hits(m, i, n, x, y, p) {
            assert(b1[p] == px[p] ^ 1);
            assert(blit(b1, m, x, y, n, i)[p] == (px[p] ^ 1) ^ 1);
        }
    }
    assert(blit(b1, m, x, y, n, i) =~= px);

    if blit_collides(b1, m, x, y, n, i) {
        let (row, col) = choose|row: int, col: int|
            0 <= row < n && 0 <= col < 8 && #[trigger] sprite_bit(m, i, row, col)
                && b1[sprite_target(x, y, row, col)] == 1;
        let p = sprite_target(x, y, row, col);
        lemma_mod_bound(x + col, SCREEN_WIDTH as int);
        lemma_mod_bound(y + row, SCREEN_HEIGHT as int);
        assert(0 <= p < PIXEL_COUNT);
        assert(sprite_hits(m, i, n, x, y, p));
        assert(b1[p] == px[p] ^ 1);
        assert(px[p] == 0);
        assert(exists|q: int| 0 <= q < px.len() && sprite_hits(m, i, n, x, y, q) && px[q] == 0);
    }
    if exists|q: int| 0 <= q < px.len() && sprite_hits(m, i, n, x, y, q) && px[q] == 0 {
        let q = choose|q: int| 0 <= q < px.len() && sprite_hits(m, i, n, x, y, q) && px[q] == 0;
        let (row, col) = choose|row: int, col: int|
            0 <= row < n && 0 <= col < 8 && #[trigger] sprite_bit(m, i, row, col)
                && sprite_target(x, y, row, col) == q;
        assert(b1[q] == px[q] ^ 1);
        assert(b1[q] == 1);
        assert(blit_collides(b1, m, x, y, n, i));
    }
}

} // verus!
