//! Proof support for the draw instruction: a partially-drawn display
//! predicate that the drawing loops maintain, and the wraparound arithmetic
//! facts they rest on.

use vstd::prelude::*;
use vstd::arithmetic::div_mod::{
    lemma_fundamental_div_mod, lemma_fundamental_div_mod_converse, lemma_mod_multiples_vanish,
    lemma_small_mod,
};
use vstd::arithmetic::mul::lemma_mul_unary_negation;
use crate::machine::{CpuView, sprite_bit, sprite_pixel, draw_collision, DISPLAY_CELLS};

verus! {

/// The sprite bit XORed into cell `(cx, cy)` once the rows below `r`, and the
/// bits below `j` of row `r`, have been drawn; `0` where the cell is still
/// untouched. With `r` the row count and `j == 0` this is the whole draw.
pub open spec fn partial_pixel(v: CpuView, x: int, y: int, r: int, j: int, cx: int, cy: int) -> u8 {
    let row = (cy - v.v_reg[y]) % 32;
    let bit = (cx - v.v_reg[x]) % 64;
    if (row < r && bit < 8) || (row == r && bit < j) {
        sprite_bit(v.ram[v.i_reg + row], bit)
    } else {
        0
    }
}

/// Whether the draw has erased a lit cell after the same prefix of its work.
pub open spec fn partial_collision(v: CpuView, x: int, y: int, r: int, j: int) -> bool {
    exists|k: int| 0 <= k < DISPLAY_CELLS
        && partial_pixel(v, x, y, r, j, k / 32, k % 32) == 1
        && (#[trigger] v.vram[k]) == 1
}

/// Taking the offset of a wrapped coordinate recovers the offset.
pub proof fn lemma_wrap_offset(base: int, off: int, m: int)
    requires
        0 < m,
        0 <= off < m,
    ensures
        ((base + off) % m - base) % m == off,
{
    let s = base + off;
    let q = s / m;
    lemma_fundamental_div_mod(s, m);
    lemma_mul_unary_negation(m, q);
    assert(s % m - base == m * (-q) + off);
    lemma_mod_multiples_vanish(-q, off, m);
    lemma_small_mod(off as nat, m as nat);
}

/// A coordinate in range is recovered from its own wrapped offset.
pub proof fn lemma_wrap_unique(base: int, c: int, m: int)
    requires
        0 < m,
        0 <= c < m,
    ensures
        (base + ((c - base) % m)) % m == c,
{
    let d = (c - base) % m;
    let q = (c - base) / m;
    lemma_fundamental_div_mod(c - base, m);
    lemma_mul_unary_negation(m, q);
    assert(base + d == m * (-q) + c);
    lemma_mod_multiples_vanish(-q, c, m);
    lemma_small_mod(c as nat, m as nat);
}

/// A masked shifted byte is a single bit.
pub proof fn lemma_shift_mask_is_bit(b: u8, s: u8)
    ensures
        (b >> s) & 1 == 0 || (b >> s) & 1 == 1,
{
    assert((b >> s) & 1 == 0 || (b >> s) & 1 == 1) by (bit_vector);
}

/// XOR with zero changes nothing.
pub proof fn lemma_xor_zero(a: u8)
    ensures
        a ^ 0 == a,
{
    assert(a ^ 0 == a) by (bit_vector);
}

/// XOR of two single bits: a single bit, lit exactly when they differ, and
/// cancelled by a second XOR of the same bit.
pub proof fn lemma_xor_bits(a: u8, b: u8)
    requires
        a == 0 || a == 1,
        b == 0 || b == 1,
    ensures
        (a ^ b) == 0 || (a ^ b) == 1,
        (a ^ b) == 1 <==> a != b,
        (a ^ b) ^ b == a,
{
    assert(((a ^ b) == 0 || (a ^ b) == 1) && ((a ^ b) == 1 <==> a != b) && ((a ^ b) ^ b == a))
        by (bit_vector)
        requires
            a == 0 || a == 1,
            b == 0 || b == 1,
    ;
}

/// Every partially drawn pixel is a single bit.
pub proof fn lemma_partial_pixel_bit(v: CpuView, x: int, y: int, r: int, j: int, cx: int, cy: int)
    ensures
        partial_pixel(v, x, y, r, j, cx, cy) == 0 || partial_pixel(v, x, y, r, j, cx, cy) == 1,
{
    let row = (cy - v.v_reg[y]) % 32;
    let bit = (cx - v.v_reg[x]) % 64;
    if (row < r && bit < 8) || (row == r && bit < j) {
        lemma_shift_mask_is_bit(v.ram[v.i_reg + row], (7 - bit) as u8);
    }
}

/// Every sprite pixel is a single bit.
pub proof fn lemma_sprite_pixel_bit(v: CpuView, x: int, y: int, n: int, cx: int, cy: int)
    ensures
        sprite_pixel(v, x, y, n, cx, cy) == 0 || sprite_pixel(v, x, y, n, cx, cy) == 1,
{
    let row = (cy - v.v_reg[y]) % 32;
    let bit = (cx - v.v_reg[x]) % 64;
    if row < n && bit < 8 {
        lemma_shift_mask_is_bit(v.ram[v.i_reg + row], (7 - bit) as u8);
    }
}

/// One drawing step: the cell the step lands on is still untouched before it
/// and carries exactly its sprite bit after it, and no other cell changes
/// its partially-drawn pixel.
pub proof fn lemma_draw_step(pre: CpuView, x: int, y: int, r: int, j: int)
    requires
        0 <= x < 16,
        0 <= y < 16,
        0 <= r < 16,
        0 <= j < 8,
    ensures
        ({
            let vx = pre.v_reg[x] as int;
            let vy = pre.v_reg[y] as int;
            let cx0 = (vx + j) % 64;
            let cy0 = (vy + r) % 32;
            &&& partial_pixel(pre, x, y, r, j, cx0, cy0) == 0
            &&& partial_pixel(pre, x, y, r, j + 1, cx0, cy0)
                == sprite_bit(pre.ram[pre.i_reg + r], j)
            &&& forall|cx: int, cy: int|
                0 <= cx < 64 && 0 <= cy < 32 && !(cx == cx0 && cy == cy0)
                    ==> partial_pixel(pre, x, y, r, j + 1, cx, cy)
                        == #[trigger] partial_pixel(pre, x, y, r, j, cx, cy)
        }),
{
    let vx = pre.v_reg[x] as int;
    let vy = pre.v_reg[y] as int;
    let cx0 = (vx + j) % 64;
    let cy0 = (vy + r) % 32;
    lemma_wrap_offset(vy, r, 32);
    lemma_wrap_offset(vx, j, 64);
    assert((cy0 - pre.v_reg[y]) % 32 == r);
    assert((cx0 - pre.v_reg[x]) % 64 == j);
    assert forall|cx: int, cy: int|
        0 <= cx < 64 && 0 <= cy < 32 && !(cx == cx0 && cy == cy0)
            implies partial_pixel(pre, x, y, r, j + 1, cx, cy)
                == #[trigger] partial_pixel(pre, x, y, r, j, cx, cy) by {
        let row = (cy - pre.v_reg[y]) % 32;
        let bit = (cx - pre.v_reg[x]) % 64;
        if row == r && bit == j {
            lemma_wrap_unique(vy, cy, 32);
            lemma_wrap_unique(vx, cx, 64);
            assert(cy == cy0);
            assert(cx == cx0);
        }
    }
}

/// One drawing step for the collision flag: a new erasure appears exactly
/// when the landed-on cell was lit and its sprite bit is set.
pub proof fn lemma_collision_step(pre: CpuView, x: int, y: int, r: int, j: int)
    requires
        pre.wf(),
        0 <= x < 16,
        0 <= y < 16,
        0 <= r < 16,
        0 <= j < 8,
    ensures
        ({
            let vx = pre.v_reg[x] as int;
            let vy = pre.v_reg[y] as int;
            let k0 = ((vx + j) % 64) * 32 + ((vy + r) % 32);
            partial_collision(pre, x, y, r, j + 1) <==> (partial_collision(pre, x, y, r, j)
                || (sprite_bit(pre.ram[pre.i_reg + r], j) == 1 && pre.vram[k0] == 1))
        }),
{
    let vx = pre.v_reg[x] as int;
    let vy = pre.v_reg[y] as int;
    let cx0 = (vx + j) % 64;
    let cy0 = (vy + r) % 32;
    let k0 = cx0 * 32 + cy0;
    lemma_fundamental_div_mod_converse(k0, 32, cx0, cy0);
    assert(k0 / 32 == cx0 && k0 % 32 == cy0);
    assert(0 <= k0 < DISPLAY_CELLS);
    lemma_draw_step(pre, x, y, r, j);
    if partial_collision(pre, x, y, r, j + 1) {
        let k = choose|k: int| 0 <= k < DISPLAY_CELLS
            && partial_pixel(pre, x, y, r, j + 1, k / 32, k % 32) == 1
            && (#[trigger] pre.vram[k]) == 1;
        lemma_fundamental_div_mod(k, 32);
        if k == k0 {
            assert(sprite_bit(pre.ram[pre.i_reg + r], j) == 1 && pre.vram[k0] == 1);
        } else {
            assert(!(k / 32 == cx0 && k % 32 == cy0));
            assert(partial_pixel(pre, x, y, r, j, k / 32, k % 32) == 1);
            assert(partial_collision(pre, x, y, r, j));
        }
    }
    if partial_collision(pre, x, y, r, j) {
        let k = choose|k: int| 0 <= k < DISPLAY_CELLS
            && partial_pixel(pre, x, y, r, j, k / 32, k % 32) == 1
            && (#[trigger] pre.vram[k]) == 1;
        lemma_fundamental_div_mod(k, 32);
        if k == k0 {
            assert(partial_pixel(pre, x, y, r, j, cx0, cy0) == 1);
            assert(false);
        }
        assert(partial_pixel(pre, x, y, r, j + 1, k / 32, k % 32) == 1);
        assert(partial_collision(pre, x, y, r, j + 1));
    }
    if sprite_bit(pre.ram[pre.i_reg + r], j) == 1 && pre.vram[k0] == 1 {
        assert(partial_pixel(pre, x, y, r, j + 1, k0 / 32, k0 % 32) == 1);
        assert(partial_collision(pre, x, y, r, j + 1));
    }
}

/// Finishing row `r` is the same as standing at the start of row `r + 1`.
pub proof fn lemma_row_roll(pre: CpuView, x: int, y: int, r: int)
    ensures
        forall|cx: int, cy: int|
            #[trigger] partial_pixel(pre, x, y, r, 8, cx, cy)
                == partial_pixel(pre, x, y, r + 1, 0, cx, cy),
        partial_collision(pre, x, y, r, 8) <==> partial_collision(pre, x, y, r + 1, 0),
{
    assert forall|cx: int, cy: int|
        #[trigger] partial_pixel(pre, x, y, r, 8, cx, cy)
            == partial_pixel(pre, x, y, r + 1, 0, cx, cy) by {
        let row = (cy - pre.v_reg[y]) % 32;
        let bit = (cx - pre.v_reg[x]) % 64;
        assert(((row < r && bit < 8) || (row == r && bit < 8))
            == (row < r + 1 && bit < 8));
    }
    if partial_collision(pre, x, y, r, 8) {
        let k = choose|k: int| 0 <= k < DISPLAY_CELLS
            && partial_pixel(pre, x, y, r, 8, k / 32, k % 32) == 1
            && (#[trigger] pre.vram[k]) == 1;
        assert(partial_pixel(pre, x, y, r + 1, 0, k / 32, k % 32) == 1);
        assert(partial_collision(pre, x, y, r + 1, 0));
    }
    if partial_collision(pre, x, y, r + 1, 0) {
        let k = choose|k: int| 0 <= k < DISPLAY_CELLS
            && partial_pixel(pre, x, y, r + 1, 0, k / 32, k % 32) == 1
            && (#[trigger] pre.vram[k]) == 1;
        assert(partial_pixel(pre, x, y, r, 8, k / 32, k % 32) == 1);
        assert(partial_collision(pre, x, y, r, 8));
    }
}

/// Before any work, no cell is touched and nothing has been erased.
pub proof fn lemma_draw_start(pre: CpuView, x: int, y: int)
    ensures
        forall|cx: int, cy: int| #[trigger] partial_pixel(pre, x, y, 0, 0, cx, cy) == 0,
        !partial_collision(pre, x, y, 0, 0),
{
    assert forall|cx: int, cy: int| #[trigger] partial_pixel(pre, x, y, 0, 0, cx, cy) == 0 by {
        let row = (cy - pre.v_reg[y]) % 32;
        let bit = (cx - pre.v_reg[x]) % 64;
        assert(!((row < 0 && bit < 8) || (row == 0 && bit < 0)));
    }
}

/// Standing at the start of row `n` with all rows below it drawn is the whole
/// draw of `n` rows.
pub proof fn lemma_draw_end(pre: CpuView, x: int, y: int, n: int)
    ensures
        forall|cx: int, cy: int|
            #[trigger] partial_pixel(pre, x, y, n, 0, cx, cy)
                == sprite_pixel(pre, x, y, n, cx, cy),
        partial_collision(pre, x, y, n, 0) <==> draw_collision(pre, x, y, n),
{
    assert forall|cx: int, cy: int|
        #[trigger] partial_pixel(pre, x, y, n, 0, cx, cy)
            == sprite_pixel(pre, x, y, n, cx, cy) by {
        let row = (cy - pre.v_reg[y]) % 32;
        let bit = (cx - pre.v_reg[x]) % 64;
        assert(((row < n && bit < 8) || (row == n && bit < 0)) == (row < n && bit < 8));
    }
    if partial_collision(pre, x, y, n, 0) {
        let k = choose|k: int| 0 <= k < DISPLAY_CELLS
            && partial_pixel(pre, x, y, n, 0, k / 32, k % 32) == 1
            && (#[trigger] pre.vram[k]) == 1;
        assert(sprite_pixel(pre, x, y, n, k / 32, k % 32) == 1);
        assert(draw_collision(pre, x, y, n));
    }
    if draw_collision(pre, x, y, n) {
        let k = choose|k: int| 0 <= k < DISPLAY_CELLS
            && sprite_pixel(pre, x, y, n, k / 32, k % 32) == 1
            && (#[trigger] pre.vram[k]) == 1;
        assert(partial_pixel(pre, x, y, n, 0, k / 32, k % 32) == 1);
        assert(partial_collision(pre, x, y, n, 0));
    }
}

} // verus!
