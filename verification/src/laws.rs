//! Properties of the machine model that hold across several instructions or
//! several steps, each proved once and for all states.

use vstd::prelude::*;
use crate::draw::{lemma_sprite_pixel_bit, lemma_xor_bits};
use crate::font::font_seq;
use crate::machine::{
    fetch_word, initial_view, op_hi, op_kk, op_lo, op_x, op_y, spec_load, spec_op_dxyn,
    spec_op_fx55, spec_op_fx65, spec_tick, sprite_pixel, tick_fault, CpuView, DISPLAY_CELLS,
    FONT_BYTES, NUM_KEYS, NUM_REGS, PROGRAM_START, RAM_SIZE,
};

verus! {

/// Loading a program never touches the font table: the first eighty bytes of
/// memory are the same before and after any in-bounds load.
pub proof fn lemma_load_preserves_font(v: CpuView, data: Seq<u8>)
    requires
        v.wf(),
        PROGRAM_START + data.len() <= RAM_SIZE,
    ensures
        forall|k: int| 0 <= k < FONT_BYTES ==> spec_load(v, data).ram[k] == v.ram[k],
{
}

/// On a fresh machine, after any in-bounds load the font table still holds
/// the fixed glyph set, byte for byte.
pub proof fn lemma_font_fixed_after_load(data: Seq<u8>)
    requires
        PROGRAM_START + data.len() <= RAM_SIZE,
    ensures
        forall|k: int| 0 <= k < FONT_BYTES
            ==> spec_load(initial_view(), data).ram[k] == font_seq()[k],
{
}

/// Drawing the same sprite at the same position twice in a row restores the
/// display, and the second draw reports a collision exactly when the first
/// draw lit some cell that was dark before it. The position registers must
/// not be the flag register, which the first draw overwrites.
pub proof fn lemma_draw_twice_restores(v: CpuView, x: int, y: int, n: int)
    requires
        v.wf(),
        0 <= x < 16,
        0 <= y < 16,
        0 <= n < 16,
        x != 15,
        y != 15,
        v.i_reg + n <= RAM_SIZE,
    ensures
        ({
            let v1 = spec_op_dxyn(v, x, y, n);
            let v2 = spec_op_dxyn(v1, x, y, n);
            &&& v2.vram == v.vram
            &&& (v2.v_reg[15] == 1 <==> exists|k: int|
                0 <= k < DISPLAY_CELLS && (#[trigger] v1.vram[k]) == 1 && v.vram[k] == 0)
        }),
{
    let v1 = spec_op_dxyn(v, x, y, n);
    let v2 = spec_op_dxyn(v1, x, y, n);
    assert forall|cx: int, cy: int| #[trigger] sprite_pixel(v1, x, y, n, cx, cy)
        == sprite_pixel(v, x, y, n, cx, cy) by {
        assert(v1.v_reg[x] == v.v_reg[x] && v1.v_reg[y] == v.v_reg[y]);
    }
    assert forall|k: int| 0 <= k < DISPLAY_CELLS implies (#[trigger] v2.vram[k]) == v.vram[k] by {
        lemma_sprite_pixel_bit(v, x, y, n, k / 32, k % 32);
        lemma_xor_bits(v.vram[k], sprite_pixel(v, x, y, n, k / 32, k % 32));
    }
    assert(v2.vram =~= v.vram);
    if v2.v_reg[15] == 1 {
        let k = choose|k: int| 0 <= k < DISPLAY_CELLS
            && sprite_pixel(v1, x, y, n, k / 32, k % 32) == 1
            && (#[trigger] v1.vram[k]) == 1;
        lemma_sprite_pixel_bit(v, x, y, n, k / 32, k % 32);
        lemma_xor_bits(v.vram[k], sprite_pixel(v, x, y, n, k / 32, k % 32));
        assert(v1.vram[k] == 1 && v.vram[k] == 0);
    }
    if exists|k: int| 0 <= k < DISPLAY_CELLS && (#[trigger] v1.vram[k]) == 1 && v.vram[k] == 0 {
        let k = choose|k: int|
            0 <= k < DISPLAY_CELLS && (#[trigger] v1.vram[k]) == 1 && v.vram[k] == 0;
        lemma_sprite_pixel_bit(v, x, y, n, k / 32, k % 32);
        lemma_xor_bits(v.vram[k], sprite_pixel(v, x, y, n, k / 32, k % 32));
        assert(sprite_pixel(v1, x, y, n, k / 32, k % 32) == 1);
        assert(v2.v_reg[15] == 1);
    }
}

/// The four comparison skips and the two key skips.
pub open spec fn is_skip_op(op: u16) -> bool {
    ||| op_hi(op) == 0x3
    ||| op_hi(op) == 0x4
    ||| (op_hi(op) == 0x5 && op_lo(op) == 0x0)
    ||| (op_hi(op) == 0x9 && op_lo(op) == 0x0)
    ||| (op_hi(op) == 0xe
        && (op_y(op) == 0x9 && op_lo(op) == 0xe || op_y(op) == 0xa && op_lo(op) == 0x1))
}

/// Whether a skip instruction's condition holds, with the key skips reading
/// the keys latched for the step.
pub open spec fn skip_cond(v: CpuView, op: u16, keys: Seq<bool>) -> bool {
    if op_hi(op) == 0x3 {
        v.v_reg[op_x(op)] == op_kk(op)
    } else if op_hi(op) == 0x4 {
        v.v_reg[op_x(op)] != op_kk(op)
    } else if op_hi(op) == 0x5 {
        v.v_reg[op_x(op)] == v.v_reg[op_y(op)]
    } else if op_hi(op) == 0x9 {
        v.v_reg[op_x(op)] != v.v_reg[op_y(op)]
    } else if op_y(op) == 0x9 {
        keys[v.v_reg[op_x(op)] as int]
    } else {
        !keys[v.v_reg[op_x(op)] as int]
    }
}

/// A fault-free step on a skip instruction moves the program counter by
/// exactly 4 when the condition holds and exactly 2 when it does not.
pub proof fn lemma_skip_advance(v: CpuView, keys: Seq<bool>, rnd: u8)
    requires
        v.wf(),
        tick_fault(v) is None,
        is_skip_op(fetch_word(v)),
    ensures
        spec_tick(v, keys, rnd).pc
            == if skip_cond(v, fetch_word(v), keys) { v.pc + 4 } else { v.pc + 2 },
{
    assert(v.pc + 1 < RAM_SIZE);
    assert((v.pc + 2) % 0x10000 == v.pc + 2);
    assert((v.pc + 4) % 0x10000 == v.pc + 4);
}

/// The wait-for-key instruction.
pub open spec fn is_wait_op(op: u16) -> bool {
    op_hi(op) == 0xf && op_y(op) == 0x0 && op_lo(op) == 0xa
}

/// One step on the wait-for-key instruction with no key pressed leaves the
/// program counter, memory and registers exactly where they were.
pub proof fn lemma_wait_step(v: CpuView, keys: Seq<bool>, rnd: u8)
    requires
        v.wf(),
        keys.len() == NUM_KEYS,
        v.pc + 1 < RAM_SIZE,
        is_wait_op(fetch_word(v)),
        forall|i: int| 0 <= i < NUM_KEYS ==> !keys[i],
    ensures
        ({
            let w = spec_tick(v, keys, rnd);
            &&& w.wf()
            &&& w.pc == v.pc
            &&& w.ram == v.ram
            &&& w.v_reg == v.v_reg
            &&& w.vram == v.vram
            &&& w.stack == v.stack
            &&& w.sp == v.sp
            &&& w.i_reg == v.i_reg
        }),
{
    assert((v.pc + 2) % 0x10000 == v.pc + 2);
    assert((v.pc + 2 - 2) % 0x10000 == v.pc);
}

/// The machine after one fault-free step per drawn byte, each step with the
/// same key vector.
pub open spec fn run_steps(v: CpuView, keys: Seq<bool>, rands: Seq<u8>) -> CpuView
    decreases rands.len(),
{
    if rands.len() == 0 {
        v
    } else {
        run_steps(spec_tick(v, keys, rands[0]), keys, rands.skip(1))
    }
}

/// With no key pressed, any number of consecutive steps leaves the machine
/// blocked on the wait-for-key instruction: the program counter never
/// advances past it.
pub proof fn lemma_wait_blocks(v: CpuView, keys: Seq<bool>, rands: Seq<u8>)
    requires
        v.wf(),
        keys.len() == NUM_KEYS,
        v.pc + 1 < RAM_SIZE,
        is_wait_op(fetch_word(v)),
        forall|i: int| 0 <= i < NUM_KEYS ==> !keys[i],
    ensures
        run_steps(v, keys, rands).pc == v.pc,
        run_steps(v, keys, rands).ram == v.ram,
        run_steps(v, keys, rands).v_reg == v.v_reg,
    decreases rands.len(),
{
    if rands.len() > 0 {
        let w = spec_tick(v, keys, rands[0]);
        lemma_wait_step(v, keys, rands[0]);
        assert(fetch_word(w) == fetch_word(v));
        lemma_wait_blocks(w, keys, rands.skip(1));
    }
}

/// Dumping `V0 ..= Vx` to memory at `I` and loading the same range back into
/// any register file whatever reproduces the dumped values exactly.
pub proof fn lemma_dump_load_roundtrip(v: CpuView, regs2: Seq<u8>, x: int)
    requires
        v.wf(),
        0 <= x < 16,
        regs2.len() == NUM_REGS,
        v.i_reg + x + 1 <= RAM_SIZE,
    ensures
        ({
            let dumped = spec_op_fx55(v, x);
            let other = CpuView { v_reg: regs2, ..dumped };
            let loaded = spec_op_fx65(other, x);
            forall|j: int| 0 <= j <= x ==> #[trigger] loaded.v_reg[j] == v.v_reg[j]
        }),
{
    let dumped = spec_op_fx55(v, x);
    let other = CpuView { v_reg: regs2, ..dumped };
    let loaded = spec_op_fx65(other, x);
    assert forall|j: int| 0 <= j <= x implies #[trigger] loaded.v_reg[j] == v.v_reg[j] by {
        assert(other.ram[v.i_reg + j] == v.v_reg[j]);
    }
}

/// The instruction that writes the delay timer.
pub open spec fn sets_delay_timer(op: u16) -> bool {
    op_hi(op) == 0xf && op_y(op) == 0x1 && op_lo(op) == 0x5
}

/// Every step lowers a nonzero delay timer by exactly one and leaves a zero
/// timer at zero, as long as the fetched instruction does not itself write
/// the timer.
pub proof fn lemma_delay_timer_step(v: CpuView, keys: Seq<bool>, rnd: u8)
    requires
        !sets_delay_timer(fetch_word(v)),
    ensures
        spec_tick(v, keys, rnd).delay_timer
            == if v.delay_timer > 0 { (v.delay_timer - 1) as u8 } else { 0u8 },
{
}

} // verus!
