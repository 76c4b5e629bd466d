//! The mathematical model of the processor: a plain-value view of the whole
//! machine state, and a specification function for every instruction and for
//! one full step. The executable machine in `cpu` is proved to follow these
//! functions exactly.

use vstd::prelude::*;
use crate::font::font_seq;

verus! {

/// Size of the address space in bytes.
pub const RAM_SIZE: usize = 4096;
/// Width of the display in cells.
pub const DISPLAY_WIDTH: usize = 64;
/// Height of the display in cells.
pub const DISPLAY_HEIGHT: usize = 32;
/// Number of display cells (width times height).
pub const DISPLAY_CELLS: usize = 2048;
/// Number of general-purpose registers.
pub const NUM_REGS: usize = 16;
/// Depth of the call stack.
pub const STACK_SIZE: usize = 16;
/// Number of keys on the keypad.
pub const NUM_KEYS: usize = 16;
/// Length of the glyph font table at the base of memory.
pub const FONT_BYTES: usize = 80;
/// Address where loaded programs begin, and the initial program counter.
pub const PROGRAM_START: u16 = 0x200;

/// The machine state as plain mathematical values. The display is kept as a
/// flat sequence of cells, column-major: cell `(x, y)` lives at `x * 32 + y`
/// and holds `0` or `1`.
#[verifier::ext_equal]
pub struct CpuView {
    pub ram: Seq<u8>,
    pub vram: Seq<u8>,
    pub render: bool,
    pub v_reg: Seq<u8>,
    pub i_reg: u16,
    pub delay_timer: u8,
    pub sound_timer: u8,
    pub pc: u16,
    pub sp: u8,
    pub stack: Seq<u16>,
    pub keys: Seq<bool>,
}

impl CpuView {
    /// Well-formedness: every part has its fixed size, the stack pointer is a
    /// valid count, and every display cell is a single bit.
    pub open spec fn wf(self) -> bool {
        &&& self.ram.len() == RAM_SIZE
        &&& self.vram.len() == DISPLAY_CELLS
        &&& self.v_reg.len() == NUM_REGS
        &&& self.stack.len() == STACK_SIZE
        &&& self.keys.len() == NUM_KEYS
        &&& self.sp <= STACK_SIZE
        &&& forall|k: int| 0 <= k < DISPLAY_CELLS ==> self.vram[k] == 0 || self.vram[k] == 1
    }
}

/// The fatal internal-consistency errors a step can surface. A well-formed
/// program never triggers one; they are reported rather than checked away so
/// that a bad program halts loudly instead of corrupting state.
#[derive(Clone, Copy, Debug, PartialEq, Eq, Structural)]
pub enum Fault {
    /// A return was executed with an empty call stack.
    StackUnderflow,
    /// A call was executed with the call stack already full.
    StackOverflow,
    /// A memory access (fetch, draw, or block transfer) would pass the end of
    /// the address space.
    AddressOutOfRange,
    /// A key-skip instruction read a register holding a value of 16 or more.
    KeyOutOfRange,
}

/// The state a fresh machine starts in: font at the base of zeroed memory,
/// blank display, zeroed registers, program counter at the entry point.
pub open spec fn initial_view() -> CpuView {
    CpuView {
        ram: Seq::new(RAM_SIZE as nat, |k: int| if k < FONT_BYTES { font_seq()[k] } else { 0u8 }),
        vram: Seq::new(DISPLAY_CELLS as nat, |k: int| 0u8),
        render: false,
        v_reg: Seq::new(NUM_REGS as nat, |k: int| 0u8),
        i_reg: 0,
        delay_timer: 0,
        sound_timer: 0,
        pc: PROGRAM_START,
        sp: 0,
        stack: Seq::new(STACK_SIZE as nat, |k: int| 0u16),
        keys: Seq::new(NUM_KEYS as nat, |k: int| false),
    }
}

/// Memory after loading a program image verbatim at the entry point;
/// everything outside the loaded range is untouched.
pub open spec fn spec_load(v: CpuView, data: Seq<u8>) -> CpuView {
    CpuView {
        ram: Seq::new(RAM_SIZE as nat, |k: int|
            if PROGRAM_START <= k < PROGRAM_START + data.len() {
                data[k - PROGRAM_START]
            } else {
                v.ram[k]
            }),
        ..v
    }
}

// ---------------------------------------------------------------------------
// Instruction word decoding
// ---------------------------------------------------------------------------

/// High nibble of an instruction word: selects the instruction family.
pub open spec fn op_hi(op: u16) -> int { op as int / 0x1000 }

/// Second nibble: the register index `x`.
pub open spec fn op_x(op: u16) -> int { (op as int / 0x100) % 16 }

/// Third nibble: the register index `y`.
pub open spec fn op_y(op: u16) -> int { (op as int / 0x10) % 16 }

/// Low nibble: a sub-opcode or the sprite height `n`.
pub open spec fn op_lo(op: u16) -> int { op as int % 16 }

/// Low twelve bits: an address.
pub open spec fn op_nnn(op: u16) -> int { op as int % 0x1000 }

/// Low byte: an immediate.
pub open spec fn op_kk(op: u16) -> int { op as int % 0x100 }

/// The big-endian instruction word at the program counter.
pub open spec fn fetch_word(v: CpuView) -> u16 {
    (v.ram[v.pc as int] * 0x100 + v.ram[v.pc as int + 1]) as u16
}

/// Truncation to 16 bits.
pub open spec fn u16_wrap(x: int) -> u16 { (x % 0x10000) as u16 }

/// Truncation to 8 bits.
pub open spec fn u8_wrap(x: int) -> u8 { (x % 0x100) as u8 }

// ---------------------------------------------------------------------------
// Per-instruction transitions. Each takes the state with the program counter
// already advanced past the instruction, as the fetch leaves it.
// ---------------------------------------------------------------------------

/// The additional advance a taken skip applies to the program counter.
pub open spec fn spec_skip(v: CpuView) -> CpuView {
    CpuView { pc: u16_wrap(v.pc + 2), ..v }
}

/// Clear: every display cell to zero. Only the draw instruction marks the
/// display changed, so the flag is left as it is.
pub open spec fn spec_op_00e0(v: CpuView) -> CpuView {
    CpuView { vram: Seq::new(DISPLAY_CELLS as nat, |k: int| 0u8), ..v }
}

/// Return: pop the top of the stack into the program counter.
pub open spec fn spec_op_00ee(v: CpuView) -> CpuView {
    CpuView { pc: v.stack[v.sp - 1], sp: (v.sp - 1) as u8, ..v }
}

/// Jump to `nnn`.
pub open spec fn spec_op_1nnn(v: CpuView, nnn: int) -> CpuView {
    CpuView { pc: nnn as u16, ..v }
}

/// Call: push the (already advanced) program counter, then jump to `nnn`.
pub open spec fn spec_op_2nnn(v: CpuView, nnn: int) -> CpuView {
    CpuView {
        stack: v.stack.update(v.sp as int, v.pc),
        sp: (v.sp + 1) as u8,
        pc: nnn as u16,
        ..v
    }
}

/// Skip if `Vx == kk`.
pub open spec fn spec_op_3xkk(v: CpuView, x: int, kk: int) -> CpuView {
    if v.v_reg[x] == kk { spec_skip(v) } else { v }
}

/// Skip if `Vx != kk`.
pub open spec fn spec_op_4xkk(v: CpuView, x: int, kk: int) -> CpuView {
    if v.v_reg[x] != kk { spec_skip(v) } else { v }
}

/// Skip if `Vx == Vy`.
pub open spec fn spec_op_5xy0(v: CpuView, x: int, y: int) -> CpuView {
    if v.v_reg[x] == v.v_reg[y] { spec_skip(v) } else { v }
}

/// Load immediate: `Vx := kk`.
pub open spec fn spec_op_6xkk(v: CpuView, x: int, kk: int) -> CpuView {
    CpuView { v_reg: v.v_reg.update(x, kk as u8), ..v }
}

/// Add immediate, wrapping modulo 256, no flag.
pub open spec fn spec_op_7xkk(v: CpuView, x: int, kk: int) -> CpuView {
    CpuView { v_reg: v.v_reg.update(x, u8_wrap(v.v_reg[x] + kk)), ..v }
}

/// Assign: `Vx := Vy`.
pub open spec fn spec_op_8xy0(v: CpuView, x: int, y: int) -> CpuView {
    CpuView { v_reg: v.v_reg.update(x, v.v_reg[y]), ..v }
}

/// Bitwise OR.
pub open spec fn spec_op_8xy1(v: CpuView, x: int, y: int) -> CpuView {
    CpuView { v_reg: v.v_reg.update(x, v.v_reg[x] | v.v_reg[y]), ..v }
}

/// Bitwise AND.
pub open spec fn spec_op_8xy2(v: CpuView, x: int, y: int) -> CpuView {
    CpuView { v_reg: v.v_reg.update(x, v.v_reg[x] & v.v_reg[y]), ..v }
}

/// Bitwise XOR.
pub open spec fn spec_op_8xy3(v: CpuView, x: int, y: int) -> CpuView {
    CpuView { v_reg: v.v_reg.update(x, v.v_reg[x] ^ v.v_reg[y]), ..v }
}

/// Add with carry: the sum modulo 256 goes to `Vx` first, then the carry flag
/// overwrites `VF` (so with `x == 15` the flag wins).
pub open spec fn spec_op_8xy4(v: CpuView, x: int, y: int) -> CpuView {
    let sum = v.v_reg[x] + v.v_reg[y];
    let r1 = v.v_reg.update(x, u8_wrap(sum));
    CpuView { v_reg: r1.update(15, if sum > 255 { 1u8 } else { 0u8 }), ..v }
}

/// Subtract `Vy` from `Vx`: the borrow flag is written to `VF` first, then
/// the wrapped difference of the registers as they then stand goes to `Vx`.
pub open spec fn spec_op_8xy5(v: CpuView, x: int, y: int) -> CpuView {
    let f: u8 = if v.v_reg[x] > v.v_reg[y] { 1 } else { 0 };
    let r1 = v.v_reg.update(15, f);
    CpuView { v_reg: r1.update(x, u8_wrap(r1[x] - r1[y])), ..v }
}

/// Shift right: the low bit goes to `VF` first, then `Vx` as it then stands
/// is shifted.
pub open spec fn spec_op_8xy6(v: CpuView, x: int, y: int) -> CpuView {
    let r1 = v.v_reg.update(15, v.v_reg[x] & 1);
    CpuView { v_reg: r1.update(x, r1[x] >> 1u8), ..v }
}

/// Subtract `Vx` from `Vy` into `Vx`, with the borrow flag written first.
pub open spec fn spec_op_8xy7(v: CpuView, x: int, y: int) -> CpuView {
    let f: u8 = if v.v_reg[y] > v.v_reg[x] { 1 } else { 0 };
    let r1 = v.v_reg.update(15, f);
    CpuView { v_reg: r1.update(x, u8_wrap(r1[y] - r1[x])), ..v }
}

/// Shift left: the high bit goes to `VF` first, then `Vx` as it then stands
/// is shifted, truncated to 8 bits.
pub open spec fn spec_op_8xye(v: CpuView, x: int, y: int) -> CpuView {
    let r1 = v.v_reg.update(15, (v.v_reg[x] >> 7u8) & 1);
    CpuView { v_reg: r1.update(x, u8_wrap(r1[x] * 2)), ..v }
}

/// Skip if `Vx != Vy`.
pub open spec fn spec_op_9xy0(v: CpuView, x: int, y: int) -> CpuView {
    if v.v_reg[x] != v.v_reg[y] { spec_skip(v) } else { v }
}

/// Set the index register to `nnn`.
pub open spec fn spec_op_annn(v: CpuView, nnn: int) -> CpuView {
    CpuView { i_reg: nnn as u16, ..v }
}

/// Jump with offset: the program counter becomes `V0 + nnn`.
pub open spec fn spec_op_bnnn(v: CpuView, nnn: int) -> CpuView {
    CpuView { pc: (v.v_reg[0] + nnn) as u16, ..v }
}

/// Random: `Vx` becomes a drawn byte masked by `kk`.
pub open spec fn spec_op_cxkk(v: CpuView, x: int, kk: int, rnd: u8) -> CpuView {
    CpuView { v_reg: v.v_reg.update(x, rnd & (kk as u8)), ..v }
}

/// Bit `j` (most significant first) of a sprite row byte.
pub open spec fn sprite_bit(b: u8, j: int) -> u8 {
    (b >> ((7 - j) as u8)) & 1
}

/// The sprite bit XORed into display cell `(cx, cy)` by a draw of `n` rows at
/// position `(Vx, Vy)`, or `0` where the draw does not touch the cell. Both
/// axes wrap independently, so the cell is touched exactly when its row
/// offset from `Vy` modulo 32 is below `n` and its column offset from `Vx`
/// modulo 64 is below 8.
pub open spec fn sprite_pixel(v: CpuView, x: int, y: int, n: int, cx: int, cy: int) -> u8 {
    let row = (cy - v.v_reg[y]) % 32;
    let bit = (cx - v.v_reg[x]) % 64;
    if row < n && bit < 8 {
        sprite_bit(v.ram[v.i_reg + row], bit)
    } else {
        0
    }
}

/// Whether a draw of `n` rows erases some lit cell: a sprite bit of 1 lands
/// on a cell already holding 1.
pub open spec fn draw_collision(v: CpuView, x: int, y: int, n: int) -> bool {
    exists|k: int| 0 <= k < DISPLAY_CELLS
        && sprite_pixel(v, x, y, n, k / 32, k % 32) == 1
        && (#[trigger] v.vram[k]) == 1
}

/// Draw: XOR the sprite into the display with per-axis wraparound, set `VF`
/// to the collision flag, and mark the display changed.
pub open spec fn spec_op_dxyn(v: CpuView, x: int, y: int, n: int) -> CpuView {
    CpuView {
        vram: Seq::new(DISPLAY_CELLS as nat,
            |k: int| v.vram[k] ^ sprite_pixel(v, x, y, n, k / 32, k % 32)),
        v_reg: v.v_reg.update(15, if draw_collision(v, x, y, n) { 1u8 } else { 0u8 }),
        render: true,
        ..v
    }
}

/// Skip if the key indexed by `Vx` is pressed.
pub open spec fn spec_op_ex9e(v: CpuView, x: int) -> CpuView {
    if v.keys[v.v_reg[x] as int] { spec_skip(v) } else { v }
}

/// Skip if the key indexed by `Vx` is not pressed.
pub open spec fn spec_op_exa1(v: CpuView, x: int) -> CpuView {
    if !v.keys[v.v_reg[x] as int] { spec_skip(v) } else { v }
}

/// Read the delay timer into `Vx`.
pub open spec fn spec_op_fx07(v: CpuView, x: int) -> CpuView {
    CpuView { v_reg: v.v_reg.update(x, v.delay_timer), ..v }
}

/// The highest pressed key index below `n`, or `-1` if none is pressed there.
pub open spec fn top_key_below(keys: Seq<bool>, n: nat) -> int
    decreases n,
{
    if n == 0 {
        -1
    } else if keys[n - 1] {
        n - 1
    } else {
        top_key_below(keys, (n - 1) as nat)
    }
}

/// Whether any of the sixteen keys is pressed.
pub open spec fn any_key_pressed(keys: Seq<bool>) -> bool {
    exists|i: int| 0 <= i < NUM_KEYS && keys[i]
}

/// Wait for a key: with some key pressed, `Vx` becomes the highest pressed
/// index; with none, the program counter is rewound by 2 so the same
/// instruction is fetched again on the next step.
pub open spec fn spec_op_fx0a(v: CpuView, x: int) -> CpuView {
    if any_key_pressed(v.keys) {
        CpuView { v_reg: v.v_reg.update(x, top_key_below(v.keys, NUM_KEYS as nat) as u8), ..v }
    } else {
        CpuView { pc: u16_wrap(v.pc - 2), ..v }
    }
}

/// Set the delay timer from `Vx`.
pub open spec fn spec_op_fx15(v: CpuView, x: int) -> CpuView {
    CpuView { delay_timer: v.v_reg[x], ..v }
}

/// Set the sound timer from `Vx`.
pub open spec fn spec_op_fx18(v: CpuView, x: int) -> CpuView {
    CpuView { sound_timer: v.v_reg[x], ..v }
}

/// Add `Vx` to the index register, wrapping at 16 bits.
pub open spec fn spec_op_fx1e(v: CpuView, x: int) -> CpuView {
    CpuView { i_reg: u16_wrap(v.i_reg + v.v_reg[x]), ..v }
}

/// Point the index register at the glyph for the digit in `Vx`: five bytes
/// per glyph from the base of memory.
pub open spec fn spec_op_fx29(v: CpuView, x: int) -> CpuView {
    CpuView { i_reg: (v.v_reg[x] * 5) as u16, ..v }
}

/// Store the three decimal digits of `Vx` at `I`, `I + 1`, `I + 2`.
pub open spec fn spec_op_fx33(v: CpuView, x: int) -> CpuView {
    let b = v.v_reg[x] as int;
    CpuView {
        ram: v.ram
            .update(v.i_reg as int, (b / 100) as u8)
            .update(v.i_reg + 1, ((b / 10) % 10) as u8)
            .update(v.i_reg + 2, (b % 10) as u8),
        ..v
    }
}

/// Register dump: copy `V0 ..= Vx` into memory at `I`.
pub open spec fn spec_op_fx55(v: CpuView, x: int) -> CpuView {
    CpuView {
        ram: Seq::new(RAM_SIZE as nat, |k: int|
            if v.i_reg <= k <= v.i_reg + x { v.v_reg[k - v.i_reg] } else { v.ram[k] }),
        ..v
    }
}

/// Register load: copy memory at `I` into `V0 ..= Vx`.
pub open spec fn spec_op_fx65(v: CpuView, x: int) -> CpuView {
    CpuView {
        v_reg: Seq::new(NUM_REGS as nat, |j: int|
            if j <= x { v.ram[v.i_reg + j] } else { v.v_reg[j] }),
        ..v
    }
}

// ---------------------------------------------------------------------------
// Dispatch, fault conditions, and the full step
// ---------------------------------------------------------------------------

/// Execute one decoded instruction on a state whose program counter has
/// already been advanced past it. `rnd` is the byte the random instruction
/// draws; every other instruction ignores it. Any pattern outside the
/// instruction set is a silent no-op.
pub open spec fn spec_exec_op(v: CpuView, op: u16, rnd: u8) -> CpuView {
    let hi = op_hi(op);
    let x = op_x(op);
    let y = op_y(op);
    let lo = op_lo(op);
    let nnn = op_nnn(op);
    let kk = op_kk(op);
    if hi == 0x0 && x == 0x0 && y == 0xe && lo == 0x0 { spec_op_00e0(v) }
    else if hi == 0x0 && x == 0x0 && y == 0xe && lo == 0xe { spec_op_00ee(v) }
    else if hi == 0x1 { spec_op_1nnn(v, nnn) }
    else if hi == 0x2 { spec_op_2nnn(v, nnn) }
    else if hi == 0x3 { spec_op_3xkk(v, x, kk) }
    else if hi == 0x4 { spec_op_4xkk(v, x, kk) }
    else if hi == 0x5 && lo == 0x0 { spec_op_5xy0(v, x, y) }
    else if hi == 0x6 { spec_op_6xkk(v, x, kk) }
    else if hi == 0x7 { spec_op_7xkk(v, x, kk) }
    else if hi == 0x8 && lo == 0x0 { spec_op_8xy0(v, x, y) }
    else if hi == 0x8 && lo == 0x1 { spec_op_8xy1(v, x, y) }
    else if hi == 0x8 && lo == 0x2 { spec_op_8xy2(v, x, y) }
    else if hi == 0x8 && lo == 0x3 { spec_op_8xy3(v, x, y) }
    else if hi == 0x8 && lo == 0x4 { spec_op_8xy4(v, x, y) }
    else if hi == 0x8 && lo == 0x5 { spec_op_8xy5(v, x, y) }
    else if hi == 0x8 && lo == 0x6 { spec_op_8xy6(v, x, y) }
    else if hi == 0x8 && lo == 0x7 { spec_op_8xy7(v, x, y) }
    else if hi == 0x8 && lo == 0xe { spec_op_8xye(v, x, y) }
    else if hi == 0x9 && lo == 0x0 { spec_op_9xy0(v, x, y) }
    else if hi == 0xa { spec_op_annn(v, nnn) }
    else if hi == 0xb { spec_op_bnnn(v, nnn) }
    else if hi == 0xc { spec_op_cxkk(v, x, kk, rnd) }
    else if hi == 0xd { spec_op_dxyn(v, x, y, lo) }
    else if hi == 0xe && y == 0x9 && lo == 0xe { spec_op_ex9e(v, x) }
    else if hi == 0xe && y == 0xa && lo == 0x1 { spec_op_exa1(v, x) }
    else if hi == 0xf && y == 0x0 && lo == 0x7 { spec_op_fx07(v, x) }
    else if hi == 0xf && y == 0x0 && lo == 0xa { spec_op_fx0a(v, x) }
    else if hi == 0xf && y == 0x1 && lo == 0x5 { spec_op_fx15(v, x) }
    else if hi == 0xf && y == 0x1 && lo == 0x8 { spec_op_fx18(v, x) }
    else if hi == 0xf && y == 0x1 && lo == 0xe { spec_op_fx1e(v, x) }
    else if hi == 0xf && y == 0x2 && lo == 0x9 { spec_op_fx29(v, x) }
    else if hi == 0xf && y == 0x3 && lo == 0x3 { spec_op_fx33(v, x) }
    else if hi == 0xf && y == 0x5 && lo == 0x5 { spec_op_fx55(v, x) }
    else if hi == 0xf && y == 0x6 && lo == 0x5 { spec_op_fx65(v, x) }
    else { v }
}

/// The fault, if any, that executing `op` on state `v` would surface. Only
/// the stack, the registers, the index register and the key indices matter
/// here; the program counter does not.
pub open spec fn op_fault(v: CpuView, op: u16) -> Option<Fault> {
    let hi = op_hi(op);
    let x = op_x(op);
    let y = op_y(op);
    let lo = op_lo(op);
    if hi == 0x0 && x == 0x0 && y == 0xe && lo == 0xe {
        if v.sp == 0 { Some(Fault::StackUnderflow) } else { None }
    } else if hi == 0x2 {
        if v.sp >= STACK_SIZE { Some(Fault::StackOverflow) } else { None }
    } else if hi == 0xd {
        if v.i_reg + lo > RAM_SIZE { Some(Fault::AddressOutOfRange) } else { None }
    } else if hi == 0xe && (y == 0x9 && lo == 0xe || y == 0xa && lo == 0x1) {
        if v.v_reg[x] >= NUM_KEYS { Some(Fault::KeyOutOfRange) } else { None }
    } else if hi == 0xf && y == 0x3 && lo == 0x3 {
        if v.i_reg + 3 > RAM_SIZE { Some(Fault::AddressOutOfRange) } else { None }
    } else if hi == 0xf && (y == 0x5 && lo == 0x5 || y == 0x6 && lo == 0x5) {
        if v.i_reg + x + 1 > RAM_SIZE { Some(Fault::AddressOutOfRange) } else { None }
    } else {
        None
    }
}

/// The fault, if any, a whole step on state `v` would surface: a fetch past
/// the end of memory, or the fetched instruction's own fault.
pub open spec fn tick_fault(v: CpuView) -> Option<Fault> {
    if v.pc + 1 >= RAM_SIZE {
        Some(Fault::AddressOutOfRange)
    } else {
        op_fault(v, fetch_word(v))
    }
}

/// One timer step: down by one, floored at zero.
pub open spec fn tick_timer(t: u8) -> u8 {
    if t > 0 { (t - 1) as u8 } else { 0 }
}

/// An instruction's fault does not depend on the program counter, the
/// display, the timers, the keys or the changed flag.
pub proof fn lemma_op_fault_same(v1: CpuView, v2: CpuView, op: u16)
    requires
        v1.sp == v2.sp,
        v1.i_reg == v2.i_reg,
        v1.v_reg == v2.v_reg,
    ensures
        op_fault(v1, op) == op_fault(v2, op),
{
}

/// One full fault-free step: latch the keys, reset the display-changed flag,
/// fetch and advance, execute, then step both timers.
pub open spec fn spec_tick(v: CpuView, keys: Seq<bool>, rnd: u8) -> CpuView {
    let op = fetch_word(v);
    let v1 = CpuView { keys: keys, render: false, pc: u16_wrap(v.pc + 2), ..v };
    let v2 = spec_exec_op(v1, op, rnd);
    CpuView {
        delay_timer: tick_timer(v2.delay_timer),
        sound_timer: tick_timer(v2.sound_timer),
        ..v2
    }
}

} // verus!
