//! The executable processor. Every method is proved to follow the
//! specification functions of the `machine` module exactly; the one trusted
//! item is the wrapper that draws a random byte.

#![allow(non_snake_case)]

use vstd::prelude::*;
use vstd::arithmetic::div_mod::{
    lemma_fundamental_div_mod, lemma_fundamental_div_mod_converse, lemma_mod_multiples_vanish,
    lemma_small_mod,
};
use rand::Rng;
use crate::draw::{
    lemma_collision_step, lemma_draw_end, lemma_draw_start, lemma_draw_step,
    lemma_partial_pixel_bit, lemma_row_roll, lemma_xor_bits, lemma_xor_zero, partial_collision,
    partial_pixel,
};
use crate::font::{font_seq, font_set};
use crate::machine::{
    any_key_pressed, fetch_word, initial_view, lemma_op_fault_same, op_fault, op_hi, op_kk, op_x,
    spec_exec_op, spec_load, spec_op_00e0, spec_op_00ee, spec_op_1nnn, spec_op_2nnn, spec_op_3xkk,
    spec_op_4xkk, spec_op_5xy0, spec_op_6xkk, spec_op_7xkk, spec_op_8xy0, spec_op_8xy1,
    spec_op_8xy2, spec_op_8xy3, spec_op_8xy4, spec_op_8xy5, spec_op_8xy6, spec_op_8xy7,
    spec_op_8xye, spec_op_9xy0, spec_op_annn, spec_op_bnnn, spec_op_cxkk, spec_op_dxyn,
    spec_op_ex9e, spec_op_exa1, spec_op_fx07, spec_op_fx0a, spec_op_fx15, spec_op_fx18,
    spec_op_fx1e, spec_op_fx29, spec_op_fx33, spec_op_fx55, spec_op_fx65, spec_tick, sprite_bit,
    tick_fault, tick_timer, top_key_below, u16_wrap, CpuView, Fault, DISPLAY_CELLS, FONT_BYTES,
    NUM_KEYS, NUM_REGS, PROGRAM_START, RAM_SIZE, STACK_SIZE,
};

verus! {

/// Relies on rand::thread_rng and rand::Rng::gen: draws one byte from the
/// thread-local generator. Nothing is assumed about its value.
#[verifier::external_body]
fn random_byte() -> u8 {
    rand::thread_rng().gen()
}

/// A vector of `n` copies of `value`.
fn filled<T: Copy>(n: usize, value: T) -> (r: Vec<T>)
    ensures
        r@.len() == n,
        forall|i: int| 0 <= i < n ==> r@[i] == value,
{
    let mut r: Vec<T> = Vec::new();
    let mut k: usize = 0;
    while k < n
        invariant
            k <= n,
            r@.len() == k,
            forall|i: int| 0 <= i < k ==> r@[i] == value,
        decreases n - k,
    {
        r.push(value);
        k += 1;
    }
    r
}

/// The processor: the whole machine state, advanced one instruction per
/// `tick`. Its abstract value is a `CpuView`.
pub struct CPU {
    ram: Vec<u8>,
    vram: Vec<u8>,
    render: bool,
    v_reg: Vec<u8>,
    i_reg: u16,
    delay_timer: u8,
    sound_timer: u8,
    pc: u16,
    sp: u8,
    stack: Vec<u16>,
    keys: Vec<bool>,
}

impl View for CPU {
    type V = CpuView;

    closed spec fn view(&self) -> CpuView {
        CpuView {
            ram: self.ram@,
            vram: self.vram@,
            render: self.render,
            v_reg: self.v_reg@,
            i_reg: self.i_reg,
            delay_timer: self.delay_timer,
            sound_timer: self.sound_timer,
            pc: self.pc,
            sp: self.sp,
            stack: self.stack@,
            keys: self.keys@,
        }
    }
}

impl CPU {
    /// A fresh machine: font at the base of zeroed memory, blank display,
    /// zeroed registers and timers, program counter at the entry point.
    pub fn new() -> (r: CPU)
        ensures
            r@ == initial_view(),
            r@.wf(),
    {
        let mut ram = font_set();
        let mut k: usize = FONT_BYTES;
        while k < RAM_SIZE
            invariant
                FONT_BYTES <= k <= RAM_SIZE,
                ram@.len() == k,
                forall|i: int| 0 <= i < FONT_BYTES ==> ram@[i] == font_seq()[i],
                forall|i: int| FONT_BYTES <= i < k ==> ram@[i] == 0,
            decreases RAM_SIZE - k,
        {
            ram.push(0);
            k += 1;
        }
        let r = CPU {
            ram,
            vram: filled(DISPLAY_CELLS, 0u8),
            render: false,
            v_reg: filled(NUM_REGS, 0u8),
            i_reg: 0,
            delay_timer: 0,
            sound_timer: 0,
            pc: PROGRAM_START,
            sp: 0,
            stack: filled(STACK_SIZE, 0u16),
            keys: filled(NUM_KEYS, false),
        };
        proof {
            assert(r@.ram =~= initial_view().ram);
            assert(r@.vram =~= initial_view().vram);
            assert(r@.v_reg =~= initial_view().v_reg);
            assert(r@.stack =~= initial_view().stack);
            assert(r@.keys =~= initial_view().keys);
            assert(r@ =~= initial_view());
        }
        r
    }

    /// Installs a program image at the entry point; nothing else moves. The
    /// caller must keep the image inside memory.
    pub fn load(&mut self, game_data: &Vec<u8>)
        requires
            old(self)@.wf(),
            PROGRAM_START + game_data@.len() <= RAM_SIZE,
        ensures
            final(self)@.wf(),
            final(self)@ == spec_load(old(self)@, game_data@),
    {
        let ghost pre = self@;
        let base: usize = PROGRAM_START as usize;
        let mut i: usize = 0;
        while i < game_data.len()
            invariant
                pre.wf(),
                base == PROGRAM_START,
                base + game_data@.len() <= RAM_SIZE,
                i <= game_data@.len(),
                self.ram@.len() == RAM_SIZE,
                self.vram@ == pre.vram,
                self.render == pre.render,
                self.v_reg@ == pre.v_reg,
                self.i_reg == pre.i_reg,
                self.delay_timer == pre.delay_timer,
                self.sound_timer == pre.sound_timer,
                self.pc == pre.pc,
                self.sp == pre.sp,
                self.stack@ == pre.stack,
                self.keys@ == pre.keys,
                forall|k: int| 0 <= k < RAM_SIZE ==> (#[trigger] self.ram@[k]) == (
                    if base <= k < base + i { game_data@[k - base] } else { pre.ram[k] }),
            decreases game_data@.len() - i,
        {
            self.ram[base + i] = game_data[i];
            i += 1;
        }
        proof {
            assert(self@.ram =~= spec_load(pre, game_data@).ram);
            assert(self@ =~= spec_load(pre, game_data@));
        }
    }

    /// The display buffer, one byte per cell, column-major.
    pub fn get_vram(&self) -> (r: &Vec<u8>)
        ensures
            r@ == self@.vram,
    {
        &self.vram
    }

    /// Whether the last step redrew the display.
    pub fn new_screen(&self) -> (r: bool)
        ensures
            r == self@.render,
    {
        self.render
    }

    /// The value of general-purpose register `x`.
    pub fn get_reg(&self, x: usize) -> (r: u8)
        requires
            self@.wf(),
            x < NUM_REGS,
        ensures
            r == self@.v_reg[x as int],
    {
        self.v_reg[x]
    }

    /// The byte at memory address `addr`.
    pub fn get_mem(&self, addr: usize) -> (r: u8)
        requires
            self@.wf(),
            addr < RAM_SIZE,
        ensures
            r == self@.ram[addr as int],
    {
        self.ram[addr]
    }

    /// The program counter.
    pub fn get_pc(&self) -> (r: u16)
        ensures
            r == self@.pc,
    {
        self.pc
    }

    /// The index register.
    pub fn get_index_reg(&self) -> (r: u16)
        ensures
            r == self@.i_reg,
    {
        self.i_reg
    }

    /// The delay timer.
    pub fn get_delay_timer(&self) -> (r: u8)
        ensures
            r == self@.delay_timer,
    {
        self.delay_timer
    }

    /// The sound timer.
    pub fn get_sound_timer(&self) -> (r: u8)
        ensures
            r == self@.sound_timer,
    {
        self.sound_timer
    }

    /// One full step: latch the keys, fetch, decode, execute, step the
    /// timers. A fault is reported with the state unchanged; otherwise the
    /// step follows `spec_tick` for some drawn byte.
    pub fn tick(&mut self, keys: Vec<bool>) -> (r: Result<(), Fault>)
        requires
            old(self)@.wf(),
            keys@.len() == NUM_KEYS,
        ensures
            final(self)@.wf(),
            match r {
                Ok(_) => tick_fault(old(self)@) is None
                    && exists|rnd: u8| final(self)@ == spec_tick(old(self)@, keys@, rnd),
                Err(f) => tick_fault(old(self)@) == Some(f) && final(self)@ == old(self)@,
            },
    {
        if self.pc as usize + 1 >= RAM_SIZE {
            return Err(Fault::AddressOutOfRange);
        }
        proof {
            lemma_small_mod((old(self)@.pc + 2) as nat, 0x10000);
        }
        let op = self.get_op();
        let fault = self.fault_for(op);
        match fault {
            Some(f) => {
                proof {
                    lemma_op_fault_same(self@, old(self)@, op);
                }
                self.wait();
                proof {
                    lemma_small_mod(old(self)@.pc as nat, 0x10000);
                    assert(self@ =~= old(self)@);
                }
                return Err(f);
            }
            None => {
                proof {
                    lemma_op_fault_same(self@, old(self)@, op);
                }
            }
        }
        self.keys = keys;
        self.render = false;
        let ghost v1 = self@;
        proof {
            assert(v1 =~= (CpuView {
                keys: keys@,
                render: false,
                pc: u16_wrap(old(self)@.pc + 2),
                ..old(self)@
            }));
        }
        self.execute_op(op);
        let ghost v2 = self@;
        let ghost rnd = choose|rv: u8| v2 == spec_exec_op(v1, op, rv);
        if self.delay_timer > 0 {
            self.delay_timer = self.delay_timer - 1;
        }
        if self.sound_timer > 0 {
            self.sound_timer = self.sound_timer - 1;
        }
        proof {
            assert(self@ =~= (CpuView {
                delay_timer: tick_timer(v2.delay_timer),
                sound_timer: tick_timer(v2.sound_timer),
                ..v2
            }));
            assert(self@ == spec_tick(old(self)@, keys@, rnd));
        }
        Ok(())
    }

    /// Fetch: the big-endian word at the program counter, which then moves
    /// past it.
    fn get_op(&mut self) -> (op: u16)
        requires
            old(self)@.wf(),
            old(self)@.pc + 1 < RAM_SIZE,
        ensures
            final(self)@.wf(),
            final(self)@ == (CpuView { pc: u16_wrap(old(self)@.pc + 2), ..old(self)@ }),
            op == fetch_word(old(self)@),
    {
        let op: u16 = (self.ram[self.pc as usize] as u16) * 0x100
            + (self.ram[self.pc as usize + 1] as u16);
        self.next();
        op
    }

    /// The fault the fetched instruction would surface on the current state,
    /// if any.
    fn fault_for(&self, op: u16) -> (r: Option<Fault>)
        requires
            self@.wf(),
        ensures
            r == op_fault(self@, op),
    {
        let hi: u8 = (op / 0x1000) as u8;
        let x: u8 = ((op / 0x100) % 0x10) as u8;
        let y: u8 = ((op / 0x10) % 0x10) as u8;
        let lo: u8 = (op % 0x10) as u8;
        if hi == 0x0 && x == 0x0 && y == 0xe && lo == 0xe {
            if self.sp == 0 { Some(Fault::StackUnderflow) } else { None }
        } else if hi == 0x2 {
            if self.sp as usize >= STACK_SIZE { Some(Fault::StackOverflow) } else { None }
        } else if hi == 0xd {
            if self.i_reg as usize + lo as usize > RAM_SIZE {
                Some(Fault::AddressOutOfRange)
            } else {
                None
            }
        } else if hi == 0xe && (y == 0x9 && lo == 0xe || y == 0xa && lo == 0x1) {
            if self.v_reg[x as usize] as usize >= NUM_KEYS {
                Some(Fault::KeyOutOfRange)
            } else {
                None
            }
        } else if hi == 0xf && y == 0x3 && lo == 0x3 {
            if self.i_reg as usize + 3 > RAM_SIZE { Some(Fault::AddressOutOfRange) } else { None }
        } else if hi == 0xf && (y == 0x5 && lo == 0x5 || y == 0x6 && lo == 0x5) {
            if self.i_reg as usize + x as usize + 1 > RAM_SIZE {
                Some(Fault::AddressOutOfRange)
            } else {
                None
            }
        } else {
            None
        }
    }

    /// Decode the word into nibbles and run exactly one instruction.
    #[verifier::rlimit(100)]
    fn execute_op(&mut self, op: u16)
        requires
            old(self)@.wf(),
            op_fault(old(self)@, op) is None,
            2 <= old(self)@.pc,
            old(self)@.pc + 2 <= 0xFFFF,
        ensures
            final(self)@.wf(),
            exists|rnd: u8| final(self)@ == spec_exec_op(old(self)@, op, rnd),
    {
        let hi: u8 = (op / 0x1000) as u8;
        let x: u8 = ((op / 0x100) % 0x10) as u8;
        let y: u8 = ((op / 0x10) % 0x10) as u8;
        let lo: u8 = (op % 0x10) as u8;
        let nnn: u16 = op % 0x1000;
        let kk: u8 = (op % 0x100) as u8;
        match (hi, x, y, lo) {
            (0x0, 0x0, 0xe, 0x0) => self.op_00E0(),
            (0x0, 0x0, 0xe, 0xe) => self.op_00EE(),
            (0x1, _, _, _) => self.op_1nnn(nnn),
            (0x2, _, _, _) => self.op_2nnn(nnn),
            (0x3, _, _, _) => self.op_3xkk(x, kk),
            (0x4, _, _, _) => self.op_4xkk(x, kk),
            (0x5, _, _, 0x0) => self.op_5xy0(x, y),
            (0x6, _, _, _) => self.op_6xkk(x, kk),
            (0x7, _, _, _) => self.op_7xkk(x, kk),
            (0x8, _, _, 0x0) => self.op_8xy0(x, y),
            (0x8, _, _, 0x1) => self.op_8xy1(x, y),
            (0x8, _, _, 0x2) => self.op_8xy2(x, y),
            (0x8, _, _, 0x3) => self.op_8xy3(x, y),
            (0x8, _, _, 0x4) => self.op_8xy4(x, y),
            (0x8, _, _, 0x5) => self.op_8xy5(x, y),
            (0x8, _, _, 0x6) => self.op_8xy6(x, y),
            (0x8, _, _, 0x7) => self.op_8xy7(x, y),
            (0x8, _, _, 0xe) => self.op_8xyE(x, y),
            (0x9, _, _, 0x0) => self.op_9xy0(x, y),
            (0xa, _, _, _) => self.op_Annn(nnn),
            (0xb, _, _, _) => self.op_Bnnn(nnn),
            (0xc, _, _, _) => self.op_Cxkk(x, kk),
            (0xd, _, _, _) => self.op_Dxyn(x, y, lo),
            (0xe, _, 0x9, 0xe) => self.op_Ex9E(x),
            (0xe, _, 0xa, 0x1) => self.op_ExA1(x),
            (0xf, _, 0x0, 0x7) => self.op_Fx07(x),
            (0xf, _, 0x0, 0xa) => self.op_Fx0A(x),
            (0xf, _, 0x1, 0x5) => self.op_Fx15(x),
            (0xf, _, 0x1, 0x8) => self.op_Fx18(x),
            (0xf, _, 0x1, 0xe) => self.op_Fx1E(x),
            (0xf, _, 0x2, 0x9) => self.op_Fx29(x),
            (0xf, _, 0x3, 0x3) => self.op_Fx33(x),
            (0xf, _, 0x5, 0x5) => self.op_Fx55(x),
            (0xf, _, 0x6, 0x5) => self.op_Fx65(x),
            _ => (),
        }
        proof {
            if op_hi(op) == 0xc {
                let rnd = choose|rv: u8|
                    self@ == spec_op_cxkk(old(self)@, op_x(op), op_kk(op), rv);
                assert(self@ == spec_exec_op(old(self)@, op, rnd));
            } else {
                assert(self@ == spec_exec_op(old(self)@, op, 0u8));
            }
        }
    }

    /// Move the program counter to the next instruction.
    fn next(&mut self)
        requires
            old(self)@.pc + 2 <= 0xFFFF,
        ensures
            final(self)@ == (CpuView { pc: u16_wrap(old(self)@.pc + 2), ..old(self)@ }),
    {
        proof {
            lemma_small_mod((old(self)@.pc + 2) as nat, 0x10000);
        }
        self.pc = self.pc + 2;
    }

    /// Rewind the program counter to the instruction just fetched.
    fn wait(&mut self)
        requires
            old(self)@.pc >= 2,
        ensures
            final(self)@ == (CpuView { pc: u16_wrap(old(self)@.pc - 2), ..old(self)@ }),
    {
        proof {
            lemma_small_mod((old(self)@.pc - 2) as nat, 0x10000);
        }
        self.pc = self.pc - 2;
    }

    /// Pop the newest return address.
    fn stack_pop(&mut self) -> (r: u16)
        requires
            old(self)@.wf(),
            old(self)@.sp >= 1,
        ensures
            final(self)@ == (CpuView { sp: (old(self)@.sp - 1) as u8, ..old(self)@ }),
            r == old(self)@.stack[old(self)@.sp - 1],
    {
        self.sp = self.sp - 1;
        self.stack[self.sp as usize]
    }

    /// Push a return address.
    fn stack_push(&mut self, value: u16)
        requires
            old(self)@.wf(),
            old(self)@.sp < STACK_SIZE,
        ensures
            final(self)@ == (CpuView {
                stack: old(self)@.stack.update(old(self)@.sp as int, value),
                sp: (old(self)@.sp + 1) as u8,
                ..old(self)@
            }),
    {
        self.stack[self.sp as usize] = value;
        self.sp = self.sp + 1;
    }

    /// Clear the display.
    fn op_00E0(&mut self)
        requires
            old(self)@.wf(),
        ensures
            final(self)@.wf(),
            final(self)@ == spec_op_00e0(old(self)@),
    {
        let blank = filled(DISPLAY_CELLS, 0u8);
        self.vram = blank;
        proof {
            assert(self@.vram =~= spec_op_00e0(old(self)@).vram);
            assert(self@ =~= spec_op_00e0(old(self)@));
        }
    }

    /// Return from a call.
    fn op_00EE(&mut self)
        requires
            old(self)@.wf(),
            old(self)@.sp >= 1,
        ensures
            final(self)@.wf(),
            final(self)@ == spec_op_00ee(old(self)@),
    {
        let target = self.stack_pop();
        self.pc = target;
    }

    /// Jump.
    fn op_1nnn(&mut self, addr: u16)
        requires
            old(self)@.wf(),
        ensures
            final(self)@.wf(),
            final(self)@ == spec_op_1nnn(old(self)@, addr as int),
    {
        self.pc = addr;
    }

    /// Call.
    fn op_2nnn(&mut self, addr: u16)
        requires
            old(self)@.wf(),
            old(self)@.sp < STACK_SIZE,
        ensures
            final(self)@.wf(),
            final(self)@ == spec_op_2nnn(old(self)@, addr as int),
    {
        let here = self.pc;
        self.stack_push(here);
        self.pc = addr;
    }

    /// Skip if `Vx == kk`.
    fn op_3xkk(&mut self, x: u8, byte: u8)
        requires
            old(self)@.wf(),
            x < 16,
            old(self)@.pc + 2 <= 0xFFFF,
        ensures
            final(self)@.wf(),
            final(self)@ == spec_op_3xkk(old(self)@, x as int, byte as int),
    {
        if self.v_reg[x as usize] == byte {
            self.next();
        }
    }

    /// Skip if `Vx != kk`.
    fn op_4xkk(&mut self, x: u8, byte: u8)
        requires
            old(self)@.wf(),
            x < 16,
            old(self)@.pc + 2 <= 0xFFFF,
        ensures
            final(self)@.wf(),
            final(self)@ == spec_op_4xkk(old(self)@, x as int, byte as int),
    {
        if self.v_reg[x as usize] != byte {
            self.next();
        }
    }

    /// Skip if `Vx == Vy`.
    fn op_5xy0(&mut self, x: u8, y: u8)
        requires
            old(self)@.wf(),
            x < 16,
            y < 16,
            old(self)@.pc + 2 <= 0xFFFF,
        ensures
            final(self)@.wf(),
            final(self)@ == spec_op_5xy0(old(self)@, x as int, y as int),
    {
        if self.v_reg[x as usize] == self.v_reg[y as usize] {
            self.next();
        }
    }

    /// Load immediate.
    fn op_6xkk(&mut self, x: u8, byte: u8)
        requires
            old(self)@.wf(),
            x < 16,
        ensures
            final(self)@.wf(),
            final(self)@ == spec_op_6xkk(old(self)@, x as int, byte as int),
    {
        self.v_reg[x as usize] = byte;
    }

    /// Add immediate, wrapping, no flag.
    fn op_7xkk(&mut self, x: u8, byte: u8)
        requires
            old(self)@.wf(),
            x < 16,
        ensures
            final(self)@.wf(),
            final(self)@ == spec_op_7xkk(old(self)@, x as int, byte as int),
    {
        let sum: u16 = self.v_reg[x as usize] as u16 + byte as u16;
        self.v_reg[x as usize] = (sum % 256) as u8;
    }

    /// Assign `Vy` to `Vx`.
    fn op_8xy0(&mut self, x: u8, y: u8)
        requires
            old(self)@.wf(),
            x < 16,
            y < 16,
        ensures
            final(self)@.wf(),
            final(self)@ == spec_op_8xy0(old(self)@, x as int, y as int),
    {
        let vy = self.v_reg[y as usize];
        self.v_reg[x as usize] = vy;
    }

    /// Bitwise OR.
    fn op_8xy1(&mut self, x: u8, y: u8)
        requires
            old(self)@.wf(),
            x < 16,
            y < 16,
        ensures
            final(self)@.wf(),
            final(self)@ == spec_op_8xy1(old(self)@, x as int, y as int),
    {
        let v = self.v_reg[x as usize] | self.v_reg[y as usize];
        self.v_reg[x as usize] = v;
    }

    /// Bitwise AND.
    fn op_8xy2(&mut self, x: u8, y: u8)
        requires
            old(self)@.wf(),
            x < 16,
            y < 16,
        ensures
            final(self)@.wf(),
            final(self)@ == spec_op_8xy2(old(self)@, x as int, y as int),
    {
        let v = self.v_reg[x as usize] & self.v_reg[y as usize];
        self.v_reg[x as usize] = v;
    }

    /// Bitwise XOR.
    fn op_8xy3(&mut self, x: u8, y: u8)
        requires
            old(self)@.wf(),
            x < 16,
            y < 16,
        ensures
            final(self)@.wf(),
            final(self)@ == spec_op_8xy3(old(self)@, x as int, y as int),
    {
        let v = self.v_reg[x as usize] ^ self.v_reg[y as usize];
        self.v_reg[x as usize] = v;
    }

    /// Add with carry flag.
    fn op_8xy4(&mut self, x: u8, y: u8)
        requires
            old(self)@.wf(),
            x < 16,
            y < 16,
        ensures
            final(self)@.wf(),
            final(self)@ == spec_op_8xy4(old(self)@, x as int, y as int),
    {
        let sum: u16 = self.v_reg[x as usize] as u16 + self.v_reg[y as usize] as u16;
        self.v_reg[x as usize] = (sum % 256) as u8;
        let carry: u8 = if sum > 255 { 1 } else { 0 };
        self.v_reg[15] = carry;
    }

    /// Subtract `Vy` from `Vx` with borrow flag written first.
    fn op_8xy5(&mut self, x: u8, y: u8)
        requires
            old(self)@.wf(),
            x < 16,
            y < 16,
        ensures
            final(self)@.wf(),
            final(self)@ == spec_op_8xy5(old(self)@, x as int, y as int),
    {
        let f: u8 = if self.v_reg[x as usize] > self.v_reg[y as usize] { 1 } else { 0 };
        self.v_reg[15] = f;
        let a = self.v_reg[x as usize];
        let b = self.v_reg[y as usize];
        proof {
            lemma_mod_multiples_vanish(1, a as int - b as int, 256);
        }
        self.v_reg[x as usize] = ((a as u16 + 256 - b as u16) % 256) as u8;
    }

    /// Shift right with the dropped bit in the flag, written first.
    fn op_8xy6(&mut self, x: u8, _y: u8)
        requires
            old(self)@.wf(),
            x < 16,
        ensures
            final(self)@.wf(),
            final(self)@ == spec_op_8xy6(old(self)@, x as int, _y as int),
    {
        let f: u8 = self.v_reg[x as usize] & 1;
        self.v_reg[15] = f;
        let a = self.v_reg[x as usize];
        self.v_reg[x as usize] = a >> 1u8;
    }

    /// Subtract `Vx` from `Vy` into `Vx` with borrow flag written first.
    fn op_8xy7(&mut self, x: u8, y: u8)
        requires
            old(self)@.wf(),
            x < 16,
            y < 16,
        ensures
            final(self)@.wf(),
            final(self)@ == spec_op_8xy7(old(self)@, x as int, y as int),
    {
        let f: u8 = if self.v_reg[y as usize] > self.v_reg[x as usize] { 1 } else { 0 };
        self.v_reg[15] = f;
        let a = self.v_reg[x as usize];
        let b = self.v_reg[y as usize];
        proof {
            lemma_mod_multiples_vanish(1, b as int - a as int, 256);
        }
        self.v_reg[x as usize] = ((b as u16 + 256 - a as u16) % 256) as u8;
    }

    /// Shift left with the dropped bit in the flag, written first.
    fn op_8xyE(&mut self, x: u8, _y: u8)
        requires
            old(self)@.wf(),
            x < 16,
        ensures
            final(self)@.wf(),
            final(self)@ == spec_op_8xye(old(self)@, x as int, _y as int),
    {
        let f: u8 = (self.v_reg[x as usize] >> 7u8) & 1;
        self.v_reg[15] = f;
        let a = self.v_reg[x as usize];
        self.v_reg[x as usize] = ((a as u16 * 2) % 256) as u8;
    }

    /// Skip if `Vx != Vy`.
    fn op_9xy0(&mut self, x: u8, y: u8)
        requires
            old(self)@.wf(),
            x < 16,
            y < 16,
            old(self)@.pc + 2 <= 0xFFFF,
        ensures
            final(self)@.wf(),
            final(self)@ == spec_op_9xy0(old(self)@, x as int, y as int),
    {
        if self.v_reg[x as usize] != self.v_reg[y as usize] {
            self.next();
        }
    }

    /// Set the index register.
    fn op_Annn(&mut self, addr: u16)
        requires
            old(self)@.wf(),
        ensures
            final(self)@.wf(),
            final(self)@ == spec_op_annn(old(self)@, addr as int),
    {
        self.i_reg = addr;
    }

    /// Jump with offset `V0`.
    fn op_Bnnn(&mut self, addr: u16)
        requires
            old(self)@.wf(),
            addr < 0x1000,
        ensures
            final(self)@.wf(),
            final(self)@ == spec_op_bnnn(old(self)@, addr as int),
    {
        self.pc = self.v_reg[0] as u16 + addr;
    }

    /// Random byte masked by the immediate.
    fn op_Cxkk(&mut self, x: u8, byte: u8)
        requires
            old(self)@.wf(),
            x < 16,
        ensures
            final(self)@.wf(),
            exists|rnd: u8| final(self)@ == spec_op_cxkk(old(self)@, x as int, byte as int, rnd),
    {
        let drawn: u8 = random_byte();
        self.v_reg[x as usize] = drawn & byte;
        proof {
            assert(self@ == spec_op_cxkk(old(self)@, x as int, byte as int, drawn));
        }
    }

    /// Draw an `n`-row sprite at `(Vx, Vy)` with wraparound and collision
    /// detection, and mark the display changed.
    fn op_Dxyn(&mut self, x: u8, y: u8, n: u8)
        requires
            old(self)@.wf(),
            x < 16,
            y < 16,
            n < 16,
            old(self)@.i_reg + n <= RAM_SIZE,
        ensures
            final(self)@.wf(),
            final(self)@ == spec_op_dxyn(old(self)@, x as int, y as int, n as int),
    {
        let ghost pre = self@;
        let vx: usize = self.v_reg[x as usize] as usize;
        let vy: usize = self.v_reg[y as usize] as usize;
        let i0: usize = self.i_reg as usize;
        let mut collide: bool = false;
        proof {
            lemma_draw_start(pre, x as int, y as int);
            assert forall|k: int| 0 <= k < DISPLAY_CELLS implies (#[trigger] self.vram@[k])
                == pre.vram[k] ^ partial_pixel(pre, x as int, y as int, 0, 0, k / 32, k % 32) by {
                lemma_xor_zero(pre.vram[k]);
            }
        }
        let mut row: usize = 0;
        while row < n as usize
            invariant
                pre.wf(),
                x < 16,
                y < 16,
                n < 16,
                row <= n,
                vx == pre.v_reg[x as int],
                vy == pre.v_reg[y as int],
                i0 == pre.i_reg,
                i0 + n <= RAM_SIZE,
                self.ram@ == pre.ram,
                self.render == pre.render,
                self.v_reg@ == pre.v_reg,
                self.i_reg == pre.i_reg,
                self.delay_timer == pre.delay_timer,
                self.sound_timer == pre.sound_timer,
                self.pc == pre.pc,
                self.sp == pre.sp,
                self.stack@ == pre.stack,
                self.keys@ == pre.keys,
                self.vram@.len() == DISPLAY_CELLS,
                forall|k: int| 0 <= k < DISPLAY_CELLS ==> (#[trigger] self.vram@[k])
                    == pre.vram[k] ^ partial_pixel(
                        pre, x as int, y as int, row as int, 0, k / 32, k % 32),
                collide == partial_collision(pre, x as int, y as int, row as int, 0),
            decreases n - row,
        {
            let sb: u8 = self.ram[i0 + row];
            let cy: usize = (vy + row) % 32;
            let mut j: usize = 0;
            while j < 8
                invariant
                    pre.wf(),
                    x < 16,
                    y < 16,
                    n < 16,
                    row < n,
                    j <= 8,
                    vx == pre.v_reg[x as int],
                    vy == pre.v_reg[y as int],
                    i0 == pre.i_reg,
                    i0 + n <= RAM_SIZE,
                    sb == pre.ram[i0 + row],
                    cy == (vy + row) % 32,
                    self.ram@ == pre.ram,
                    self.render == pre.render,
                    self.v_reg@ == pre.v_reg,
                    self.i_reg == pre.i_reg,
                    self.delay_timer == pre.delay_timer,
                    self.sound_timer == pre.sound_timer,
                    self.pc == pre.pc,
                    self.sp == pre.sp,
                    self.stack@ == pre.stack,
                    self.keys@ == pre.keys,
                    self.vram@.len() == DISPLAY_CELLS,
                    forall|k: int| 0 <= k < DISPLAY_CELLS ==> (#[trigger] self.vram@[k])
                        == pre.vram[k] ^ partial_pixel(
                            pre, x as int, y as int, row as int, j as int, k / 32, k % 32),
                    collide == partial_collision(pre, x as int, y as int, row as int, j as int),
                decreases 8 - j,
            {
                let cx: usize = (vx + j) % 64;
                let sh: u8 = (7 - j) as u8;
                let pixel: u8 = (sb >> sh) & 1;
                let k: usize = cx * 32 + cy;
                let cell: u8 = self.vram[k];
                if pixel == 1 && cell == 1 {
                    collide = true;
                }
                self.vram[k] = cell ^ pixel;
                proof {
                    lemma_draw_step(pre, x as int, y as int, row as int, j as int);
                    lemma_collision_step(pre, x as int, y as int, row as int, j as int);
                    lemma_fundamental_div_mod_converse(k as int, 32, cx as int, cy as int);
                    lemma_xor_zero(pre.vram[k as int]);
                    assert(pixel == sprite_bit(pre.ram[i0 + row], j as int));
                    assert(cell == pre.vram[k as int]);
                    assert forall|kk: int| 0 <= kk < DISPLAY_CELLS implies (#[trigger] self.vram@[kk])
                        == pre.vram[kk] ^ partial_pixel(
                            pre, x as int, y as int, row as int, j as int + 1, kk / 32, kk % 32) by {
                        if kk == k {
                        } else {
                            lemma_fundamental_div_mod(kk, 32);
                            assert(!(kk / 32 == cx && kk % 32 == cy));
                        }
                    }
                }
                j += 1;
            }
            proof {
                lemma_row_roll(pre, x as int, y as int, row as int);
            }
            row += 1;
        }
        let flag: u8 = if collide { 1 } else { 0 };
        self.v_reg[15] = flag;
        self.render = true;
        proof {
            lemma_draw_end(pre, x as int, y as int, n as int);
            assert(self@.vram =~= spec_op_dxyn(pre, x as int, y as int, n as int).vram);
            assert(self@.v_reg =~= spec_op_dxyn(pre, x as int, y as int, n as int).v_reg);
            assert(self@ =~= spec_op_dxyn(pre, x as int, y as int, n as int));
            assert forall|k: int| 0 <= k < DISPLAY_CELLS implies
                self@.vram[k] == 0 || self@.vram[k] == 1 by {
                lemma_partial_pixel_bit(pre, x as int, y as int, n as int, 0, k / 32, k % 32);
                lemma_xor_bits(
                    pre.vram[k],
                    partial_pixel(pre, x as int, y as int, n as int, 0, k / 32, k % 32),
                );
            }
        }
    }

    /// Skip if the key indexed by `Vx` is pressed.
    fn op_Ex9E(&mut self, x: u8)
        requires
            old(self)@.wf(),
            x < 16,
            old(self)@.v_reg[x as int] < NUM_KEYS,
            old(self)@.pc + 2 <= 0xFFFF,
        ensures
            final(self)@.wf(),
            final(self)@ == spec_op_ex9e(old(self)@, x as int),
    {
        if self.keys[self.v_reg[x as usize] as usize] {
            self.next();
        }
    }

    /// Skip if the key indexed by `Vx` is not pressed.
    fn op_ExA1(&mut self, x: u8)
        requires
            old(self)@.wf(),
            x < 16,
            old(self)@.v_reg[x as int] < NUM_KEYS,
            old(self)@.pc + 2 <= 0xFFFF,
        ensures
            final(self)@.wf(),
            final(self)@ == spec_op_exa1(old(self)@, x as int),
    {
        if !self.keys[self.v_reg[x as usize] as usize] {
            self.next();
        }
    }

    /// Read the delay timer.
    fn op_Fx07(&mut self, x: u8)
        requires
            old(self)@.wf(),
            x < 16,
        ensures
            final(self)@.wf(),
            final(self)@ == spec_op_fx07(old(self)@, x as int),
    {
        let t = self.delay_timer;
        self.v_reg[x as usize] = t;
    }

    /// Wait for a key: take the highest pressed index, or rewind and retry
    /// next step.
    fn op_Fx0A(&mut self, x: u8)
        requires
            old(self)@.wf(),
            x < 16,
            old(self)@.pc >= 2,
        ensures
            final(self)@.wf(),
            final(self)@ == spec_op_fx0a(old(self)@, x as int),
    {
        let ghost pre = self@;
        let mut pressed: bool = false;
        let mut val: u8 = 0;
        let mut i: usize = 0;
        while i < NUM_KEYS
            invariant
                pre.wf(),
                self@ == pre,
                i <= NUM_KEYS,
                val < 16,
                pressed <==> exists|t: int| 0 <= t < i && pre.keys[t],
                pressed ==> val == top_key_below(pre.keys, i as nat),
                !pressed ==> top_key_below(pre.keys, i as nat) == -1,
            decreases NUM_KEYS - i,
        {
            if self.keys[i] {
                val = i as u8;
                pressed = true;
            }
            i += 1;
        }
        proof {
            assert(pressed == any_key_pressed(pre.keys));
        }
        if pressed {
            self.v_reg[x as usize] = val;
        } else {
            self.wait();
        }
    }

    /// Set the delay timer.
    fn op_Fx15(&mut self, x: u8)
        requires
            old(self)@.wf(),
            x < 16,
        ensures
            final(self)@.wf(),
            final(self)@ == spec_op_fx15(old(self)@, x as int),
    {
        self.delay_timer = self.v_reg[x as usize];
    }

    /// Set the sound timer.
    fn op_Fx18(&mut self, x: u8)
        requires
            old(self)@.wf(),
            x < 16,
        ensures
            final(self)@.wf(),
            final(self)@ == spec_op_fx18(old(self)@, x as int),
    {
        self.sound_timer = self.v_reg[x as usize];
    }

    /// Add `Vx` to the index register, wrapping at 16 bits.
    fn op_Fx1E(&mut self, x: u8)
        requires
            old(self)@.wf(),
            x < 16,
        ensures
            final(self)@.wf(),
            final(self)@ == spec_op_fx1e(old(self)@, x as int),
    {
        let s: u32 = self.i_reg as u32 + self.v_reg[x as usize] as u32;
        self.i_reg = (s % 0x10000) as u16;
    }

    /// Point the index register at the glyph for the digit in `Vx`.
    fn op_Fx29(&mut self, x: u8)
        requires
            old(self)@.wf(),
            x < 16,
        ensures
            final(self)@.wf(),
            final(self)@ == spec_op_fx29(old(self)@, x as int),
    {
        self.i_reg = self.v_reg[x as usize] as u16 * 5;
    }

    /// Store the three decimal digits of `Vx` at `I`.
    fn op_Fx33(&mut self, x: u8)
        requires
            old(self)@.wf(),
            x < 16,
            old(self)@.i_reg + 3 <= RAM_SIZE,
        ensures
            final(self)@.wf(),
            final(self)@ == spec_op_fx33(old(self)@, x as int),
    {
        let b = self.v_reg[x as usize];
        let i0 = self.i_reg as usize;
        self.ram[i0] = b / 100;
        self.ram[i0 + 1] = (b / 10) % 10;
        self.ram[i0 + 2] = b % 10;
    }

    /// Copy `V0 ..= Vx` into memory at `I`.
    fn op_Fx55(&mut self, x: u8)
        requires
            old(self)@.wf(),
            x < 16,
            old(self)@.i_reg + x + 1 <= RAM_SIZE,
        ensures
            final(self)@.wf(),
            final(self)@ == spec_op_fx55(old(self)@, x as int),
    {
        let ghost pre = self@;
        let i0 = self.i_reg as usize;
        let mut j: usize = 0;
        while j <= x as usize
            invariant
                pre.wf(),
                x < 16,
                j <= x + 1,
                i0 == pre.i_reg,
                i0 + x + 1 <= RAM_SIZE,
                self.ram@.len() == RAM_SIZE,
                self.vram@ == pre.vram,
                self.render == pre.render,
                self.v_reg@ == pre.v_reg,
                self.i_reg == pre.i_reg,
                self.delay_timer == pre.delay_timer,
                self.sound_timer == pre.sound_timer,
                self.pc == pre.pc,
                self.sp == pre.sp,
                self.stack@ == pre.stack,
                self.keys@ == pre.keys,
                forall|k: int| 0 <= k < RAM_SIZE ==> (#[trigger] self.ram@[k]) == (
                    if i0 <= k < i0 + j { pre.v_reg[k - i0] } else { pre.ram[k] }),
            decreases x + 1 - j,
        {
            let v = self.v_reg[j];
            self.ram[i0 + j] = v;
            j += 1;
        }
        proof {
            assert(self@.ram =~= spec_op_fx55(pre, x as int).ram);
            assert(self@ =~= spec_op_fx55(pre, x as int));
        }
    }

    /// Copy memory at `I` into `V0 ..= Vx`.
    fn op_Fx65(&mut self, x: u8)
        requires
            old(self)@.wf(),
            x < 16,
            old(self)@.i_reg + x + 1 <= RAM_SIZE,
        ensures
            final(self)@.wf(),
            final(self)@ == spec_op_fx65(old(self)@, x as int),
    {
        let ghost pre = self@;
        let i0 = self.i_reg as usize;
        let mut j: usize = 0;
        while j <= x as usize
            invariant
                pre.wf(),
                x < 16,
                j <= x + 1,
                i0 == pre.i_reg,
                i0 + x + 1 <= RAM_SIZE,
                self.ram@ == pre.ram,
                self.vram@ == pre.vram,
                self.render == pre.render,
                self.v_reg@.len() == NUM_REGS,
                self.i_reg == pre.i_reg,
                self.delay_timer == pre.delay_timer,
                self.sound_timer == pre.sound_timer,
                self.pc == pre.pc,
                self.sp == pre.sp,
                self.stack@ == pre.stack,
                self.keys@ == pre.keys,
                forall|k: int| 0 <= k < NUM_REGS ==> (#[trigger] self.v_reg@[k]) == (
                    if k < j { pre.ram[i0 + k] } else { pre.v_reg[k] }),
            decreases x + 1 - j,
        {
            let v = self.ram[i0 + j];
            self.v_reg[j] = v;
            j += 1;
        }
        proof {
            assert(self@.v_reg =~= spec_op_fx65(pre, x as int).v_reg);
            assert(self@ =~= spec_op_fx65(pre, x as int));
        }
    }
}

} // verus!
