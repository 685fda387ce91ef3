use vstd::prelude::*;

use crate::font::{font_glyphs, FONT_SIZE, FONT_STANDARD, GLYPH_BYTES};
use crate::opcode::{decode_instruction, Instruction};
use crate::state::{
    add_imm, add_reg, add_to_index, call, clear_screen, collides, cycle_spec, draw, drawn_pixels,
    dump_registers, execute_spec, fetch_spec, font_char, initial_state, is_first_pressed, jump,
    jump_offset, key_wait, load_registers, outcome, random_and, return_from_call, set_imm,
    set_index, shift_left, shift_right, skip_on_key, sprite_bit, store_bcd, sub_reg,
    sub_reg_reversed, timers_ticked, wait_for_key, with_program, Fault, ProcessorState,
    DISPLAY_HEIGHT, DISPLAY_SIZE, DISPLAY_WIDTH, FLAG, NUM_REGISTERS, PROGRAM_START, RAM_SIZE,
    STACK_DEPTH,
};

verus! {

/// The whole CHIP-8 machine, exclusively owned and changed only through its methods.
pub struct Processor {
    v: [u8; 16],
    idxr: u16,
    pc: usize,
    ram: [u8; 4096],
    vram: [u8; 2048],
    draw_flag: bool,
    stack: [usize; 16],
    sp: usize,
    waiting_for_key: bool,
    key_register: usize,
    delay_timer: u8,
    sound_timer: u8,
}

impl View for Processor {
    type V = ProcessorState;

    closed spec fn view(&self) -> ProcessorState {
        ProcessorState {
            v: self.v@,
            index: self.idxr,
            pc: self.pc,
            ram: self.ram@,
            vram: self.vram@,
            draw_flag: self.draw_flag,
            stack: self.stack@,
            sp: self.sp,
            waiting_for_key: self.waiting_for_key,
            key_register: self.key_register,
            delay_timer: self.delay_timer,
            sound_timer: self.sound_timer,
        }
    }
}

impl Processor {
    /// The machine's invariant.
    pub open spec fn wf(&self) -> bool {
        self@.wf()
    }

    /// A machine with the font loaded at address 0, all other state zeroed, and
    /// execution starting at the program start.
    pub fn initialize() -> (r: Processor)
        ensures
            r.wf(),
            r@ == initial_state(),
    {
        let mut ram = [0u8; 4096];
        let mut i: usize = 0;
        while i < FONT_SIZE
            invariant
                i <= FONT_SIZE,
                forall|a: int| 0 <= a < i ==> ram@[a] == font_glyphs()[a],
                forall|a: int| i <= a < RAM_SIZE ==> ram@[a] == 0,
            decreases FONT_SIZE - i,
        {
            ram[i] = FONT_STANDARD[i];
            i += 1;
        }
        let r = Processor {
            v: [0u8; 16],
            idxr: 0,
            pc: PROGRAM_START,
            ram,
            vram: [0u8; 2048],
            draw_flag: false,
            stack: [0usize; 16],
            sp: 0,
            waiting_for_key: false,
            key_register: 0,
            delay_timer: 0,
            sound_timer: 0,
        };
        assert(r@.v =~= initial_state().v);
        assert(r@.ram =~= initial_state().ram);
        assert(r@.vram =~= initial_state().vram);
        assert(r@.stack =~= initial_state().stack);
        r
    }

    /// The big-endian instruction word at the program counter.
    fn fetch_opcode(&self) -> (r: u16)
        requires
            self.wf(),
            self.pc + 1 < RAM_SIZE,
        ensures
            r == fetch_spec(self@),
    {
        let byte1 = self.ram[self.pc] as u16;
        let byte2 = self.ram[self.pc + 1] as u16;
        assert((byte1 << 8u16 | byte2) == byte1 * 256 + byte2) by (bit_vector)
            requires
                byte1 < 256,
                byte2 < 256,
        ;
        byte1 << 8 | byte2
    }

    /// Clear screen.
    fn op_00e0(&mut self)
        requires
            old(self).wf(),
            old(self).pc + 1 < RAM_SIZE,
        ensures
            final(self).wf(),
            final(self)@ == clear_screen(old(self)@),
    {
        self.vram = [0u8; 2048];
        self.draw_flag = true;
        self.pc += 2;
        assert(self@.vram =~= clear_screen(old(self)@).vram);
    }

    /// Return from a subroutine.
    fn op_00ee(&mut self) -> (r: Result<(), Fault>)
        requires
            old(self).wf(),
        ensures
            final(self).wf(),
            outcome(old(self)@, final(self)@, r, return_from_call(old(self)@)),
    {
        if self.sp == 0 {
            return Err(Fault::StackUnderflow);
        }
        self.sp -= 1;
        self.pc = self.stack[self.sp];
        Ok(())
    }

    /// Jump to address `nnn`.
    fn op_1nnn(&mut self, addr: u16)
        requires
            old(self).wf(),
        ensures
            final(self).wf(),
            final(self)@ == jump(old(self)@, addr),
    {
        self.pc = addr as usize;
    }

    /// Call the subroutine at `nnn`.
    fn op_2nnn(&mut self, addr: u16) -> (r: Result<(), Fault>)
        requires
            old(self).wf(),
            old(self).pc + 1 < RAM_SIZE,
        ensures
            final(self).wf(),
            outcome(old(self)@, final(self)@, r, call(old(self)@, addr)),
    {
        if self.sp >= STACK_DEPTH {
            return Err(Fault::StackOverflow);
        }
        self.stack[self.sp] = self.pc + 2;
        self.sp += 1;
        self.pc = addr as usize;
        Ok(())
    }

    /// Skip the next instruction if `Vx == nn`.
    fn op_3xnn(&mut self, x: usize, nn: u8)
        requires
            old(self).wf(),
            old(self).pc + 1 < RAM_SIZE,
            x < NUM_REGISTERS,
        ensures
            final(self).wf(),
            final(self)@ == old(self)@.skip_if(old(self)@.v[x as int] == nn),
    {
        if self.v[x] == nn {
            self.pc += 4;
        } else {
            self.pc += 2;
        }
    }

    /// Skip the next instruction if `Vx != nn`.
    fn op_4xnn(&mut self, x: usize, nn: u8)
        requires
            old(self).wf(),
            old(self).pc + 1 < RAM_SIZE,
            x < NUM_REGISTERS,
        ensures
            final(self).wf(),
            final(self)@ == old(self)@.skip_if(old(self)@.v[x as int] != nn),
    {
        if self.v[x] == nn {
            self.pc += 2;
        } else {
            self.pc += 4;
        }
    }

    /// Skip the next instruction if `Vx == Vy`.
    fn op_5xy0(&mut self, x: usize, y: usize)
        requires
            old(self).wf(),
            old(self).pc + 1 < RAM_SIZE,
            x < NUM_REGISTERS,
            y < NUM_REGISTERS,
        ensures
            final(self).wf(),
            final(self)@ == old(self)@.skip_if(old(self)@.v[x as int] == old(self)@.v[y as int]),
    {
        if self.v[x] == self.v[y] {
            self.pc += 4;
        } else {
            self.pc += 2;
        }
    }

    /// Set `Vx` to `nn`.
    fn op_6xnn(&mut self, x: usize, nn: u8)
        requires
            old(self).wf(),
            old(self).pc + 1 < RAM_SIZE,
            x < NUM_REGISTERS,
        ensures
            final(self).wf(),
            final(self)@ == set_imm(old(self)@, x as int, nn),
    {
        self.v[x] = nn;
        self.pc += 2;
        assert(self@.v =~= set_imm(old(self)@, x as int, nn).v);
    }

    /// Add `nn` to `Vx`, wrapping, without touching VF.
    fn op_7xnn(&mut self, x: usize, nn: u8)
        requires
            old(self).wf(),
            old(self).pc + 1 < RAM_SIZE,
            x < NUM_REGISTERS,
        ensures
            final(self).wf(),
            final(self)@ == add_imm(old(self)@, x as int, nn),
    {
        self.v[x] = self.v[x].wrapping_add(nn);
        self.pc += 2;
        assert(self@.v =~= add_imm(old(self)@, x as int, nn).v);
    }

    /// Set `Vx` to `Vy`.
    fn op_8xy0(&mut self, x: usize, y: usize)
        requires
            old(self).wf(),
            old(self).pc + 1 < RAM_SIZE,
            x < NUM_REGISTERS,
            y < NUM_REGISTERS,
        ensures
            final(self).wf(),
            final(self)@ == old(self)@.set_reg(x as int, old(self)@.v[y as int]).next(),
    {
        self.v[x] = self.v[y];
        self.pc += 2;
        assert(self@.v =~= (old(self)@.set_reg(x as int, old(self)@.v[y as int]).next()).v);
    }

    /// Set `Vx` to `Vx | Vy`.
    fn op_8xy1(&mut self, x: usize, y: usize)
        requires
            old(self).wf(),
            old(self).pc + 1 < RAM_SIZE,
            x < NUM_REGISTERS,
            y < NUM_REGISTERS,
        ensures
            final(self).wf(),
            final(self)@ == old(self)@.set_reg(x as int, old(self)@.v[x as int] | old(self)@.v[y as int]).next(),
    {
        self.v[x] = self.v[x] | self.v[y];
        self.pc += 2;
        assert(self@.v =~= (old(self)@.set_reg(x as int, old(self)@.v[x as int] | old(self)@.v[y as int]).next()).v);
    }

    /// Set `Vx` to `Vx & Vy`.
    fn op_8xy2(&mut self, x: usize, y: usize)
        requires
            old(self).wf(),
            old(self).pc + 1 < RAM_SIZE,
            x < NUM_REGISTERS,
            y < NUM_REGISTERS,
        ensures
            final(self).wf(),
            final(self)@ == old(self)@.set_reg(x as int, old(self)@.v[x as int] & old(self)@.v[y as int]).next(),
    {
        self.v[x] = self.v[x] & self.v[y];
        self.pc += 2;
        assert(self@.v =~= (old(self)@.set_reg(x as int, old(self)@.v[x as int] & old(self)@.v[y as int]).next()).v);
    }

    /// Set `Vx` to `Vx ^ Vy`.
    fn op_8xy3(&mut self, x: usize, y: usize)
        requires
            old(self).wf(),
            old(self).pc + 1 < RAM_SIZE,
            x < NUM_REGISTERS,
            y < NUM_REGISTERS,
        ensures
            final(self).wf(),
            final(self)@ == old(self)@.set_reg(x as int, old(self)@.v[x as int] ^ old(self)@.v[y as int]).next(),
    {
        self.v[x] = self.v[x] ^ self.v[y];
        self.pc += 2;
        assert(self@.v =~= (old(self)@.set_reg(x as int, old(self)@.v[x as int] ^ old(self)@.v[y as int]).next()).v);
    }

    /// Add `Vy` to `Vx`, wrapping; VF is the carry.
    fn op_8xy4(&mut self, x: usize, y: usize)
        requires
            old(self).wf(),
            old(self).pc + 1 < RAM_SIZE,
            x < NUM_REGISTERS,
            y < NUM_REGISTERS,
        ensures
            final(self).wf(),
            final(self)@ == add_reg(old(self)@, x as int, y as int),
    {
        let sum = self.v[x] as u16 + self.v[y] as u16;
        self.v[x] = (sum % 256) as u8;
        self.v[FLAG] = if sum > 0xff { 1 } else { 0 };
        self.pc += 2;
        assert(self@.v =~= (add_reg(old(self)@, x as int, y as int)).v);
    }

    /// Subtract `Vy` from `Vx`, wrapping; VF is 1 when there is no borrow.
    fn op_8xy5(&mut self, x: usize, y: usize)
        requires
            old(self).wf(),
            old(self).pc + 1 < RAM_SIZE,
            x < NUM_REGISTERS,
            y < NUM_REGISTERS,
        ensures
            final(self).wf(),
            final(self)@ == sub_reg(old(self)@, x as int, y as int),
    {
        self.v[FLAG] = if self.v[x] > self.v[y] { 1 } else { 0 };
        self.v[x] = self.v[x].wrapping_sub(self.v[y]);
        self.pc += 2;
        assert(self@.v =~= (sub_reg(old(self)@, x as int, y as int)).v);
    }

    /// Store the low bit of `Vx` in VF, then shift `Vx` right by one.
    fn op_8xy6(&mut self, x: usize)
        requires
            old(self).wf(),
            old(self).pc + 1 < RAM_SIZE,
            x < NUM_REGISTERS,
        ensures
            final(self).wf(),
            final(self)@ == shift_right(old(self)@, x as int),
    {
        self.v[FLAG] = self.v[x] % 2;
        self.v[x] = self.v[x] / 2;
        self.pc += 2;
        assert(self@.v =~= (shift_right(old(self)@, x as int)).v);
    }

    /// Set `Vx` to `Vy - Vx`, wrapping; VF is 1 when `Vx <= Vy`.
    fn op_8xy7(&mut self, x: usize, y: usize)
        requires
            old(self).wf(),
            old(self).pc + 1 < RAM_SIZE,
            x < NUM_REGISTERS,
            y < NUM_REGISTERS,
        ensures
            final(self).wf(),
            final(self)@ == sub_reg_reversed(old(self)@, x as int, y as int),
    {
        self.v[FLAG] = if self.v[x] <= self.v[y] { 1 } else { 0 };
        self.v[x] = self.v[y].wrapping_sub(self.v[x]);
        self.pc += 2;
        assert(self@.v =~= (sub_reg_reversed(old(self)@, x as int, y as int)).v);
    }

    /// Store the high bit of `Vx` in VF, then shift `Vx` left by one, wrapping.
    fn op_8xye(&mut self, x: usize)
        requires
            old(self).wf(),
            old(self).pc + 1 < RAM_SIZE,
            x < NUM_REGISTERS,
        ensures
            final(self).wf(),
            final(self)@ == shift_left(old(self)@, x as int),
    {
        self.v[FLAG] = self.v[x] / 128;
        self.v[x] = ((self.v[x] as u16 * 2) % 256) as u8;
        self.pc += 2;
        assert(self@.v =~= (shift_left(old(self)@, x as int)).v);
    }

    /// Set `Vx` to the delay timer.
    fn op_fx07(&mut self, x: usize)
        requires
            old(self).wf(),
            old(self).pc + 1 < RAM_SIZE,
            x < NUM_REGISTERS,
        ensures
            final(self).wf(),
            final(self)@ == old(self)@.set_reg(x as int, old(self)@.delay_timer).next(),
    {
        self.v[x] = self.delay_timer;
        self.pc += 2;
        assert(self@.v =~= (old(self)@.set_reg(x as int, old(self)@.delay_timer).next()).v);
    }

    /// Add `Vx` to I in 16 bits; VF tells whether I passed 0xFFF.
    fn op_fx1e(&mut self, x: usize)
        requires
            old(self).wf(),
            old(self).pc + 1 < RAM_SIZE,
            x < NUM_REGISTERS,
        ensures
            final(self).wf(),
            final(self)@ == add_to_index(old(self)@, x as int),
    {
        self.idxr = self.idxr.wrapping_add(self.v[x] as u16);
        self.v[FLAG] = if self.idxr > 0xfff { 1 } else { 0 };
        self.pc += 2;
        assert(self@.v =~= (add_to_index(old(self)@, x as int)).v);
    }

    /// Skip the next instruction if `Vx != Vy`.
    fn op_9xy0(&mut self, x: usize, y: usize)
        requires
            old(self).wf(),
            old(self).pc + 1 < RAM_SIZE,
            x < NUM_REGISTERS,
            y < NUM_REGISTERS,
        ensures
            final(self).wf(),
            final(self)@ == old(self)@.skip_if(old(self)@.v[x as int] != old(self)@.v[y as int]),
    {
        if self.v[x] != self.v[y] {
            self.pc += 4;
        } else {
            self.pc += 2;
        }
    }

    /// Set I to `nnn`.
    fn op_annn(&mut self, addr: u16)
        requires
            old(self).wf(),
            old(self).pc + 1 < RAM_SIZE,
        ensures
            final(self).wf(),
            final(self)@ == set_index(old(self)@, addr),
    {
        self.idxr = addr;
        self.pc += 2;
    }

    /// Jump to `nnn + V0`.
    fn op_bnnn(&mut self, addr: u16)
        requires
            old(self).wf(),
            addr < 0x1000,
        ensures
            final(self).wf(),
            final(self)@ == jump_offset(old(self)@, addr),
    {
        self.pc = addr as usize + self.v[0] as usize;
    }

    /// Set `Vx` to `random & nn`.
    fn op_cxnn(&mut self, x: usize, nn: u8, random: u8)
        requires
            old(self).wf(),
            old(self).pc + 1 < RAM_SIZE,
            x < NUM_REGISTERS,
        ensures
            final(self).wf(),
            final(self)@ == random_and(old(self)@, x as int, nn, random),
    {
        self.v[x] = random & nn;
        self.pc += 2;
        assert(self@.v =~= random_and(old(self)@, x as int, nn, random).v);
    }

    /// Skip the next instruction if the key numbered `Vx` is pressed.
    fn op_ex9e(&mut self, x: usize, keys: &[bool; 16]) -> (r: Result<(), Fault>)
        requires
            old(self).wf(),
            old(self).pc + 1 < RAM_SIZE,
            x < NUM_REGISTERS,
        ensures
            final(self).wf(),
            outcome(old(self)@, final(self)@, r, skip_on_key(old(self)@, x as int, keys@, true)),
    {
        let key = self.v[x] as usize;
        if key >= NUM_REGISTERS {
            return Err(Fault::KeyOutOfRange);
        }
        if keys[key] {
            self.pc += 4;
        } else {
            self.pc += 2;
        }
        Ok(())
    }

    /// Skip the next instruction if the key numbered `Vx` is not pressed.
    fn op_exa1(&mut self, x: usize, keys: &[bool; 16]) -> (r: Result<(), Fault>)
        requires
            old(self).wf(),
            old(self).pc + 1 < RAM_SIZE,
            x < NUM_REGISTERS,
        ensures
            final(self).wf(),
            outcome(old(self)@, final(self)@, r, skip_on_key(old(self)@, x as int, keys@, false)),
    {
        let key = self.v[x] as usize;
        if key >= NUM_REGISTERS {
            return Err(Fault::KeyOutOfRange);
        }
        if keys[key] {
            self.pc += 2;
        } else {
            self.pc += 4;
        }
        Ok(())
    }

    /// Await a key press, to be stored in `Vx`.
    fn op_fx0a(&mut self, x: usize)
        requires
            old(self).wf(),
            old(self).pc + 1 < RAM_SIZE,
            x < NUM_REGISTERS,
        ensures
            final(self).wf(),
            final(self)@ == wait_for_key(old(self)@, x as int),
    {
        self.waiting_for_key = true;
        self.key_register = x;
        self.pc += 2;
    }

    /// Set the delay timer to `Vx`.
    fn op_fx15(&mut self, x: usize)
        requires
            old(self).wf(),
            old(self).pc + 1 < RAM_SIZE,
            x < NUM_REGISTERS,
        ensures
            final(self).wf(),
            final(self)@ == (ProcessorState { delay_timer: old(self)@.v[x as int], ..old(self)@ }).next(),
    {
        self.delay_timer = self.v[x];
        self.pc += 2;
    }

    /// Set the sound timer to `Vx`.
    fn op_fx18(&mut self, x: usize)
        requires
            old(self).wf(),
            old(self).pc + 1 < RAM_SIZE,
            x < NUM_REGISTERS,
        ensures
            final(self).wf(),
            final(self)@ == (ProcessorState { sound_timer: old(self)@.v[x as int], ..old(self)@ }).next(),
    {
        self.sound_timer = self.v[x];
        self.pc += 2;
    }

    /// Point I at the font glyph of the digit in `Vx`.
    fn op_fx29(&mut self, x: usize)
        requires
            old(self).wf(),
            old(self).pc + 1 < RAM_SIZE,
            x < NUM_REGISTERS,
        ensures
            final(self).wf(),
            final(self)@ == font_char(old(self)@, x as int),
    {
        self.idxr = (self.v[x] as usize * GLYPH_BYTES) as u16;
        self.pc += 2;
    }

    /// Store the decimal digits of `Vx` at I, I + 1 and I + 2.
    fn op_fx33(&mut self, x: usize) -> (r: Result<(), Fault>)
        requires
            old(self).wf(),
            old(self).pc + 1 < RAM_SIZE,
            x < NUM_REGISTERS,
        ensures
            final(self).wf(),
            outcome(old(self)@, final(self)@, r, store_bcd(old(self)@, x as int)),
    {
        let i = self.idxr as usize;
        if i + 2 >= RAM_SIZE {
            return Err(Fault::MemoryOutOfBounds);
        }
        let val = self.v[x];
        self.ram[i] = val / 100;
        self.ram[i + 1] = (val % 100) / 10;
        self.ram[i + 2] = val % 10;
        self.pc += 2;
        assert(self@.ram =~= store_bcd(old(self)@, x as int).unwrap().ram);
        Ok(())
    }

    /// Store `V0..=Vx` in memory from I on.
    fn op_fx55(&mut self, x: usize) -> (r: Result<(), Fault>)
        requires
            old(self).wf(),
            old(self).pc + 1 < RAM_SIZE,
            x < NUM_REGISTERS,
        ensures
            final(self).wf(),
            outcome(old(self)@, final(self)@, r, dump_registers(old(self)@, x as int)),
    {
        let base = self.idxr as usize;
        if base + x >= RAM_SIZE {
            return Err(Fault::MemoryOutOfBounds);
        }
        let mut i: usize = 0;
        while i <= x
            invariant
                x < NUM_REGISTERS,
                base == old(self)@.index,
                base + x < RAM_SIZE,
                i <= x + 1,
                self@ == (ProcessorState { ram: self@.ram, ..old(self)@ }),
                forall|a: int|
                    0 <= a < RAM_SIZE ==> #[trigger] self@.ram[a] == if base <= a < base + i {
                        old(self)@.v[a - base]
                    } else {
                        old(self)@.ram[a]
                    },
            decreases x + 1 - i,
        {
            self.ram[base + i] = self.v[i];
            i += 1;
        }
        self.pc += 2;
        assert(self@.ram =~= dump_registers(old(self)@, x as int).unwrap().ram);
        Ok(())
    }

    /// Fill `V0..=Vx` from memory from I on.
    fn op_fx65(&mut self, x: usize) -> (r: Result<(), Fault>)
        requires
            old(self).wf(),
            old(self).pc + 1 < RAM_SIZE,
            x < NUM_REGISTERS,
        ensures
            final(self).wf(),
            outcome(old(self)@, final(self)@, r, load_registers(old(self)@, x as int)),
    {
        let base = self.idxr as usize;
        if base + x >= RAM_SIZE {
            return Err(Fault::MemoryOutOfBounds);
        }
        let mut i: usize = 0;
        while i <= x
            invariant
                x < NUM_REGISTERS,
                base == old(self)@.index,
                base + x < RAM_SIZE,
                i <= x + 1,
                self@ == (ProcessorState { v: self@.v, ..old(self)@ }),
                forall|r: int|
                    0 <= r < NUM_REGISTERS ==> #[trigger] self@.v[r] == if r < i {
                        old(self)@.ram[base + r]
                    } else {
                        old(self)@.v[r]
                    },
            decreases x + 1 - i,
        {
            self.v[i] = self.ram[base + i];
            i += 1;
        }
        self.pc += 2;
        assert(self@.v =~= load_registers(old(self)@, x as int).unwrap().v);
        Ok(())
    }

    /// Draw the `n`-row sprite at I at (`Vx`, `Vy`), XOR-ing each sprite bit onto
    /// the display with both axes wrapping; VF tells whether a set pixel was
    /// turned off.
    fn op_dxyn(&mut self, x: usize, y: usize, n: u8) -> (r: Result<(), Fault>)
        requires
            old(self).wf(),
            old(self).pc + 1 < RAM_SIZE,
            x < NUM_REGISTERS,
            y < NUM_REGISTERS,
            n < 16,
        ensures
            final(self).wf(),
            outcome(old(self)@, final(self)@, r, draw(old(self)@, x as int, y as int, n as int)),
    {
        let index = self.idxr as usize;
        let rows = n as usize;
        if index + rows > RAM_SIZE {
            return Err(Fault::MemoryOutOfBounds);
        }
        let vx = self.v[x] as usize;
        let vy = self.v[y] as usize;
        let ghost sp = Sprite { ram: self@.ram, index: index as int, n: rows as int, vx: vx as int, vy: vy as int };
        let ghost before = self@.vram;
        let mut vram = self.vram;
        let mut collided = false;
        let mut row: usize = 0;
        proof {
            lemma_partial_start(before, sp);
        }
        while row < rows
            invariant
                self@ == old(self)@,
                sp == (Sprite { ram: self@.ram, index: index as int, n: rows as int, vx: vx as int, vy: vy as int }),
                before == self@.vram,
                before.len() == DISPLAY_SIZE,
                index + rows <= RAM_SIZE,
                vx < 256,
                vy < 256,
                rows < 16,
                row <= rows,
                vram@ == partial_draw(before, sp, row as int, 0),
                collided == partial_collides(before, sp, row as int, 0),
            decreases rows - row,
        {
            let data = self.ram[index + row];
            let mut col: usize = 0;
            while col < 8
                invariant
                    self@ == old(self)@,
                    sp == (Sprite { ram: self@.ram, index: index as int, n: rows as int, vx: vx as int, vy: vy as int }),
                    before == self@.vram,
                    before.len() == DISPLAY_SIZE,
                    index + rows <= RAM_SIZE,
                    vx < 256,
                    vy < 256,
                    rows < 16,
                    row < rows,
                    col <= 8,
                    data == sp.ram[index + row],
                    vram@ == partial_draw(before, sp, row as int, col as int),
                    collided == partial_collides(before, sp, row as int, col as int),
                decreases 8 - col,
            {
                let target = (vx + col) % DISPLAY_WIDTH + ((vy + row) % DISPLAY_HEIGHT) * DISPLAY_WIDTH;
                let shift = (7 - col) as u8;
                let bit = (data >> shift) & 1;
                proof {
                    lemma_draw_step(before, sp, row as int, col as int);
                }
                let prev = vram[target];
                if prev == 1 && bit == 1 {
                    collided = true;
                }
                vram[target] = prev ^ bit;
                col += 1;
            }
            proof {
                lemma_next_row(before, sp, row as int);
            }
            row += 1;
        }
        proof {
            lemma_partial_done(before, sp);
        }
        self.vram = vram;
        self.v[FLAG] = if collided { 1 } else { 0 };
        self.draw_flag = true;
        self.pc += 2;
        proof {
            let t = draw(old(self)@, x as int, y as int, n as int).unwrap();
            assert(self@.vram =~= t.vram);
            assert(self@.v =~= t.v);
        }
        Ok(())
    }

    /// Resolve a pending key wait: the lowest-numbered pressed key, if any, goes
    /// into the target register and execution resumes.
    fn resolve_key_wait(&mut self, keys: &[bool; 16])
        requires
            old(self).wf(),
        ensures
            final(self).wf(),
            final(self)@ == key_wait(old(self)@, keys@),
    {
        let mut i: usize = 0;
        while i < NUM_REGISTERS
            invariant
                i <= NUM_REGISTERS,
                old(self).wf(),
                *self == *old(self),
                forall|j: int| 0 <= j < i ==> !#[trigger] keys@[j],
            decreases NUM_REGISTERS - i,
        {
            if keys[i] {
                self.waiting_for_key = false;
                self.v[self.key_register] = i as u8;
                proof {
                    assert(is_first_pressed(keys@, i as int));
                    let k = choose|k: int| is_first_pressed(keys@, k);
                    assert(k == i) by {
                        if k < i {
                            assert(!keys@[k]);
                        }
                        if k > i {
                            assert(!keys@[i as int]);
                        }
                    }
                    assert(self@.v =~= key_wait(old(self)@, keys@).v);
                }
                return;
            }
            i += 1;
        }
        assert(!exists|k: int| is_first_pressed(keys@, k));
    }

    /// Execute one decoded instruction.
    fn execute_instruction(&mut self, ins: Instruction, keys: &[bool; 16], random: u8) -> (r: Result<
        (),
        Fault,
    >)
        requires
            old(self).wf(),
            old(self).pc + 1 < RAM_SIZE,
            ins.wf(),
        ensures
            final(self).wf(),
            outcome(old(self)@, final(self)@, r, execute_spec(old(self)@, ins, keys@, random)),
    {
        match ins {
            Instruction::ClearScreen => {
                self.op_00e0();
                Ok(())
            },
            Instruction::Return => self.op_00ee(),
            Instruction::Jump { addr } => {
                self.op_1nnn(addr);
                Ok(())
            },
            Instruction::Call { addr } => self.op_2nnn(addr),
            Instruction::SkipEqImm { x, nn } => {
                self.op_3xnn(x, nn);
                Ok(())
            },
            Instruction::SkipNeqImm { x, nn } => {
                self.op_4xnn(x, nn);
                Ok(())
            },
            Instruction::SkipEqReg { x, y } => {
                self.op_5xy0(x, y);
                Ok(())
            },
            Instruction::SetImm { x, nn } => {
                self.op_6xnn(x, nn);
                Ok(())
            },
            Instruction::AddImm { x, nn } => {
                self.op_7xnn(x, nn);
                Ok(())
            },
            Instruction::SetReg { x, y } => {
                self.op_8xy0(x, y);
                Ok(())
            },
            Instruction::Or { x, y } => {
                self.op_8xy1(x, y);
                Ok(())
            },
            Instruction::And { x, y } => {
                self.op_8xy2(x, y);
                Ok(())
            },
            Instruction::Xor { x, y } => {
                self.op_8xy3(x, y);
                Ok(())
            },
            Instruction::AddReg { x, y } => {
                self.op_8xy4(x, y);
                Ok(())
            },
            Instruction::SubReg { x, y } => {
                self.op_8xy5(x, y);
                Ok(())
            },
            Instruction::ShiftRight { x } => {
                self.op_8xy6(x);
                Ok(())
            },
            Instruction::SubRegReversed { x, y } => {
                self.op_8xy7(x, y);
                Ok(())
            },
            Instruction::ShiftLeft { x } => {
                self.op_8xye(x);
                Ok(())
            },
            Instruction::SkipNeqReg { x, y } => {
                self.op_9xy0(x, y);
                Ok(())
            },
            Instruction::SetIndex { addr } => {
                self.op_annn(addr);
                Ok(())
            },
            Instruction::JumpOffset { addr } => {
                self.op_bnnn(addr);
                Ok(())
            },
            Instruction::RandomAnd { x, nn } => {
                self.op_cxnn(x, nn, random);
                Ok(())
            },
            Instruction::Draw { x, y, n } => self.op_dxyn(x, y, n),
            Instruction::SkipIfKey { x } => self.op_ex9e(x, keys),
            Instruction::SkipIfNotKey { x } => self.op_exa1(x, keys),
            Instruction::GetDelayTimer { x } => {
                self.op_fx07(x);
                Ok(())
            },
            Instruction::WaitForKey { x } => {
                self.op_fx0a(x);
                Ok(())
            },
            Instruction::SetDelayTimer { x } => {
                self.op_fx15(x);
                Ok(())
            },
            Instruction::SetSoundTimer { x } => {
                self.op_fx18(x);
                Ok(())
            },
            Instruction::AddToIndex { x } => {
                self.op_fx1e(x);
                Ok(())
            },
            Instruction::FontChar { x } => {
                self.op_fx29(x);
                Ok(())
            },
            Instruction::StoreBcd { x } => self.op_fx33(x),
            Instruction::DumpRegisters { x } => self.op_fx55(x),
            Instruction::LoadRegisters { x } => self.op_fx65(x),
        }
    }

    /// One cycle with a given random byte (used only by the random-and
    /// instruction): while awaiting a key, look for a pressed one; otherwise
    /// fetch, decode and execute the instruction at the program counter. A fault
    /// leaves the machine unchanged.
    pub fn run_cycle_with_random(&mut self, keys: [bool; 16], random: u8) -> (r: Result<(), Fault>)
        requires
            old(self).wf(),
        ensures
            final(self).wf(),
            outcome(old(self)@, final(self)@, r, cycle_spec(old(self)@, keys@, random)),
    {
        if self.waiting_for_key {
            self.resolve_key_wait(&keys);
            return Ok(());
        }
        if self.pc >= RAM_SIZE - 1 {
            return Err(Fault::MemoryOutOfBounds);
        }
        let opcode = self.fetch_opcode();
        match decode_instruction(opcode) {
            None => Err(Fault::UnknownOpcode { opcode }),
            Some(ins) => {
                proof {
                    crate::opcode::lemma_decoded_wf(opcode);
                }
                self.execute_instruction(ins, &keys, random)
            },
        }
    }

    /// One cycle, as `run_cycle_with_random` with a freshly drawn random byte.
    pub fn run_cycle(&mut self, keys: [bool; 16]) -> (r: Result<(), Fault>)
        requires
            old(self).wf(),
        ensures
            final(self).wf(),
            exists|random: u8| outcome(old(self)@, final(self)@, r, cycle_spec(old(self)@, keys@, random)),
    {
        let random = random_byte();
        self.run_cycle_with_random(keys, random)
    }

    /// Copy a program image into memory at the program start. An image that does
    /// not fit is refused and memory is left as it was.
    pub fn load_program(&mut self, program: &[u8]) -> (r: Result<(), Fault>)
        requires
            old(self).wf(),
        ensures
            final(self).wf(),
            outcome(
                old(self)@,
                final(self)@,
                r,
                if program@.len() > RAM_SIZE - PROGRAM_START {
                    Err(Fault::MemoryOutOfBounds)
                } else {
                    Ok(with_program(old(self)@, program@))
                },
            ),
    {
        if program.len() > RAM_SIZE - PROGRAM_START {
            return Err(Fault::MemoryOutOfBounds);
        }
        let mut i: usize = 0;
        while i < program.len()
            invariant
                program@.len() <= RAM_SIZE - PROGRAM_START,
                i <= program@.len(),
                self@ == (ProcessorState { ram: self@.ram, ..old(self)@ }),
                forall|a: int|
                    0 <= a < RAM_SIZE ==> #[trigger] self@.ram[a] == if PROGRAM_START <= a < PROGRAM_START + i {
                        program@[a - PROGRAM_START]
                    } else {
                        old(self)@.ram[a]
                    },
            decreases program@.len() - i,
        {
            self.ram[PROGRAM_START + i] = program[i];
            i += 1;
        }
        assert(self@.ram =~= with_program(old(self)@, program@).ram);
        Ok(())
    }

    /// One tick of the 60 Hz clock: each timer above zero goes down by one.
    pub fn tick_timers(&mut self)
        requires
            old(self).wf(),
        ensures
            final(self).wf(),
            final(self)@ == timers_ticked(old(self)@),
    {
        if self.delay_timer > 0 {
            self.delay_timer -= 1;
        }
        if self.sound_timer > 0 {
            self.sound_timer -= 1;
        }
    }

    /// The program counter.
    pub fn pc(&self) -> (r: usize)
        ensures
            r == self@.pc,
    {
        self.pc
    }

    /// The index register I.
    pub fn index(&self) -> (r: u16)
        ensures
            r == self@.index,
    {
        self.idxr
    }

    /// Set the index register I.
    pub fn set_index(&mut self, value: u16)
        requires
            old(self).wf(),
        ensures
            final(self).wf(),
            final(self)@ == (ProcessorState { index: value, ..old(self)@ }),
    {
        self.idxr = value;
    }

    /// Register `x`.
    pub fn register(&self, x: usize) -> (r: u8)
        requires
            x < NUM_REGISTERS,
        ensures
            r == self@.v[x as int],
    {
        self.v[x]
    }

    /// All sixteen registers, V0 first.
    pub fn registers(&self) -> (r: [u8; 16])
        ensures
            r@ == self@.v,
    {
        self.v
    }

    /// Set register `x` to `value`.
    pub fn set_register(&mut self, x: usize, value: u8)
        requires
            old(self).wf(),
            x < NUM_REGISTERS,
        ensures
            final(self).wf(),
            final(self)@ == old(self)@.set_reg(x as int, value),
    {
        self.v[x] = value;
    }

    /// Memory, all 4096 bytes.
    pub fn memory(&self) -> (r: &[u8; 4096])
        ensures
            r@ == self@.ram,
    {
        &self.ram
    }

    /// Write one byte of memory.
    pub fn write_memory(&mut self, addr: usize, value: u8)
        requires
            old(self).wf(),
            addr < RAM_SIZE,
        ensures
            final(self).wf(),
            final(self)@ == (ProcessorState { ram: old(self)@.ram.update(addr as int, value), ..old(self)@ }),
    {
        self.ram[addr] = value;
    }

    /// The call stack's entries.
    pub fn stack(&self) -> (r: [usize; 16])
        ensures
            r@ == self@.stack,
    {
        self.stack
    }

    /// The number of entries in use on the call stack.
    pub fn stack_pointer(&self) -> (r: usize)
        ensures
            r == self@.sp,
    {
        self.sp
    }

    /// Whether execution is suspended until a key is pressed.
    pub fn is_waiting_for_key(&self) -> (r: bool)
        ensures
            r == self@.waiting_for_key,
    {
        self.waiting_for_key
    }

    /// The register that receives the awaited key.
    pub fn key_register(&self) -> (r: usize)
        ensures
            r == self@.key_register,
    {
        self.key_register
    }

    /// The display: 64 x 32 pixels of value 0 or 1, row-major.
    pub fn display(&self) -> (r: &[u8; 2048])
        ensures
            r@ == self@.vram,
    {
        &self.vram
    }

    /// Whether the display changed since the host last acknowledged it.
    pub fn needs_redraw(&self) -> (r: bool)
        ensures
            r == self@.draw_flag,
    {
        self.draw_flag
    }

    /// The host has presented the display.
    pub fn acknowledge_redraw(&mut self)
        requires
            old(self).wf(),
        ensures
            final(self).wf(),
            final(self)@ == (ProcessorState { draw_flag: false, ..old(self)@ }),
    {
        self.draw_flag = false;
    }

    /// The delay timer.
    pub fn delay_timer(&self) -> (r: u8)
        ensures
            r == self@.delay_timer,
    {
        self.delay_timer
    }

    /// The sound timer.
    pub fn sound_timer(&self) -> (r: u8)
        ensures
            r == self@.sound_timer,
    {
        self.sound_timer
    }
}

} // verus!

verus! {

/// Relies on rand::random (the thread-local generator's `gen`): a byte drawn at
/// random, of which nothing is known.
#[verifier::external_body]
fn random_byte() -> (r: u8) {
    rand::random::<u8>()
}

/// A sprite being drawn: its rows in memory and its corner on the display.
struct Sprite {
    ram: Seq<u8>,
    index: int,
    n: int,
    vx: int,
    vy: int,
}

/// Pixel `p` lies under a sprite cell that the drawing loop visits before cell
/// (`row`, `col`).
spec fn drawn_before(sp: Sprite, p: int, row: int, col: int) -> bool {
    let c = (p % DISPLAY_WIDTH as int - sp.vx) % DISPLAY_WIDTH as int;
    let r = (p / DISPLAY_WIDTH as int - sp.vy) % DISPLAY_HEIGHT as int;
    c < 8 && r < sp.n && (r < row || (r == row && c < col))
}

spec fn cell_bit(sp: Sprite, p: int) -> u8 {
    sprite_bit(sp.ram, sp.index, sp.n, sp.vx, sp.vy, p)
}

/// The display once the loop has reached cell (`row`, `col`).
spec fn partial_draw(before: Seq<u8>, sp: Sprite, row: int, col: int) -> Seq<u8> {
    Seq::new(
        before.len(),
        |p: int|
            if drawn_before(sp, p, row, col) {
                before[p] ^ cell_bit(sp, p)
            } else {
                before[p]
            },
    )
}

/// A collision among the cells visited before (`row`, `col`).
spec fn partial_collides(before: Seq<u8>, sp: Sprite, row: int, col: int) -> bool {
    exists|p: int|
        0 <= p < before.len() && #[trigger] drawn_before(sp, p, row, col) && before[p] == 1
            && cell_bit(sp, p) == 1
}

spec fn target_of(sp: Sprite, row: int, col: int) -> int {
    (sp.vx + col) % DISPLAY_WIDTH as int + ((sp.vy + row) % DISPLAY_HEIGHT as int) * DISPLAY_WIDTH as int
}

proof fn lemma_partial_start(before: Seq<u8>, sp: Sprite)
    ensures
        partial_draw(before, sp, 0, 0) == before,
        !partial_collides(before, sp, 0, 0),
{
    assert(partial_draw(before, sp, 0, 0) =~= before);
}

/// One step of the drawing loop: cell (`row`, `col`) lands on one pixel, which it
/// has not touched yet; that pixel alone changes, by the cell's bit.
proof fn lemma_draw_step(before: Seq<u8>, sp: Sprite, row: int, col: int)
    requires
        before.len() == DISPLAY_SIZE,
        0 <= sp.vx < 256,
        0 <= sp.vy < 256,
        0 <= row < sp.n < 16,
        0 <= col < 8,
        sp.index + sp.n <= sp.ram.len(),
    ensures
        ({
            let t = target_of(sp, row, col);
            &&& 0 <= t < DISPLAY_SIZE
            &&& partial_draw(before, sp, row, col)[t] == before[t]
            &&& cell_bit(sp, t) == (sp.ram[sp.index + row] >> ((7 - col) as u8)) & 1u8
            &&& partial_draw(before, sp, row, col + 1) == partial_draw(before, sp, row, col).update(
                t,
                before[t] ^ cell_bit(sp, t),
            )
            &&& partial_collides(before, sp, row, col + 1) == (partial_collides(before, sp, row, col)
                || (before[t] == 1 && cell_bit(sp, t) == 1))
        }),
{
    let t = target_of(sp, row, col);
    lemma_target(sp.vx, sp.vy, row, col);
    assert forall|p: int| 0 <= p < DISPLAY_SIZE implies #[trigger] drawn_before(sp, p, row, col + 1)
        == (drawn_before(sp, p, row, col) || p == t) by {
        let c = (p % DISPLAY_WIDTH as int - sp.vx) % DISPLAY_WIDTH as int;
        let r = (p / DISPLAY_WIDTH as int - sp.vy) % DISPLAY_HEIGHT as int;
        if c == col && r == row {
            lemma_target_unique(sp.vx, sp.vy, row, col, p);
        }
    }
    assert(partial_draw(before, sp, row, col + 1) =~= partial_draw(before, sp, row, col).update(
        t,
        before[t] ^ cell_bit(sp, t),
    ));
    if partial_collides(before, sp, row, col + 1) {
        let p = choose|p: int|
            0 <= p < before.len() && #[trigger] drawn_before(sp, p, row, col + 1) && before[p] == 1
                && cell_bit(sp, p) == 1;
        if p != t {
            assert(drawn_before(sp, p, row, col));
        }
    }
    if partial_collides(before, sp, row, col) {
        let p = choose|p: int|
            0 <= p < before.len() && #[trigger] drawn_before(sp, p, row, col) && before[p] == 1
                && cell_bit(sp, p) == 1;
        assert(drawn_before(sp, p, row, col + 1));
    }
    if before[t] == 1 && cell_bit(sp, t) == 1 {
        assert(drawn_before(sp, t, row, col + 1));
    }
}

/// Finishing a row's eight cells is starting the next row.
proof fn lemma_next_row(before: Seq<u8>, sp: Sprite, row: int)
    ensures
        partial_draw(before, sp, row, 8) == partial_draw(before, sp, row + 1, 0),
        partial_collides(before, sp, row, 8) == partial_collides(before, sp, row + 1, 0),
{
    assert forall|p: int| #[trigger] drawn_before(sp, p, row, 8) == drawn_before(sp, p, row + 1, 0) by {}
    assert(partial_draw(before, sp, row, 8) =~= partial_draw(before, sp, row + 1, 0));
    if partial_collides(before, sp, row, 8) {
        let p = choose|p: int|
            0 <= p < before.len() && #[trigger] drawn_before(sp, p, row, 8) && before[p] == 1
                && cell_bit(sp, p) == 1;
        assert(drawn_before(sp, p, row + 1, 0));
    }
    if partial_collides(before, sp, row + 1, 0) {
        let p = choose|p: int|
            0 <= p < before.len() && #[trigger] drawn_before(sp, p, row + 1, 0) && before[p] == 1
                && cell_bit(sp, p) == 1;
        assert(drawn_before(sp, p, row, 8));
    }
}

/// After all rows the loop state is the modelled drawing.
proof fn lemma_partial_done(before: Seq<u8>, sp: Sprite)
    requires
        before.len() == DISPLAY_SIZE,
        forall|p: int| 0 <= p < DISPLAY_SIZE ==> #[trigger] before[p] <= 1,
    ensures
        partial_draw(before, sp, sp.n, 0) == drawn_pixels(before, sp.ram, sp.index, sp.n, sp.vx, sp.vy),
        partial_collides(before, sp, sp.n, 0) == collides(before, sp.ram, sp.index, sp.n, sp.vx, sp.vy),
        forall|p: int|
            0 <= p < DISPLAY_SIZE ==> #[trigger] partial_draw(before, sp, sp.n, 0)[p] <= 1,
{
    assert forall|p: int| 0 <= p < DISPLAY_SIZE implies #[trigger] partial_draw(before, sp, sp.n, 0)[p]
        == drawn_pixels(before, sp.ram, sp.index, sp.n, sp.vx, sp.vy)[p] && partial_draw(
        before,
        sp,
        sp.n,
        0,
    )[p] <= 1 by {
        let b = before[p];
        let s = cell_bit(sp, p);
        let c = (p % DISPLAY_WIDTH as int - sp.vx) % DISPLAY_WIDTH as int;
        let r = (p / DISPLAY_WIDTH as int - sp.vy) % DISPLAY_HEIGHT as int;
        if c < 8 && r < sp.n {
            let byte = sp.ram[sp.index + r];
            let sh = (7 - c) as u8;
            assert((byte >> sh) & 1u8 <= 1) by (bit_vector);
            assert(drawn_before(sp, p, sp.n, 0));
            assert(b <= 1 && s <= 1 ==> b ^ s <= 1) by (bit_vector);
        } else {
            assert(!drawn_before(sp, p, sp.n, 0));
            assert(s == 0);
            assert(b ^ 0u8 == b) by (bit_vector);
        }
    }
    assert(partial_draw(before, sp, sp.n, 0) =~= drawn_pixels(before, sp.ram, sp.index, sp.n, sp.vx, sp.vy));
    if partial_collides(before, sp, sp.n, 0) {
        let p = choose|p: int|
            0 <= p < before.len() && #[trigger] drawn_before(sp, p, sp.n, 0) && before[p] == 1
                && cell_bit(sp, p) == 1;
        assert(sprite_bit(sp.ram, sp.index, sp.n, sp.vx, sp.vy, p) == 1);
    }
    if collides(before, sp.ram, sp.index, sp.n, sp.vx, sp.vy) {
        let p = choose|p: int|
            0 <= p < DISPLAY_SIZE && before[p] == 1 && #[trigger] sprite_bit(sp.ram, sp.index, sp.n, sp.vx, sp.vy, p) == 1;
        assert(cell_bit(sp, p) == 1);
        if !drawn_before(sp, p, sp.n, 0) {
            assert(cell_bit(sp, p) == 0);
        }
    }
}

/// The pixel that sprite cell (`row`, `col`) lands on lies on the display and
/// maps back to that cell.
proof fn lemma_target(vx: int, vy: int, row: int, col: int)
    requires
        0 <= vx < 256,
        0 <= vy < 256,
        0 <= row < 16,
        0 <= col < 8,
    ensures
        ({
            let t = (vx + col) % DISPLAY_WIDTH as int + ((vy + row) % DISPLAY_HEIGHT as int) * DISPLAY_WIDTH as int;
            &&& 0 <= t < DISPLAY_SIZE
            &&& (t % DISPLAY_WIDTH as int - vx) % DISPLAY_WIDTH as int == col
            &&& (t / DISPLAY_WIDTH as int - vy) % DISPLAY_HEIGHT as int == row
        }),
{
    let a = (vx + col) % 64;
    let b = (vy + row) % 32;
    let t = a + b * 64;
    assert(t % 64 == a && t / 64 == b) by (nonlinear_arith)
        requires
            0 <= a < 64,
            0 <= b < 32,
            t == a + b * 64,
    ;
}

/// No other pixel maps back to sprite cell (`row`, `col`).
proof fn lemma_target_unique(vx: int, vy: int, row: int, col: int, p: int)
    requires
        0 <= vx < 256,
        0 <= vy < 256,
        0 <= row < 16,
        0 <= col < 8,
        0 <= p < DISPLAY_SIZE,
        (p % DISPLAY_WIDTH as int - vx) % DISPLAY_WIDTH as int == col,
        (p / DISPLAY_WIDTH as int - vy) % DISPLAY_HEIGHT as int == row,
    ensures
        p == (vx + col) % DISPLAY_WIDTH as int + ((vy + row) % DISPLAY_HEIGHT as int) * DISPLAY_WIDTH as int,
{
    let a = p % 64;
    let b = p / 64;
    assert(p == a + b * 64 && 0 <= a < 64 && 0 <= b < 32) by (nonlinear_arith)
        requires
            0 <= p < 2048,
            a == p % 64,
            b == p / 64,
    ;
}

} // verus!
