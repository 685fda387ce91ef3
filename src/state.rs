use vstd::prelude::*;

use crate::font::{font_glyphs, FONT_SIZE, GLYPH_BYTES};
use crate::opcode::{decode_spec, Instruction};

verus! {

/// Bytes of addressable memory.
pub const RAM_SIZE: usize = 4096;

/// Display width in pixels.
pub const DISPLAY_WIDTH: usize = 64;

/// Display height in pixels.
pub const DISPLAY_HEIGHT: usize = 32;

/// Pixels of the display, one byte each, row-major.
pub const DISPLAY_SIZE: usize = 2048;

/// Entries of the call stack.
pub const STACK_DEPTH: usize = 16;

/// Number of general registers, and of keys on the keypad.
pub const NUM_REGISTERS: usize = 16;

/// Address at which programs are loaded and execution starts.
pub const PROGRAM_START: usize = 0x200;

/// The flags register VF.
pub const FLAG: usize = 0xF;

/// A condition that stops one cycle before it changes the machine.
#[derive(Clone, Copy, Debug, PartialEq, Eq, Structural)]
pub enum Fault {
    /// The word at the program counter encodes no known instruction.
    UnknownOpcode { opcode: u16 },
    /// A call with all stack entries in use.
    StackOverflow,
    /// A return with an empty stack.
    StackUnderflow,
    /// An access, or a program load, outside memory.
    MemoryOutOfBounds,
    /// A key test on a register that holds no key number (16 or more).
    KeyOutOfRange,
}

/// The machine as a mathematical value.
pub struct ProcessorState {
    pub v: Seq<u8>,
    pub index: u16,
    pub pc: usize,
    pub ram: Seq<u8>,
    pub vram: Seq<u8>,
    pub draw_flag: bool,
    pub stack: Seq<usize>,
    pub sp: usize,
    pub waiting_for_key: bool,
    pub key_register: usize,
    pub delay_timer: u8,
    pub sound_timer: u8,
}

impl ProcessorState {
    /// Sizes are fixed, the stack pointer and key register are in range, and
    /// every pixel is 0 or 1.
    pub open spec fn wf(self) -> bool {
        &&& self.v.len() == NUM_REGISTERS
        &&& self.ram.len() == RAM_SIZE
        &&& self.vram.len() == DISPLAY_SIZE
        &&& self.stack.len() == STACK_DEPTH
        &&& self.sp <= STACK_DEPTH
        &&& self.key_register < NUM_REGISTERS
        &&& forall|p: int| 0 <= p < DISPLAY_SIZE ==> #[trigger] self.vram[p] <= 1
    }

    /// The program counter moved on by `by` bytes.
    pub open spec fn advance(self, by: int) -> ProcessorState {
        ProcessorState { pc: (self.pc + by) as usize, ..self }
    }

    /// The program counter moved past the current instruction.
    pub open spec fn next(self) -> ProcessorState {
        self.advance(2)
    }

    /// The program counter moved past the next instruction too when `cond` holds.
    pub open spec fn skip_if(self, cond: bool) -> ProcessorState {
        self.advance(if cond { 4 } else { 2 })
    }

    /// Register `x` set to `val`.
    pub open spec fn set_reg(self, x: int, val: u8) -> ProcessorState {
        ProcessorState { v: self.v.update(x, val), ..self }
    }
}

/// The machine right after initialization: font at address 0, everything else zero,
/// execution at the program start.
pub open spec fn initial_state() -> ProcessorState {
    ProcessorState {
        v: Seq::new(NUM_REGISTERS as nat, |i: int| 0u8),
        index: 0,
        pc: PROGRAM_START,
        ram: Seq::new(RAM_SIZE as nat, |a: int| if a < FONT_SIZE { font_glyphs()[a] } else { 0u8 }),
        vram: Seq::new(DISPLAY_SIZE as nat, |p: int| 0u8),
        draw_flag: false,
        stack: Seq::new(STACK_DEPTH as nat, |i: int| 0usize),
        sp: 0,
        waiting_for_key: false,
        key_register: 0,
        delay_timer: 0,
        sound_timer: 0,
    }
}

/// Memory after a program image is copied to the program start.
pub open spec fn with_program(s: ProcessorState, program: Seq<u8>) -> ProcessorState {
    ProcessorState {
        ram: Seq::new(
            RAM_SIZE as nat,
            |a: int|
                if PROGRAM_START <= a < PROGRAM_START + program.len() {
                    program[a - PROGRAM_START]
                } else {
                    s.ram[a]
                },
        ),
        ..s
    }
}

/// Both timers one step closer to zero.
pub open spec fn timers_ticked(s: ProcessorState) -> ProcessorState {
    ProcessorState {
        delay_timer: if s.delay_timer > 0 { (s.delay_timer - 1) as u8 } else { 0 },
        sound_timer: if s.sound_timer > 0 { (s.sound_timer - 1) as u8 } else { 0 },
        ..s
    }
}

/// Relates one fallible step to its model: on success the machine becomes the
/// modelled state, on a fault it is left as it was.
pub open spec fn outcome(
    before: ProcessorState,
    after: ProcessorState,
    r: Result<(), Fault>,
    expected: Result<ProcessorState, Fault>,
) -> bool {
    match expected {
        Ok(t) => r is Ok && after == t,
        Err(e) => r == Err::<(), Fault>(e) && after == before,
    }
}

pub open spec fn clear_screen(s: ProcessorState) -> ProcessorState {
    ProcessorState {
        vram: Seq::new(DISPLAY_SIZE as nat, |p: int| 0u8),
        draw_flag: true,
        ..s
    }.next()
}

pub open spec fn return_from_call(s: ProcessorState) -> Result<ProcessorState, Fault> {
    if s.sp == 0 {
        Err(Fault::StackUnderflow)
    } else {
        Ok(ProcessorState { sp: (s.sp - 1) as usize, pc: s.stack[s.sp - 1], ..s })
    }
}

pub open spec fn jump(s: ProcessorState, addr: u16) -> ProcessorState {
    ProcessorState { pc: addr as usize, ..s }
}

pub open spec fn call(s: ProcessorState, addr: u16) -> Result<ProcessorState, Fault> {
    if s.sp >= STACK_DEPTH {
        Err(Fault::StackOverflow)
    } else {
        Ok(
            ProcessorState {
                stack: s.stack.update(s.sp as int, (s.pc + 2) as usize),
                sp: (s.sp + 1) as usize,
                pc: addr as usize,
                ..s
            },
        )
    }
}

pub open spec fn set_imm(s: ProcessorState, x: int, nn: u8) -> ProcessorState {
    s.set_reg(x, nn).next()
}

pub open spec fn add_imm(s: ProcessorState, x: int, nn: u8) -> ProcessorState {
    s.set_reg(x, ((s.v[x] + nn) % 256) as u8).next()
}

/// Carry into VF after the sum is written.
pub open spec fn add_reg(s: ProcessorState, x: int, y: int) -> ProcessorState {
    let sum = s.v[x] + s.v[y];
    s.set_reg(x, (sum % 256) as u8).set_reg(FLAG as int, if sum > 0xFF { 1 } else { 0 }).next()
}

/// No-borrow flag into VF first, then `Vx - Vy` from the registers as they are then.
pub open spec fn sub_reg(s: ProcessorState, x: int, y: int) -> ProcessorState {
    let s1 = s.set_reg(FLAG as int, if s.v[x] > s.v[y] { 1 } else { 0 });
    s1.set_reg(x, ((s1.v[x] - s1.v[y]) % 256) as u8).next()
}

/// Low bit into VF first, then the register as it is then, shifted right.
pub open spec fn shift_right(s: ProcessorState, x: int) -> ProcessorState {
    let s1 = s.set_reg(FLAG as int, s.v[x] % 2);
    s1.set_reg(x, s1.v[x] / 2).next()
}

/// Flag into VF first (1 when `Vx <= Vy`), then `Vy - Vx` from the registers as they are then.
pub open spec fn sub_reg_reversed(s: ProcessorState, x: int, y: int) -> ProcessorState {
    let s1 = s.set_reg(FLAG as int, if s.v[x] <= s.v[y] { 1 } else { 0 });
    s1.set_reg(x, ((s1.v[y] - s1.v[x]) % 256) as u8).next()
}

/// High bit into VF first, then the register as it is then, shifted left.
pub open spec fn shift_left(s: ProcessorState, x: int) -> ProcessorState {
    let s1 = s.set_reg(FLAG as int, s.v[x] / 128);
    s1.set_reg(x, ((s1.v[x] * 2) % 256) as u8).next()
}

pub open spec fn set_index(s: ProcessorState, addr: u16) -> ProcessorState {
    ProcessorState { index: addr, ..s }.next()
}

pub open spec fn jump_offset(s: ProcessorState, addr: u16) -> ProcessorState {
    ProcessorState { pc: (addr + s.v[0]) as usize, ..s }
}

pub open spec fn random_and(s: ProcessorState, x: int, nn: u8, random: u8) -> ProcessorState {
    s.set_reg(x, random & nn).next()
}

/// The bit that a sprite of `n` rows at memory `index`, drawn at (`vx`, `vy`),
/// puts on pixel `p`: the pixel's column and row, taken relative to the sprite's
/// corner modulo the display size, pick the row byte and its bit (most significant
/// first); 0 where the sprite does not reach.
pub open spec fn sprite_bit(ram: Seq<u8>, index: int, n: int, vx: int, vy: int, p: int) -> u8 {
    let col = (p % DISPLAY_WIDTH as int - vx) % DISPLAY_WIDTH as int;
    let row = (p / DISPLAY_WIDTH as int - vy) % DISPLAY_HEIGHT as int;
    if col < 8 && row < n {
        (ram[index + row] >> ((7 - col) as u8)) & 1u8
    } else {
        0u8
    }
}

/// The display after XOR-ing the sprite onto it.
pub open spec fn drawn_pixels(
    vram: Seq<u8>,
    ram: Seq<u8>,
    index: int,
    n: int,
    vx: int,
    vy: int,
) -> Seq<u8> {
    Seq::new(vram.len(), |p: int| vram[p] ^ sprite_bit(ram, index, n, vx, vy, p))
}

/// Some pixel that is set is also set by the sprite, and so turns off.
pub open spec fn collides(vram: Seq<u8>, ram: Seq<u8>, index: int, n: int, vx: int, vy: int) -> bool {
    exists|p: int|
        0 <= p < DISPLAY_SIZE && vram[p] == 1 && #[trigger] sprite_bit(ram, index, n, vx, vy, p) == 1
}

/// Draws the `n`-row sprite at memory `I` at (`Vx`, `Vy`), both axes wrapping;
/// VF tells whether a set pixel was turned off.
pub open spec fn draw(s: ProcessorState, x: int, y: int, n: int) -> Result<ProcessorState, Fault> {
    if s.index + n > RAM_SIZE {
        Err(Fault::MemoryOutOfBounds)
    } else {
        let (i, vx, vy) = (s.index as int, s.v[x] as int, s.v[y] as int);
        Ok(
            ProcessorState {
                vram: drawn_pixels(s.vram, s.ram, i, n, vx, vy),
                draw_flag: true,
                ..s
            }.set_reg(FLAG as int, if collides(s.vram, s.ram, i, n, vx, vy) { 1 } else { 0 }).next(),
        )
    }
}

/// Skips when the key named by `Vx` is in the state `down`.
pub open spec fn skip_on_key(s: ProcessorState, x: int, keys: Seq<bool>, down: bool) -> Result<
    ProcessorState,
    Fault,
> {
    if s.v[x] >= NUM_REGISTERS {
        Err(Fault::KeyOutOfRange)
    } else {
        Ok(s.skip_if(keys[s.v[x] as int] == down))
    }
}

pub open spec fn wait_for_key(s: ProcessorState, x: int) -> ProcessorState {
    ProcessorState { waiting_for_key: true, key_register: x as usize, ..s }.next()
}

/// `I + Vx` in 16 bits; VF tells whether it passed 0xFFF.
pub open spec fn add_to_index(s: ProcessorState, x: int) -> ProcessorState {
    let i = ((s.index + s.v[x]) % 0x10000) as u16;
    ProcessorState { index: i, ..s }.set_reg(FLAG as int, if i > 0xFFF { 1 } else { 0 }).next()
}

pub open spec fn font_char(s: ProcessorState, x: int) -> ProcessorState {
    ProcessorState { index: (s.v[x] * GLYPH_BYTES) as u16, ..s }.next()
}

/// Hundreds, tens and ones of `Vx` at `I`, `I + 1`, `I + 2`.
pub open spec fn store_bcd(s: ProcessorState, x: int) -> Result<ProcessorState, Fault> {
    let i = s.index as int;
    let val = s.v[x];
    if i + 2 >= RAM_SIZE {
        Err(Fault::MemoryOutOfBounds)
    } else {
        Ok(
            ProcessorState {
                ram: s.ram.update(i, val / 100).update(i + 1, (val % 100) / 10).update(i + 2, val % 10),
                ..s
            }.next(),
        )
    }
}

/// `V0..=Vx` copied to memory from `I` on.
pub open spec fn dump_registers(s: ProcessorState, x: int) -> Result<ProcessorState, Fault> {
    let i = s.index as int;
    if i + x >= RAM_SIZE {
        Err(Fault::MemoryOutOfBounds)
    } else {
        Ok(
            ProcessorState {
                ram: Seq::new(
                    RAM_SIZE as nat,
                    |a: int| if i <= a <= i + x { s.v[a - i] } else { s.ram[a] },
                ),
                ..s
            }.next(),
        )
    }
}

/// `V0..=Vx` filled from memory from `I` on.
pub open spec fn load_registers(s: ProcessorState, x: int) -> Result<ProcessorState, Fault> {
    let i = s.index as int;
    if i + x >= RAM_SIZE {
        Err(Fault::MemoryOutOfBounds)
    } else {
        Ok(
            ProcessorState {
                v: Seq::new(
                    NUM_REGISTERS as nat,
                    |r: int| if r <= x { s.ram[i + r] } else { s.v[r] },
                ),
                ..s
            }.next(),
        )
    }
}

/// The effect of one decoded instruction, with the keys of this cycle and the
/// random byte that the random-and instruction uses.
pub open spec fn execute_spec(s: ProcessorState, ins: Instruction, keys: Seq<bool>, random: u8) -> Result<
    ProcessorState,
    Fault,
> {
    match ins {
        Instruction::ClearScreen => Ok(clear_screen(s)),
        Instruction::Return => return_from_call(s),
        Instruction::Jump { addr } => Ok(jump(s, addr)),
        Instruction::Call { addr } => call(s, addr),
        Instruction::SkipEqImm { x, nn } => Ok(s.skip_if(s.v[x as int] == nn)),
        Instruction::SkipNeqImm { x, nn } => Ok(s.skip_if(s.v[x as int] != nn)),
        Instruction::SkipEqReg { x, y } => Ok(s.skip_if(s.v[x as int] == s.v[y as int])),
        Instruction::SetImm { x, nn } => Ok(set_imm(s, x as int, nn)),
        Instruction::AddImm { x, nn } => Ok(add_imm(s, x as int, nn)),
        Instruction::SetReg { x, y } => Ok(s.set_reg(x as int, s.v[y as int]).next()),
        Instruction::Or { x, y } => Ok(s.set_reg(x as int, s.v[x as int] | s.v[y as int]).next()),
        Instruction::And { x, y } => Ok(s.set_reg(x as int, s.v[x as int] & s.v[y as int]).next()),
        Instruction::Xor { x, y } => Ok(s.set_reg(x as int, s.v[x as int] ^ s.v[y as int]).next()),
        Instruction::AddReg { x, y } => Ok(add_reg(s, x as int, y as int)),
        Instruction::SubReg { x, y } => Ok(sub_reg(s, x as int, y as int)),
        Instruction::ShiftRight { x } => Ok(shift_right(s, x as int)),
        Instruction::SubRegReversed { x, y } => Ok(sub_reg_reversed(s, x as int, y as int)),
        Instruction::ShiftLeft { x } => Ok(shift_left(s, x as int)),
        Instruction::SkipNeqReg { x, y } => Ok(s.skip_if(s.v[x as int] != s.v[y as int])),
        Instruction::SetIndex { addr } => Ok(set_index(s, addr)),
        Instruction::JumpOffset { addr } => Ok(jump_offset(s, addr)),
        Instruction::RandomAnd { x, nn } => Ok(random_and(s, x as int, nn, random)),
        Instruction::Draw { x, y, n } => draw(s, x as int, y as int, n as int),
        Instruction::SkipIfKey { x } => skip_on_key(s, x as int, keys, true),
        Instruction::SkipIfNotKey { x } => skip_on_key(s, x as int, keys, false),
        Instruction::GetDelayTimer { x } => Ok(s.set_reg(x as int, s.delay_timer).next()),
        Instruction::WaitForKey { x } => Ok(wait_for_key(s, x as int)),
        Instruction::SetDelayTimer { x } => Ok(ProcessorState { delay_timer: s.v[x as int], ..s }.next()),
        Instruction::SetSoundTimer { x } => Ok(ProcessorState { sound_timer: s.v[x as int], ..s }.next()),
        Instruction::AddToIndex { x } => Ok(add_to_index(s, x as int)),
        Instruction::FontChar { x } => Ok(font_char(s, x as int)),
        Instruction::StoreBcd { x } => store_bcd(s, x as int),
        Instruction::DumpRegisters { x } => dump_registers(s, x as int),
        Instruction::LoadRegisters { x } => load_registers(s, x as int),
    }
}

/// `k` is the lowest-numbered pressed key.
pub open spec fn is_first_pressed(keys: Seq<bool>, k: int) -> bool {
    0 <= k < NUM_REGISTERS && keys[k] && forall|j: int| 0 <= j < k ==> !#[trigger] keys[j]
}

/// One cycle while awaiting a key: the lowest pressed key, if any, goes into the
/// target register and execution resumes; with no key pressed nothing changes.
pub open spec fn key_wait(s: ProcessorState, keys: Seq<bool>) -> ProcessorState {
    if exists|k: int| is_first_pressed(keys, k) {
        let k = choose|k: int| is_first_pressed(keys, k);
        ProcessorState { waiting_for_key: false, ..s.set_reg(s.key_register as int, k as u8) }
    } else {
        s
    }
}

/// The instruction word at the program counter, big-endian.
pub open spec fn fetch_spec(s: ProcessorState) -> u16 {
    (s.ram[s.pc as int] * 256 + s.ram[s.pc + 1]) as u16
}

/// One cycle: resolve a pending key wait, or fetch, decode and execute one instruction.
pub open spec fn cycle_spec(s: ProcessorState, keys: Seq<bool>, random: u8) -> Result<
    ProcessorState,
    Fault,
> {
    if s.waiting_for_key {
        Ok(key_wait(s, keys))
    } else if s.pc + 1 >= RAM_SIZE {
        Err(Fault::MemoryOutOfBounds)
    } else {
        match decode_spec(fetch_spec(s)) {
            None => Err(Fault::UnknownOpcode { opcode: fetch_spec(s) }),
            Some(ins) => execute_spec(s, ins, keys, random),
        }
    }
}

} // verus!
