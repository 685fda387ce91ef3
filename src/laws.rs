use vstd::prelude::*;

use crate::opcode::{decode_spec, Instruction};
use crate::state::{
    collides, cycle_spec, draw, drawn_pixels, dump_registers, fetch_spec, is_first_pressed,
    load_registers, sprite_bit, ProcessorState, DISPLAY_SIZE, FLAG, NUM_REGISTERS, RAM_SIZE,
    STACK_DEPTH,
};

verus! {

/// The machine is ready to execute the two bytes `hi`, `lo` at its program counter.
pub open spec fn about_to_execute(s: ProcessorState, hi: u8, lo: u8) -> bool {
    &&& s.wf()
    &&& !s.waiting_for_key
    &&& s.pc + 1 < RAM_SIZE
    &&& s.ram[s.pc as int] == hi
    &&& s.ram[s.pc + 1] == lo
}

proof fn lemma_fetch(s: ProcessorState, hi: u8, lo: u8)
    requires
        about_to_execute(s, hi, lo),
    ensures
        fetch_spec(s) == hi * 256 + lo,
{
}

/// Setting register `x` to `nn` (instruction `6xnn`) and then reading register
/// `x` gives `nn`.
pub proof fn law_set_imm_reads_back(s: ProcessorState, keys: Seq<bool>, random: u8, x: u8, nn: u8)
    requires
        x < NUM_REGISTERS,
        about_to_execute(s, (0x60 + x) as u8, nn),
    ensures
        cycle_spec(s, keys, random) matches Ok(t) && t.v[x as int] == nn && t.pc == s.pc + 2,
{
    lemma_fetch(s, (0x60 + x) as u8, nn);
    assert(decode_spec(fetch_spec(s)) == Some(Instruction::SetImm { x: x as usize, nn }));
}

/// A jump to `addr` (instruction `1nnn`) sets the program counter to exactly
/// `addr`, from any program counter.
pub proof fn law_jump_sets_pc(s: ProcessorState, keys: Seq<bool>, random: u8, addr: u16)
    requires
        addr < 0x1000,
        about_to_execute(s, (0x10 + addr / 256) as u8, (addr % 256) as u8),
    ensures
        cycle_spec(s, keys, random) matches Ok(t) && t.pc == addr,
{
    lemma_fetch(s, (0x10 + addr / 256) as u8, (addr % 256) as u8);
    assert(decode_spec(fetch_spec(s)) == Some(Instruction::Jump { addr }));
}

/// A call of `addr` (instruction `2nnn`) with a free stack entry pushes the
/// address of the following instruction and continues at `addr`.
pub proof fn law_call_pushes_return(s: ProcessorState, keys: Seq<bool>, random: u8, addr: u16)
    requires
        addr < 0x1000,
        about_to_execute(s, (0x20 + addr / 256) as u8, (addr % 256) as u8),
        s.sp < STACK_DEPTH,
    ensures
        cycle_spec(s, keys, random) matches Ok(t) && t.pc == addr && t.sp == s.sp + 1 && t.stack[s.sp as int]
            == s.pc + 2,
{
    lemma_fetch(s, (0x20 + addr / 256) as u8, (addr % 256) as u8);
    assert(decode_spec(fetch_spec(s)) == Some(Instruction::Call { addr }));
}

/// Setting the index register to `addr` (instruction `Annn`) gives exactly
/// `addr`, whatever it held before.
pub proof fn law_set_index(s: ProcessorState, keys: Seq<bool>, random: u8, addr: u16)
    requires
        addr < 0x1000,
        about_to_execute(s, (0xA0 + addr / 256) as u8, (addr % 256) as u8),
    ensures
        cycle_spec(s, keys, random) matches Ok(t) && t.index == addr,
{
    lemma_fetch(s, (0xA0 + addr / 256) as u8, (addr % 256) as u8);
    assert(decode_spec(fetch_spec(s)) == Some(Instruction::SetIndex { addr }));
}

/// Awaiting a key (instruction `Fx0A`) moves past the instruction and waits; a
/// cycle with no key pressed changes nothing; a cycle with key `k` the
/// lowest-numbered pressed one stores `k` in register `x` and resumes, so that the
/// next cycle executes the instruction after the wait.
pub proof fn law_key_wait_round_trip(
    s: ProcessorState,
    x: u8,
    keys1: Seq<bool>,
    keys2: Seq<bool>,
    keys3: Seq<bool>,
    k: int,
    random: u8,
)
    requires
        x < NUM_REGISTERS,
        about_to_execute(s, (0xF0 + x) as u8, 0x0A),
        forall|j: int| 0 <= j < NUM_REGISTERS ==> !#[trigger] keys2[j],
        is_first_pressed(keys3, k),
    ensures
        cycle_spec(s, keys1, random) matches Ok(s1) && {
            &&& s1.waiting_for_key
            &&& s1.key_register == x
            &&& s1.pc == s.pc + 2
            &&& cycle_spec(s1, keys2, random) == Ok::<ProcessorState, crate::state::Fault>(s1)
            &&& cycle_spec(s1, keys3, random) matches Ok(s3) && {
                &&& !s3.waiting_for_key
                &&& s3.v[x as int] == k
                &&& s3.pc == s.pc + 2
                &&& s3.ram == s.ram
            }
        },
{
    lemma_fetch(s, (0xF0 + x) as u8, 0x0A);
    assert(decode_spec(fetch_spec(s)) == Some(Instruction::WaitForKey { x: x as usize }));
    assert(!exists|j: int| is_first_pressed(keys2, j));
    let c = choose|j: int| is_first_pressed(keys3, j);
    assert(c == k) by {
        if c < k {
            assert(!keys3[c]);
        }
        if c > k {
            assert(!keys3[k]);
        }
    }
}

/// Dumping all sixteen registers to memory (instruction `FF55`), zeroing them,
/// and loading them back (instruction `FF65`) restores every register.
pub proof fn law_dump_load_round_trip(s: ProcessorState)
    requires
        s.wf(),
        s.index + 15 < RAM_SIZE,
    ensures
        dump_registers(s, 15) matches Ok(d) && load_registers(
            ProcessorState { v: Seq::new(NUM_REGISTERS as nat, |r: int| 0u8), ..d },
            15,
        ) matches Ok(l) && l.v == s.v,
{
    let d = dump_registers(s, 15).unwrap();
    let l = load_registers(ProcessorState { v: Seq::new(NUM_REGISTERS as nat, |r: int| 0u8), ..d }, 15).unwrap();
    assert(l.v =~= s.v);
}

/// Drawing a sprite twice at the same place restores the display (each pixel is
/// XOR-ed twice), and the second draw reports a collision as soon as one set
/// sprite bit landed on a clear pixel. The coordinate registers are not VF, which
/// the first draw overwrites.
pub proof fn law_redraw_collides_and_cancels(s: ProcessorState, x: int, y: int, n: int)
    requires
        s.wf(),
        0 <= x < FLAG,
        0 <= y < FLAG,
        0 < n < 16,
        s.index + n <= RAM_SIZE,
        exists|p: int|
            0 <= p < DISPLAY_SIZE && s.vram[p] == 0 && #[trigger] sprite_bit(
                s.ram,
                s.index as int,
                n,
                s.v[x] as int,
                s.v[y] as int,
                p,
            ) == 1,
    ensures
        draw(s, x, y, n) matches Ok(s1) && draw(s1, x, y, n) matches Ok(s2) && s2.v[FLAG as int] == 1
            && s2.vram == s.vram,
{
    let (i, vx, vy) = (s.index as int, s.v[x] as int, s.v[y] as int);
    let s1 = draw(s, x, y, n).unwrap();
    assert(s1.v[x] == s.v[x] && s1.v[y] == s.v[y]);
    let s2 = draw(s1, x, y, n).unwrap();
    assert forall|p: int| 0 <= p < DISPLAY_SIZE implies #[trigger] s2.vram[p] == s.vram[p] by {
        let a = s.vram[p];
        let b = sprite_bit(s.ram, i, n, vx, vy, p);
        assert((a ^ b) ^ b == a) by (bit_vector);
    }
    assert(s2.vram =~= s.vram);
    let p = choose|p: int|
        0 <= p < DISPLAY_SIZE && s.vram[p] == 0 && #[trigger] sprite_bit(s.ram, i, n, vx, vy, p) == 1;
    assert(s1.vram[p] == 1) by {
        assert(0u8 ^ 1u8 == 1u8) by (bit_vector);
    }
    assert(collides(s1.vram, s1.ram, i, n, vx, vy));
}

/// Two sprites that share no set pixel, drawn one after the other where the display
/// is clear under both, report no collision either time.
pub proof fn law_disjoint_sprites_no_collision(
    vram: Seq<u8>,
    ram: Seq<u8>,
    i1: int,
    n1: int,
    vx1: int,
    vy1: int,
    i2: int,
    n2: int,
    vx2: int,
    vy2: int,
)
    requires
        vram.len() == DISPLAY_SIZE,
        forall|p: int|
            0 <= p < DISPLAY_SIZE ==> !(#[trigger] sprite_bit(ram, i1, n1, vx1, vy1, p) == 1
                && sprite_bit(ram, i2, n2, vx2, vy2, p) == 1),
        forall|p: int|
            0 <= p < DISPLAY_SIZE && #[trigger] vram[p] == 1 ==> sprite_bit(ram, i1, n1, vx1, vy1, p)
                != 1 && sprite_bit(ram, i2, n2, vx2, vy2, p) != 1,
    ensures
        !collides(vram, ram, i1, n1, vx1, vy1),
        !collides(drawn_pixels(vram, ram, i1, n1, vx1, vy1), ram, i2, n2, vx2, vy2),
{
    let after = drawn_pixels(vram, ram, i1, n1, vx1, vy1);
    assert forall|p: int| 0 <= p < DISPLAY_SIZE && after[p] == 1 implies #[trigger] sprite_bit(
        ram,
        i2,
        n2,
        vx2,
        vy2,
        p,
    ) != 1 by {
        let a = vram[p];
        let b = sprite_bit(ram, i1, n1, vx1, vy1, p);
        lemma_sprite_bit_is_bit(ram, i1, n1, vx1, vy1, p);
        if b == 0 {
            assert(a ^ 0u8 == a) by (bit_vector);
        }
    }
}

/// A one-row sprite drawn at (63, 31) puts its first bit on the last pixel of
/// the bottom row and, wrapping, its other seven bits on the first seven pixels of
/// that row; every other pixel stays as it was.
pub proof fn law_draw_wraps(s: ProcessorState, x: int, y: int)
    requires
        s.wf(),
        0 <= x < NUM_REGISTERS,
        0 <= y < NUM_REGISTERS,
        s.v[x] == 63,
        s.v[y] == 31,
        s.index + 1 <= RAM_SIZE,
    ensures
        draw(s, x, y, 1) matches Ok(t) && forall|p: int|
            0 <= p < DISPLAY_SIZE ==> #[trigger] t.vram[p] == s.vram[p] ^ (if p == 31 * 64 + 63 {
                (s.ram[s.index as int] >> 7u8) & 1u8
            } else if 31 * 64 <= p < 31 * 64 + 7 {
                (s.ram[s.index as int] >> ((31 * 64 + 6 - p) as u8)) & 1u8
            } else {
                0u8
            }),
{
    let t = draw(s, x, y, 1).unwrap();
    assert forall|p: int| 0 <= p < DISPLAY_SIZE implies #[trigger] t.vram[p] == s.vram[p] ^ (if p == 31
        * 64 + 63 {
        (s.ram[s.index as int] >> 7u8) & 1u8
    } else if 31 * 64 <= p < 31 * 64 + 7 {
        (s.ram[s.index as int] >> ((31 * 64 + 6 - p) as u8)) & 1u8
    } else {
        0u8
    }) by {
        let col = (p % 64 - 63) % 64;
        let row = (p / 64 - 31) % 32;
        if p == 31 * 64 + 63 {
            assert(col == 0 && row == 0);
        } else if 31 * 64 <= p < 31 * 64 + 7 {
            assert(p / 64 == 31 && p % 64 == p - 31 * 64);
            assert(col == p - 31 * 64 + 1 && row == 0);
        } else {
            assert(col >= 8 || row >= 1);
        }
    }
}

/// A sprite bit is 0 or 1.
proof fn lemma_sprite_bit_is_bit(ram: Seq<u8>, index: int, n: int, vx: int, vy: int, p: int)
    ensures
        sprite_bit(ram, index, n, vx, vy, p) <= 1,
{
    let col = (p % 64 - vx) % 64;
    let row = (p / 64 - vy) % 32;
    if col < 8 && row < n {
        let byte = ram[index + row];
        let sh = (7 - col) as u8;
        assert((byte >> sh) & 1u8 <= 1) by (bit_vector);
    }
}

} // verus!
