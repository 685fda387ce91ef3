use chip8::{decode_instruction, decode_opcode, Fault, Instruction, Processor, FONT_STANDARD};

// Key states handed to the processor on each cycle.
const KEYS: [bool; 16] = [false; 16];
const KEYS_3: [bool; 16] = [
    false, false, false, true, false, false, false, false, false, false, false, false, false,
    false, false, false,
];

fn with_program(program: &[u8]) -> Processor {
    let mut cpu = Processor::initialize();
    cpu.load_program(program).unwrap();
    cpu
}

#[test]
fn op_1nnn() {
    let mut cpu = Processor::initialize();
    cpu.write_memory(0x200, 0x1a);
    cpu.write_memory(0x201, 0xaa);

    cpu.run_cycle(KEYS).unwrap();
    assert_eq!(cpu.pc(), 0xaaa);
}

#[test]
fn op_2nnn() {
    let mut cpu = Processor::initialize();
    cpu.write_memory(0x200, 0x25);
    cpu.write_memory(0x201, 0x55);

    cpu.run_cycle(KEYS).unwrap();
    assert_eq!(cpu.pc(), 0x555);
    assert_eq!(cpu.stack()[0], 0x202);
}

#[test]
fn op_annn() {
    let mut cpu = Processor::initialize();
    cpu.write_memory(0x200, 0xa1);
    cpu.write_memory(0x201, 0x23);

    cpu.run_cycle(KEYS).unwrap();
    assert_eq!(cpu.index(), 0x123);
}

#[test]
fn wait_for_key_pres() {
    let mut cpu = Processor::initialize();
    cpu.write_memory(0x200, 0xf5);
    cpu.write_memory(0x201, 0x0a);
    cpu.write_memory(0x202, 0x1a);
    cpu.write_memory(0x203, 0xaa);

    cpu.run_cycle(KEYS).unwrap();
    assert_eq!(cpu.is_waiting_for_key(), true);
    assert_eq!(cpu.key_register(), 5);
    assert_eq!(cpu.pc(), 0x202);

    cpu.run_cycle(KEYS).unwrap(); // waiting on input
    assert_eq!(cpu.is_waiting_for_key(), true);
    assert_eq!(cpu.key_register(), 5);

    cpu.run_cycle(KEYS_3).unwrap(); // input passed
    assert_eq!(cpu.is_waiting_for_key(), false);
    assert_eq!(cpu.key_register(), 5);
    assert_eq!(cpu.register(cpu.key_register()), 3);

    cpu.run_cycle(KEYS).unwrap(); // runs the next instruction
    assert_eq!(cpu.is_waiting_for_key(), false);
    assert_eq!(cpu.pc(), 0xaaa);
}

#[test]
fn ram_write() {
    let mut cpu = Processor::initialize();
    for i in 0..16 {
        cpu.set_register(i, 7);
    }
    cpu.set_index(0x300);
    cpu.write_memory(0x200, 0xff);
    cpu.write_memory(0x201, 0x55);

    cpu.run_cycle(KEYS).unwrap();
    let expected: [u8; 16] = [7; 16];
    assert_eq!(cpu.memory()[0x300..0x310], expected);
}

#[test]
fn ram_read() {
    let mut cpu = Processor::initialize();
    for i in 0..10 {
        cpu.write_memory(0x300 + i, 7);
    }
    cpu.set_index(0x300);
    cpu.write_memory(0x200, 0xfa);
    cpu.write_memory(0x201, 0x65);

    cpu.run_cycle(KEYS).unwrap();
    let expected: [u8; 16] = [7, 7, 7, 7, 7, 7, 7, 7, 7, 7, 0, 0, 0, 0, 0, 0];
    assert_eq!(cpu.registers(), expected);
}

#[test]
fn op_fx33() {
    let mut cpu = Processor::initialize();
    cpu.write_memory(0x200, 0xf2);
    cpu.write_memory(0x201, 0x33);
    cpu.set_register(2, 123);
    cpu.set_index(0x500);

    cpu.run_cycle(KEYS).unwrap();
    assert_eq!(cpu.memory()[0x500], 1);
    assert_eq!(cpu.memory()[0x501], 2);
    assert_eq!(cpu.memory()[0x502], 3);
}

#[test]
fn font_load() {
    let cpu = Processor::initialize();
    assert_eq!(cpu.memory()[0x000], FONT_STANDARD[0x000]);
    assert_eq!(cpu.memory()[0x00a], FONT_STANDARD[0x00a]);
    assert_eq!(cpu.memory()[0x013], FONT_STANDARD[0x013]);
    assert_eq!(cpu.memory()[0x03a], FONT_STANDARD[0x03a]);
}

#[test]
fn initial_state_is_zeroed() {
    let cpu = Processor::initialize();
    assert_eq!(cpu.pc(), 0x200);
    assert_eq!(cpu.index(), 0);
    assert_eq!(cpu.registers(), [0; 16]);
    assert_eq!(cpu.stack_pointer(), 0);
    assert!(!cpu.needs_redraw());
    assert!(cpu.display().iter().all(|&p| p == 0));
    assert_eq!(cpu.memory()[0x4f], 0x80);
    assert_eq!(cpu.memory()[0x50], 0);
}

#[test]
fn set_imm_reads_back() {
    for x in 0..16u8 {
        let mut cpu = with_program(&[0x60 | x, 0xc7]);
        cpu.run_cycle(KEYS).unwrap();
        assert_eq!(cpu.register(x as usize), 0xc7);
        assert_eq!(cpu.pc(), 0x202);
    }
}

#[test]
fn jump_from_other_pc() {
    let mut cpu = with_program(&[0x13, 0x00]);
    cpu.write_memory(0x300, 0x1a);
    cpu.write_memory(0x301, 0xaa);
    cpu.run_cycle(KEYS).unwrap();
    assert_eq!(cpu.pc(), 0x300);
    cpu.run_cycle(KEYS).unwrap();
    assert_eq!(cpu.pc(), 0xaaa);
}

#[test]
fn set_index_overwrites() {
    let mut cpu = with_program(&[0xa1, 0x23]);
    cpu.set_index(0xfff);
    cpu.run_cycle(KEYS).unwrap();
    assert_eq!(cpu.index(), 0x123);
}

#[test]
fn call_and_return() {
    let mut cpu = with_program(&[0x23, 0x00]);
    cpu.write_memory(0x300, 0x00);
    cpu.write_memory(0x301, 0xee);
    cpu.run_cycle(KEYS).unwrap();
    assert_eq!(cpu.stack_pointer(), 1);
    cpu.run_cycle(KEYS).unwrap();
    assert_eq!(cpu.pc(), 0x202);
    assert_eq!(cpu.stack_pointer(), 0);
}

#[test]
fn stack_overflow_is_reported() {
    // 0x200: call 0x200, forever.
    let mut cpu = with_program(&[0x22, 0x00]);
    for _ in 0..16 {
        cpu.run_cycle(KEYS).unwrap();
    }
    assert_eq!(cpu.stack_pointer(), 16);
    assert_eq!(cpu.run_cycle(KEYS), Err(Fault::StackOverflow));
    assert_eq!(cpu.stack_pointer(), 16);
    assert_eq!(cpu.pc(), 0x200);
}

#[test]
fn stack_underflow_is_reported() {
    let mut cpu = with_program(&[0x00, 0xee]);
    assert_eq!(cpu.run_cycle(KEYS), Err(Fault::StackUnderflow));
    assert_eq!(cpu.pc(), 0x200);
}

#[test]
fn unknown_opcode_is_reported() {
    let mut cpu = with_program(&[0x80, 0x18]);
    assert_eq!(cpu.run_cycle(KEYS), Err(Fault::UnknownOpcode { opcode: 0x8018 }));
    assert_eq!(cpu.pc(), 0x200);
    let mut cpu = with_program(&[0xf0, 0x45]);
    assert_eq!(cpu.run_cycle(KEYS), Err(Fault::UnknownOpcode { opcode: 0xf045 }));
}

#[test]
fn memory_faults_are_reported() {
    // Fetch at the last byte of memory.
    let mut cpu = with_program(&[0x1f, 0xff]);
    cpu.run_cycle(KEYS).unwrap();
    assert_eq!(cpu.run_cycle(KEYS), Err(Fault::MemoryOutOfBounds));

    // BCD store that would run past the end.
    let mut cpu = with_program(&[0xf0, 0x33]);
    cpu.set_index(0xffe);
    assert_eq!(cpu.run_cycle(KEYS), Err(Fault::MemoryOutOfBounds));
    assert_eq!(cpu.memory()[0xffe], 0);

    // Register dump that would run past the end.
    let mut cpu = with_program(&[0xf3, 0x55]);
    cpu.set_index(0xffd);
    assert_eq!(cpu.run_cycle(KEYS), Err(Fault::MemoryOutOfBounds));

    // Sprite rows past the end.
    let mut cpu = with_program(&[0xd0, 0x05]);
    cpu.set_index(0xffc);
    assert_eq!(cpu.run_cycle(KEYS), Err(Fault::MemoryOutOfBounds));
    assert!(!cpu.needs_redraw());

    // A program that does not fit.
    let mut cpu = Processor::initialize();
    assert_eq!(cpu.load_program(&[0u8; 0xe01]), Err(Fault::MemoryOutOfBounds));
    assert!(cpu.load_program(&[0u8; 0xe00]).is_ok());
}

#[test]
fn key_out_of_range_is_reported() {
    let mut cpu = with_program(&[0xe1, 0x9e]);
    cpu.set_register(1, 16);
    assert_eq!(cpu.run_cycle(KEYS), Err(Fault::KeyOutOfRange));
}

#[test]
fn skip_on_key() {
    let mut cpu = with_program(&[0xe1, 0x9e]);
    cpu.set_register(1, 3);
    cpu.run_cycle(KEYS_3).unwrap();
    assert_eq!(cpu.pc(), 0x204);

    let mut cpu = with_program(&[0xe1, 0x9e]);
    cpu.set_register(1, 3);
    cpu.run_cycle(KEYS).unwrap();
    assert_eq!(cpu.pc(), 0x202);

    let mut cpu = with_program(&[0xe1, 0xa1]);
    cpu.set_register(1, 3);
    cpu.run_cycle(KEYS).unwrap();
    assert_eq!(cpu.pc(), 0x204);
}

#[test]
fn skips_on_registers() {
    let mut cpu = with_program(&[0x30, 0x00]);
    cpu.run_cycle(KEYS).unwrap();
    assert_eq!(cpu.pc(), 0x204);

    let mut cpu = with_program(&[0x40, 0x00]);
    cpu.run_cycle(KEYS).unwrap();
    assert_eq!(cpu.pc(), 0x202);

    let mut cpu = with_program(&[0x51, 0x20]);
    cpu.set_register(1, 4);
    cpu.run_cycle(KEYS).unwrap();
    assert_eq!(cpu.pc(), 0x202);

    let mut cpu = with_program(&[0x91, 0x20]);
    cpu.set_register(1, 4);
    cpu.run_cycle(KEYS).unwrap();
    assert_eq!(cpu.pc(), 0x204);
}

#[test]
fn add_imm_wraps_without_flag() {
    let mut cpu = with_program(&[0x71, 0x10]);
    cpu.set_register(1, 0xf8);
    cpu.set_register(0xf, 9);
    cpu.run_cycle(KEYS).unwrap();
    assert_eq!(cpu.register(1), 0x08);
    assert_eq!(cpu.register(0xf), 9);
}

#[test]
fn logic_ops() {
    for (sub, expected) in [(0x0u8, 0x0cu8), (0x1, 0x0e), (0x2, 0x08), (0x3, 0x06)] {
        let mut cpu = with_program(&[0x81, 0x20 | sub]);
        cpu.set_register(1, 0x0a);
        cpu.set_register(2, 0x0c);
        cpu.run_cycle(KEYS).unwrap();
        assert_eq!(cpu.register(1), expected);
    }
}

#[test]
fn add_reg_carry() {
    let mut cpu = with_program(&[0x81, 0x24]);
    cpu.set_register(1, 200);
    cpu.set_register(2, 100);
    cpu.run_cycle(KEYS).unwrap();
    assert_eq!(cpu.register(1), 44);
    assert_eq!(cpu.register(0xf), 1);

    let mut cpu = with_program(&[0x81, 0x24]);
    cpu.set_register(1, 20);
    cpu.set_register(2, 100);
    cpu.run_cycle(KEYS).unwrap();
    assert_eq!(cpu.register(1), 120);
    assert_eq!(cpu.register(0xf), 0);
}

#[test]
fn sub_reg_flags() {
    let mut cpu = with_program(&[0x81, 0x25]);
    cpu.set_register(1, 10);
    cpu.set_register(2, 3);
    cpu.run_cycle(KEYS).unwrap();
    assert_eq!(cpu.register(1), 7);
    assert_eq!(cpu.register(0xf), 1);

    let mut cpu = with_program(&[0x81, 0x25]);
    cpu.set_register(1, 3);
    cpu.set_register(2, 10);
    cpu.run_cycle(KEYS).unwrap();
    assert_eq!(cpu.register(1), 249);
    assert_eq!(cpu.register(0xf), 0);

    let mut cpu = with_program(&[0x81, 0x27]);
    cpu.set_register(1, 3);
    cpu.set_register(2, 10);
    cpu.run_cycle(KEYS).unwrap();
    assert_eq!(cpu.register(1), 7);
    assert_eq!(cpu.register(0xf), 1);

    let mut cpu = with_program(&[0x81, 0x27]);
    cpu.set_register(1, 10);
    cpu.set_register(2, 3);
    cpu.run_cycle(KEYS).unwrap();
    assert_eq!(cpu.register(1), 249);
    assert_eq!(cpu.register(0xf), 0);
}

#[test]
fn shifts() {
    let mut cpu = with_program(&[0x81, 0x06]);
    cpu.set_register(1, 0x85);
    cpu.run_cycle(KEYS).unwrap();
    assert_eq!(cpu.register(1), 0x42);
    assert_eq!(cpu.register(0xf), 1);

    let mut cpu = with_program(&[0x81, 0x0e]);
    cpu.set_register(1, 0x85);
    cpu.run_cycle(KEYS).unwrap();
    assert_eq!(cpu.register(1), 0x0a);
    assert_eq!(cpu.register(0xf), 1);

    let mut cpu = with_program(&[0x81, 0x0e]);
    cpu.set_register(1, 0x45);
    cpu.run_cycle(KEYS).unwrap();
    assert_eq!(cpu.register(1), 0x8a);
    assert_eq!(cpu.register(0xf), 0);
}

#[test]
fn jump_offset() {
    let mut cpu = with_program(&[0xb3, 0x00]);
    cpu.set_register(0, 0x22);
    cpu.run_cycle(KEYS).unwrap();
    assert_eq!(cpu.pc(), 0x322);
}

#[test]
fn random_and_masks() {
    let mut cpu = with_program(&[0xc1, 0x0f]);
    cpu.run_cycle_with_random(KEYS, 0xab).unwrap();
    assert_eq!(cpu.register(1), 0x0b);
    assert_eq!(cpu.pc(), 0x202);

    let mut cpu = with_program(&[0xc1, 0x0f]);
    cpu.run_cycle(KEYS).unwrap();
    assert!(cpu.register(1) <= 0x0f);
}

#[test]
fn timers() {
    let mut cpu = with_program(&[0x61, 0x02, 0xf1, 0x15, 0xf1, 0x18, 0xf2, 0x07]);
    for _ in 0..3 {
        cpu.run_cycle(KEYS).unwrap();
    }
    assert_eq!(cpu.delay_timer(), 2);
    assert_eq!(cpu.sound_timer(), 2);
    cpu.tick_timers();
    cpu.run_cycle(KEYS).unwrap();
    assert_eq!(cpu.register(2), 1);
    cpu.tick_timers();
    cpu.tick_timers();
    assert_eq!(cpu.delay_timer(), 0);
    assert_eq!(cpu.sound_timer(), 0);
}

#[test]
fn add_to_index_flag() {
    let mut cpu = with_program(&[0xf1, 0x1e]);
    cpu.set_index(0xff0);
    cpu.set_register(1, 0x20);
    cpu.run_cycle(KEYS).unwrap();
    assert_eq!(cpu.index(), 0x1010);
    assert_eq!(cpu.register(0xf), 1);

    let mut cpu = with_program(&[0xf1, 0x1e]);
    cpu.set_index(0x100);
    cpu.set_register(1, 0x20);
    cpu.run_cycle(KEYS).unwrap();
    assert_eq!(cpu.index(), 0x120);
    assert_eq!(cpu.register(0xf), 0);
}

#[test]
fn font_char_address() {
    let mut cpu = with_program(&[0xf1, 0x29]);
    cpu.set_register(1, 0xa);
    cpu.run_cycle(KEYS).unwrap();
    assert_eq!(cpu.index(), 50);
}

#[test]
fn dump_load_round_trip() {
    let mut cpu = with_program(&[0xff, 0x55, 0xff, 0x65]);
    for i in 0..16 {
        cpu.set_register(i, (i as u8) * 13 + 1);
    }
    let saved = cpu.registers();
    cpu.set_index(0x600);
    cpu.run_cycle(KEYS).unwrap();
    for i in 0..16 {
        cpu.set_register(i, 0);
    }
    cpu.run_cycle(KEYS).unwrap();
    assert_eq!(cpu.registers(), saved);
}

#[test]
fn draw_glyph_and_clear() {
    // Draw the glyph for 0 at (0, 0), then clear the screen.
    let mut cpu = with_program(&[0xd0, 0x15, 0x00, 0xe0]);
    cpu.run_cycle(KEYS).unwrap();
    assert!(cpu.needs_redraw());
    assert_eq!(cpu.register(0xf), 0);
    assert_eq!(cpu.display()[0..8], [1, 1, 1, 1, 0, 0, 0, 0]);
    assert_eq!(cpu.display()[64..72], [1, 0, 0, 1, 0, 0, 0, 0]);
    cpu.acknowledge_redraw();
    assert!(!cpu.needs_redraw());
    cpu.run_cycle(KEYS).unwrap();
    assert!(cpu.needs_redraw());
    assert!(cpu.display().iter().all(|&p| p == 0));
}

#[test]
fn draw_uses_register_values() {
    let mut cpu = with_program(&[0xd1, 0x21]);
    cpu.set_register(1, 10);
    cpu.set_register(2, 3);
    cpu.write_memory(0x300, 0x80);
    cpu.set_index(0x300);
    cpu.run_cycle(KEYS).unwrap();
    let on: Vec<usize> = (0..2048).filter(|&p| cpu.display()[p] == 1).collect();
    assert_eq!(on, vec![3 * 64 + 10]);
}

#[test]
fn redraw_collides_and_cancels() {
    let mut cpu = with_program(&[0xd1, 0x25, 0xd1, 0x25]);
    cpu.set_register(1, 5);
    cpu.set_register(2, 7);
    cpu.set_index(0x3c); // glyph for C
    cpu.run_cycle(KEYS).unwrap();
    assert_eq!(cpu.register(0xf), 0);
    assert!(cpu.display().iter().any(|&p| p == 1));
    cpu.run_cycle(KEYS).unwrap();
    assert_eq!(cpu.register(0xf), 1);
    assert!(cpu.display().iter().all(|&p| p == 0));
}

#[test]
fn disjoint_sprites_do_not_collide() {
    let mut cpu = with_program(&[0xd1, 0x25, 0xd3, 0x45]);
    cpu.set_register(1, 0);
    cpu.set_register(2, 0);
    cpu.set_register(3, 8);
    cpu.set_register(4, 0);
    cpu.run_cycle(KEYS).unwrap();
    assert_eq!(cpu.register(0xf), 0);
    cpu.run_cycle(KEYS).unwrap();
    assert_eq!(cpu.register(0xf), 0);
    assert_eq!(cpu.display().iter().filter(|&&p| p == 1).count(), 28);
}

#[test]
fn draw_wraps_around() {
    let mut cpu = with_program(&[0xd1, 0x21]);
    cpu.set_register(1, 63);
    cpu.set_register(2, 31);
    cpu.write_memory(0x300, 0xff);
    cpu.set_index(0x300);
    cpu.run_cycle(KEYS).unwrap();
    let row = 31 * 64;
    assert_eq!(cpu.display()[row + 63], 1);
    assert_eq!(cpu.display()[row..row + 7], [1; 7]);
    assert_eq!(cpu.display()[row + 7], 0);
    assert_eq!(cpu.display().iter().filter(|&&p| p == 1).count(), 8);
}

#[test]
fn decode_nibbles() {
    assert_eq!(decode_opcode(0xd12f), (0xd, 1, 2, 0xf));
    assert_eq!(decode_opcode(0x0000), (0, 0, 0, 0));
    assert_eq!(decode_instruction(0xd12f), Some(Instruction::Draw { x: 1, y: 2, n: 0xf }));
    assert_eq!(decode_instruction(0x7a42), Some(Instruction::AddImm { x: 0xa, nn: 0x42 }));
    assert_eq!(decode_instruction(0xbabc), Some(Instruction::JumpOffset { addr: 0xabc }));
    assert_eq!(decode_instruction(0xf365), Some(Instruction::LoadRegisters { x: 3 }));
    assert_eq!(decode_instruction(0xf315), Some(Instruction::SetDelayTimer { x: 3 }));
    assert_eq!(decode_instruction(0xe1a2), None);
}
