use vstd::prelude::*;

verus! {

/// The operation group: the most significant nibble of an instruction.
pub open spec fn op_group(opcode: u16) -> u8 {
    (opcode / 0x1000) as u8
}

/// The first register operand: the second nibble.
pub open spec fn reg_x(opcode: u16) -> usize {
    ((opcode / 0x100) % 0x10) as usize
}

/// The second register operand: the third nibble.
pub open spec fn reg_y(opcode: u16) -> usize {
    ((opcode / 0x10) % 0x10) as usize
}

/// The operation subcode: the least significant nibble.
pub open spec fn op_sub(opcode: u16) -> u8 {
    (opcode % 0x10) as u8
}

/// The 8-bit immediate: the low byte.
pub open spec fn immediate(opcode: u16) -> u8 {
    (opcode % 0x100) as u8
}

/// The 12-bit address: the low three nibbles.
pub open spec fn address(opcode: u16) -> u16 {
    (opcode % 0x1000) as u16
}

/// One decoded instruction. Register operands are indices below 16,
/// addresses are below 0x1000 and sprite heights are below 16.
#[derive(Clone, Copy, Debug, PartialEq, Eq, Structural)]
pub enum Instruction {
    ClearScreen,
    Return,
    Jump { addr: u16 },
    Call { addr: u16 },
    SkipEqImm { x: usize, nn: u8 },
    SkipNeqImm { x: usize, nn: u8 },
    SkipEqReg { x: usize, y: usize },
    SetImm { x: usize, nn: u8 },
    AddImm { x: usize, nn: u8 },
    SetReg { x: usize, y: usize },
    Or { x: usize, y: usize },
    And { x: usize, y: usize },
    Xor { x: usize, y: usize },
    AddReg { x: usize, y: usize },
    SubReg { x: usize, y: usize },
    ShiftRight { x: usize },
    SubRegReversed { x: usize, y: usize },
    ShiftLeft { x: usize },
    SkipNeqReg { x: usize, y: usize },
    SetIndex { addr: u16 },
    JumpOffset { addr: u16 },
    RandomAnd { x: usize, nn: u8 },
    Draw { x: usize, y: usize, n: u8 },
    SkipIfKey { x: usize },
    SkipIfNotKey { x: usize },
    GetDelayTimer { x: usize },
    WaitForKey { x: usize },
    SetDelayTimer { x: usize },
    SetSoundTimer { x: usize },
    AddToIndex { x: usize },
    FontChar { x: usize },
    StoreBcd { x: usize },
    DumpRegisters { x: usize },
    LoadRegisters { x: usize },
}

/// The instruction that a 16-bit word encodes, dispatched on the operation group,
/// then on the subcode (and, for the F group's subcode 5, on the second register
/// nibble). `None` for a word that encodes no known instruction.
pub open spec fn decode_spec(opcode: u16) -> Option<Instruction> {
    let g = op_group(opcode);
    let x = reg_x(opcode);
    let y = reg_y(opcode);
    let m = op_sub(opcode);
    let nn = immediate(opcode);
    let addr = address(opcode);
    if g == 0x0 {
        if m == 0x0 {
            Some(Instruction::ClearScreen)
        } else if m == 0xE {
            Some(Instruction::Return)
        } else {
            None
        }
    } else if g == 0x1 {
        Some(Instruction::Jump { addr })
    } else if g == 0x2 {
        Some(Instruction::Call { addr })
    } else if g == 0x3 {
        Some(Instruction::SkipEqImm { x, nn })
    } else if g == 0x4 {
        Some(Instruction::SkipNeqImm { x, nn })
    } else if g == 0x5 {
        Some(Instruction::SkipEqReg { x, y })
    } else if g == 0x6 {
        Some(Instruction::SetImm { x, nn })
    } else if g == 0x7 {
        Some(Instruction::AddImm { x, nn })
    } else if g == 0x8 {
        if m == 0x0 {
            Some(Instruction::SetReg { x, y })
        } else if m == 0x1 {
            Some(Instruction::Or { x, y })
        } else if m == 0x2 {
            Some(Instruction::And { x, y })
        } else if m == 0x3 {
            Some(Instruction::Xor { x, y })
        } else if m == 0x4 {
            Some(Instruction::AddReg { x, y })
        } else if m == 0x5 {
            Some(Instruction::SubReg { x, y })
        } else if m == 0x6 {
            Some(Instruction::ShiftRight { x })
        } else if m == 0x7 {
            Some(Instruction::SubRegReversed { x, y })
        } else if m == 0xE {
            Some(Instruction::ShiftLeft { x })
        } else {
            None
        }
    } else if g == 0x9 {
        Some(Instruction::SkipNeqReg { x, y })
    } else if g == 0xA {
        Some(Instruction::SetIndex { addr })
    } else if g == 0xB {
        Some(Instruction::JumpOffset { addr })
    } else if g == 0xC {
        Some(Instruction::RandomAnd { x, nn })
    } else if g == 0xD {
        Some(Instruction::Draw { x, y, n: m })
    } else if g == 0xE {
        if m == 0xE {
            Some(Instruction::SkipIfKey { x })
        } else if m == 0x1 {
            Some(Instruction::SkipIfNotKey { x })
        } else {
            None
        }
    } else {
        if m == 0x7 {
            Some(Instruction::GetDelayTimer { x })
        } else if m == 0xA {
            Some(Instruction::WaitForKey { x })
        } else if m == 0x5 {
            if y == 0x1 {
                Some(Instruction::SetDelayTimer { x })
            } else if y == 0x5 {
                Some(Instruction::DumpRegisters { x })
            } else if y == 0x6 {
                Some(Instruction::LoadRegisters { x })
            } else {
                None
            }
        } else if m == 0x8 {
            Some(Instruction::SetSoundTimer { x })
        } else if m == 0xE {
            Some(Instruction::AddToIndex { x })
        } else if m == 0x9 {
            Some(Instruction::FontChar { x })
        } else if m == 0x3 {
            Some(Instruction::StoreBcd { x })
        } else {
            None
        }
    }
}

impl Instruction {
    /// Operands are within their fields: registers below 16, addresses below
    /// 0x1000, sprite heights below 16.
    pub open spec fn wf(self) -> bool {
        match self {
            Instruction::ClearScreen | Instruction::Return => true,
            Instruction::Jump { addr }
            | Instruction::Call { addr }
            | Instruction::SetIndex { addr }
            | Instruction::JumpOffset { addr } => addr < 0x1000,
            Instruction::SkipEqImm { x, .. }
            | Instruction::SkipNeqImm { x, .. }
            | Instruction::SetImm { x, .. }
            | Instruction::AddImm { x, .. }
            | Instruction::RandomAnd { x, .. }
            | Instruction::ShiftRight { x }
            | Instruction::ShiftLeft { x }
            | Instruction::SkipIfKey { x }
            | Instruction::SkipIfNotKey { x }
            | Instruction::GetDelayTimer { x }
            | Instruction::WaitForKey { x }
            | Instruction::SetDelayTimer { x }
            | Instruction::SetSoundTimer { x }
            | Instruction::AddToIndex { x }
            | Instruction::FontChar { x }
            | Instruction::StoreBcd { x }
            | Instruction::DumpRegisters { x }
            | Instruction::LoadRegisters { x } => x < 16,
            Instruction::SkipEqReg { x, y }
            | Instruction::SetReg { x, y }
            | Instruction::Or { x, y }
            | Instruction::And { x, y }
            | Instruction::Xor { x, y }
            | Instruction::AddReg { x, y }
            | Instruction::SubReg { x, y }
            | Instruction::SubRegReversed { x, y }
            | Instruction::SkipNeqReg { x, y } => x < 16 && y < 16,
            Instruction::Draw { x, y, n } => x < 16 && y < 16 && n < 16,
        }
    }
}

/// Every instruction that a word decodes to has its operands within their fields.
pub proof fn lemma_decoded_wf(opcode: u16)
    ensures
        decode_spec(opcode) matches Some(ins) ==> ins.wf(),
{
}

/// Splits an instruction word into its four nibbles: operation group, first
/// register, second register and subcode.
pub fn decode_opcode(opcode: u16) -> (r: (u8, usize, usize, u8))
    ensures
        r == (op_group(opcode), reg_x(opcode), reg_y(opcode), op_sub(opcode)),
        r.0 < 16 && r.1 < 16 && r.2 < 16 && r.3 < 16,
{
    let op_major = ((opcode & 0xf000) >> 12) as u8;
    let x = ((opcode & 0x0f00) >> 8) as usize;
    let y = ((opcode & 0x00f0) >> 4) as usize;
    let op_minor = (opcode & 0x000f) as u8;
    assert(((opcode & 0xf000) >> 12) == opcode / 0x1000) by (bit_vector);
    assert(((opcode & 0x0f00) >> 8) == (opcode / 0x100) % 0x10) by (bit_vector);
    assert(((opcode & 0x00f0) >> 4) == (opcode / 0x10) % 0x10) by (bit_vector);
    assert((opcode & 0x000f) == opcode % 0x10) by (bit_vector);
    (op_major, x, y, op_minor)
}

/// Decodes an instruction word; `None` exactly for the words that encode no
/// known instruction.
pub fn decode_instruction(opcode: u16) -> (r: Option<Instruction>)
    ensures
        r == decode_spec(opcode),
{
    let (op_major, x, y, op_minor) = decode_opcode(opcode);
    let nn = (opcode & 0x00ff) as u8;
    let addr = opcode & 0x0fff;
    assert((opcode & 0x00ff) == opcode % 0x100) by (bit_vector);
    assert((opcode & 0x0fff) == opcode % 0x1000) by (bit_vector);
    match op_major {
        0x0 => match op_minor {
            0x0 => Some(Instruction::ClearScreen),
            0xE => Some(Instruction::Return),
            _ => None,
        },
        0x1 => Some(Instruction::Jump { addr }),
        0x2 => Some(Instruction::Call { addr }),
        0x3 => Some(Instruction::SkipEqImm { x, nn }),
        0x4 => Some(Instruction::SkipNeqImm { x, nn }),
        0x5 => Some(Instruction::SkipEqReg { x, y }),
        0x6 => Some(Instruction::SetImm { x, nn }),
        0x7 => Some(Instruction::AddImm { x, nn }),
        0x8 => match op_minor {
            0x0 => Some(Instruction::SetReg { x, y }),
            0x1 => Some(Instruction::Or { x, y }),
            0x2 => Some(Instruction::And { x, y }),
            0x3 => Some(Instruction::Xor { x, y }),
            0x4 => Some(Instruction::AddReg { x, y }),
            0x5 => Some(Instruction::SubReg { x, y }),
            0x6 => Some(Instruction::ShiftRight { x }),
            0x7 => Some(Instruction::SubRegReversed { x, y }),
            0xE => Some(Instruction::ShiftLeft { x }),
            _ => None,
        },
        0x9 => Some(Instruction::SkipNeqReg { x, y }),
        0xA => Some(Instruction::SetIndex { addr }),
        0xB => Some(Instruction::JumpOffset { addr }),
        0xC => Some(Instruction::RandomAnd { x, nn }),
        0xD => Some(Instruction::Draw { x, y, n: op_minor }),
        0xE => match op_minor {
            0xE => Some(Instruction::SkipIfKey { x }),
            0x1 => Some(Instruction::SkipIfNotKey { x }),
            _ => None,
        },
        _ => match op_minor {
            0x7 => Some(Instruction::GetDelayTimer { x }),
            0xA => Some(Instruction::WaitForKey { x }),
            0x5 => match y {
                0x1 => Some(Instruction::SetDelayTimer { x }),
                0x5 => Some(Instruction::DumpRegisters { x }),
                0x6 => Some(Instruction::LoadRegisters { x }),
                _ => None,
            },
            0x8 => Some(Instruction::SetSoundTimer { x }),
            0xE => Some(Instruction::AddToIndex { x }),
            0x9 => Some(Instruction::FontChar { x }),
            0x3 => Some(Instruction::StoreBcd { x }),
            _ => None,
        },
    }
}

} // verus!
