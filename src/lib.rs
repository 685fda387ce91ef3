//! A CHIP-8 interpreter core: machine state, instruction decoding and execution,
//! with every operation proved against a mathematical model of the machine.

pub mod font;
pub mod opcode;
pub mod state;
pub mod processor;
pub mod laws;

pub use font::{font_glyphs, FONT_STANDARD};
pub use opcode::{decode_instruction, decode_opcode, Instruction};
pub use processor::Processor;
pub use state::{Fault, ProcessorState};
