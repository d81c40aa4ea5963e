//! A CHIP-8 virtual machine: an opcode decoder and a verified executor
//! for the machine state it runs on.
pub mod chip8;
pub mod opcode;

pub use crate::chip8::{Chip8Emulator, CycleOutcome, Fault, LoadError};
pub use crate::opcode::{from_value, split_u16, Opcode};
