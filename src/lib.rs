//! A CHIP-8 virtual machine: memory, register file, call stack, the
//! instruction decoder and the fetch-decode-execute engine, with the
//! behaviour of each part stated as a contract over `MachineState`.

pub mod dump;
pub mod engine;
pub mod instruction;
pub mod machine;
pub mod snapshot;

pub use instruction::Instruction;
pub use machine::{Chip8, Chip8Error, MachineState};
