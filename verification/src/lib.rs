//! A CHIP-8 virtual machine: operand decoding, machine state, program
//! loading and the fetch-decode-execute step, each with a verified contract.

pub mod cpu;
pub mod decode;
pub mod display;
pub mod machine;
mod random;

pub use cpu::{emulate_cycle, execute, fetch, step, StepError};
pub use decode::{decode, Instruction, N, NN, NNN, X, Y};
pub use machine::{handle_input, init_chip8, tick_timers, Chip8, LoadError};
