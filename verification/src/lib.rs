//! A CHIP-8 interpreter core: machine state, program loading and the
//! fetch/decode/execute step, each specified against a mathematical model.

pub mod chip8;
pub mod database;
pub mod error;
pub mod laws;
pub mod model;
pub mod opcode_laws;
mod random;
