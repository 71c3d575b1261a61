//! A CHIP-8 emulator core: the machine state, one verified emulation cycle,
//! and the laws that the instruction set keeps.
use vstd::prelude::*;

mod bits;
pub mod chip8;
pub mod draw;
mod entropy;
pub mod laws;
pub mod model;
pub mod opcode_laws;

pub use chip8::{Chip8, CycleError, CycleReport};

verus! {
} // verus!
