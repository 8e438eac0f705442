//! A CHIP-8 virtual machine (with the SUPER-CHIP and XO-CHIP extensions)
//! whose instruction semantics, display mutation and rate scheduling are
//! specified and proved with Verus.

pub mod chip8;
pub mod decode;
pub mod laws;
pub mod model;
pub mod quirks;
pub mod timing;

pub use chip8::Chip8;
pub use decode::{decode, Chip8Error, Operation};
pub use quirks::Quirks;
pub use timing::{Instruction, TimedSystem, Timing};
