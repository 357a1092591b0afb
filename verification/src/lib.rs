//! The core of a CHIP-8 family interpreter: the machine state, its
//! instruction semantics and the bitplaned display buffer.

pub mod chip8;
pub mod display;
pub mod encoding;
pub mod error;
pub mod execute;
pub mod instruction;
pub mod laws;
pub mod options;
pub mod outside;
pub mod run;

pub use chip8::Chip8;
pub use display::Display;
pub use error::Chip8Error;
pub use instruction::{Byte, Decoded, Family, Instruction, Register};
pub use options::{Font, LoResDxy0Behavior, Options, Quirks};
