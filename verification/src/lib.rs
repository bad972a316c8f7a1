//! Instruction-execution core of a virtual machine with a fixed,
//! byte-addressable memory, a 16-bit big-endian instruction word, and a
//! monochrome bitmap display.
//!
//! The machine state lives in [`emu::Emu`]; `emu` holds the fetch stage and
//! the simple execute handlers, `draw` the sprite compositor with collision
//! detection, and `instr` the decoder and the dispatcher.

pub mod draw;
pub mod emu;
pub mod instr;
