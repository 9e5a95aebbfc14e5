//! A small 8-bit virtual machine: a 35-opcode instruction set over
//! byte-addressable memory, 16 general registers, a call stack, two countdown
//! timers and a monochrome 64x32 pixel grid.
//!
//! The engine is driven one `tick` at a time: fetch a big-endian instruction
//! word, decode it, execute it, then decrement the timers. Presentation,
//! audio and input capture live outside this crate; the engine takes a
//! platform-neutral 16-key snapshot and reports draw/sound flags.

pub mod cpu;
pub mod laws;
pub mod mem;
pub mod system;
pub mod video;

pub use cpu::Cpu;
pub use cpu::Instruction;
pub use mem::Memory;
pub use system::System;
pub use video::Video;
