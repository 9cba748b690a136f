//! A verified interpreter core for a small 8-bit virtual machine with a
//! 16-register file, 4 KiB of memory, a 64x32 monochrome framebuffer and a
//! 16-key input device.
//!
//! The crate holds the machine state, the opcode decoder, the instruction
//! executor, the countdown-timer controller and the run/pause/step state
//! machine. Reading ROM files, window management and key-event translation
//! are left to the embedding program, which feeds the core plain values.

pub mod error;
pub mod opcode;
pub mod keypad;
pub mod emulator;
