use vstd::prelude::*;

verus! {

/// The failure taxonomy of the emulator.
///
/// Load errors (`RomTooLarge`) happen before any instruction executes.
/// Decode errors (`InvalidOpcode`) and execution errors (`StackOverflow`,
/// `StackUnderflow`, `InvalidRegister`, `PCOutOfBounds`) stop the run loop.
/// `IoError` carries a message from the presentation/input backend.
#[derive(Debug)]
pub enum Chip8Error {
    RomTooLarge(usize),
    InvalidRegister(u8),
    InvalidOpcode(u16),
    StackOverflow,
    StackUnderflow,
    PCOutOfBounds(u16),
    IoError(String),
}

} // verus!
