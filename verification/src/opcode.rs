use vstd::prelude::*;

use crate::error::Chip8Error;

verus! {

/// The 35 instructions of the machine, each carrying only the operand
/// fields it needs: `x` and `y` are register indices (one nibble each),
/// `n` a 4-bit literal, `nn` an 8-bit literal and `nnn` a 12-bit address.
#[derive(Debug, Clone, Copy, PartialEq, Eq, Structural)]
pub enum Opcode {
    Clear,                   // 00E0
    Return,                  // 00EE
    Jump(u16),               // 1NNN
    Call(u16),               // 2NNN
    SkipEqualVal(u8, u8),    // 3XNN
    SkipNotEqualVal(u8, u8), // 4XNN
    SkipEqual(u8, u8),       // 5XY0
    SetVal(u8, u8),          // 6XNN
    AddVal(u8, u8),          // 7XNN
    SetReg(u8, u8),          // 8XY0
    Or(u8, u8),              // 8XY1
    And(u8, u8),             // 8XY2
    Xor(u8, u8),             // 8XY3
    Add(u8, u8),             // 8XY4
    SubY(u8, u8),            // 8XY5
    ShiftRight(u8),          // 8XY6
    SubX(u8, u8),            // 8XY7
    ShiftLeft(u8),           // 8XYE
    SkipNotEqual(u8, u8),    // 9XY0
    SetI(u16),               // ANNN
    JumpV0(u16),             // BNNN
    Random(u8, u8),          // CXNN
    Draw(u8, u8, u8),        // DXYN
    SkipKey(u8),             // EX9E
    SkipNotKey(u8),          // EXA1
    GetDelay(u8),            // FX07
    WaitKey(u8),             // FX0A
    SetDelay(u8),            // FX15
    SetSound(u8),            // FX18
    AddI(u8),                // FX1E
    SetSprite(u8),           // FX29
    StoreBCD(u8),            // FX33
    StoreRegs(u8),           // FX55
    LoadRegs(u8),            // FX65
}

/// Opcode class: the top nibble of an instruction word.
pub open spec fn class_of(w: u16) -> u16 {
    (w & 0xF000) >> 12
}

/// The `x` register-index field: bits 11..8.
pub open spec fn x_of(w: u16) -> u8 {
    ((w & 0x0F00) >> 8) as u8
}

/// The `y` register-index field: bits 7..4.
pub open spec fn y_of(w: u16) -> u8 {
    ((w & 0x00F0) >> 4) as u8
}

/// The 4-bit literal field: bits 3..0.
pub open spec fn n_of(w: u16) -> u8 {
    (w & 0x000F) as u8
}

/// The 8-bit literal field: bits 7..0.
pub open spec fn nn_of(w: u16) -> u8 {
    (w & 0x00FF) as u8
}

/// The 12-bit address field: bits 11..0.
pub open spec fn nnn_of(w: u16) -> u16 {
    w & 0x0FFF
}

/// Total decoding function: maps every 16-bit instruction word to exactly
/// one of the 35 instruction variants, or to `None` when no variant matches.
pub open spec fn spec_decode(w: u16) -> Option<Opcode> {
    let c = class_of(w);
    let x = x_of(w);
    let y = y_of(w);
    let n = n_of(w);
    let nn = nn_of(w);
    let nnn = nnn_of(w);
    if c == 0x0 && x == 0x0 && y == 0xE && n == 0x0 {
        Some(Opcode::Clear)
    } else if c == 0x0 && x == 0x0 && y == 0xE && n == 0xE {
        Some(Opcode::Return)
    } else if c == 0x1 {
        Some(Opcode::Jump(nnn))
    } else if c == 0x2 {
        Some(Opcode::Call(nnn))
    } else if c == 0x3 {
        Some(Opcode::SkipEqualVal(x, nn))
    } else if c == 0x4 {
        Some(Opcode::SkipNotEqualVal(x, nn))
    } else if c == 0x5 && n == 0x0 {
        Some(Opcode::SkipEqual(x, y))
    } else if c == 0x6 {
        Some(Opcode::SetVal(x, nn))
    } else if c == 0x7 {
        Some(Opcode::AddVal(x, nn))
    } else if c == 0x8 && n == 0x0 {
        Some(Opcode::SetReg(x, y))
    } else if c == 0x8 && n == 0x1 {
        Some(Opcode::Or(x, y))
    } else if c == 0x8 && n == 0x2 {
        Some(Opcode::And(x, y))
    } else if c == 0x8 && n == 0x3 {
        Some(Opcode::Xor(x, y))
    } else if c == 0x8 && n == 0x4 {
        Some(Opcode::Add(x, y))
    } else if c == 0x8 && n == 0x5 {
        Some(Opcode::SubY(x, y))
    } else if c == 0x8 && n == 0x6 {
        Some(Opcode::ShiftRight(x))
    } else if c == 0x8 && n == 0x7 {
        Some(Opcode::SubX(x, y))
    } else if c == 0x8 && n == 0xE {
        Some(Opcode::ShiftLeft(x))
    } else if c == 0x9 && n == 0x0 {
        Some(Opcode::SkipNotEqual(x, y))
    } else if c == 0xA {
        Some(Opcode::SetI(nnn))
    } else if c == 0xB {
        Some(Opcode::JumpV0(nnn))
    } else if c == 0xC {
        Some(Opcode::Random(x, nn))
    } else if c == 0xD {
        Some(Opcode::Draw(x, y, n))
    } else if c == 0xE && y == 0x9 && n == 0xE {
        Some(Opcode::SkipKey(x))
    } else if c == 0xE && y == 0xA && n == 0x1 {
        Some(Opcode::SkipNotKey(x))
    } else if c == 0xF && y == 0x0 && n == 0x7 {
        Some(Opcode::GetDelay(x))
    } else if c == 0xF && y == 0x0 && n == 0xA {
        Some(Opcode::WaitKey(x))
    } else if c == 0xF && y == 0x1 && n == 0x5 {
        Some(Opcode::SetDelay(x))
    } else if c == 0xF && y == 0x1 && n == 0x8 {
        Some(Opcode::SetSound(x))
    } else if c == 0xF && y == 0x1 && n == 0xE {
        Some(Opcode::AddI(x))
    } else if c == 0xF && y == 0x2 && n == 0x9 {
        Some(Opcode::SetSprite(x))
    } else if c == 0xF && y == 0x3 && n == 0x3 {
        Some(Opcode::StoreBCD(x))
    } else if c == 0xF && y == 0x5 && n == 0x5 {
        Some(Opcode::StoreRegs(x))
    } else if c == 0xF && y == 0x6 && n == 0x5 {
        Some(Opcode::LoadRegs(x))
    } else {
        None
    }
}

/// Well-formedness of a decoded instruction: every register-index operand
/// names one of the 16 registers. `spec_decode` only produces such values.
pub open spec fn op_wf(op: Opcode) -> bool {
    match op {
        Opcode::Clear => true,
        Opcode::Return => true,
        Opcode::Jump(nnn) => nnn < 4096,
        Opcode::Call(nnn) => nnn < 4096,
        Opcode::SkipEqualVal(x, _) => x < 16,
        Opcode::SkipNotEqualVal(x, _) => x < 16,
        Opcode::SkipEqual(x, y) => x < 16 && y < 16,
        Opcode::SetVal(x, _) => x < 16,
        Opcode::AddVal(x, _) => x < 16,
        Opcode::SetReg(x, y) => x < 16 && y < 16,
        Opcode::Or(x, y) => x < 16 && y < 16,
        Opcode::And(x, y) => x < 16 && y < 16,
        Opcode::Xor(x, y) => x < 16 && y < 16,
        Opcode::Add(x, y) => x < 16 && y < 16,
        Opcode::SubY(x, y) => x < 16 && y < 16,
        Opcode::ShiftRight(x) => x < 16,
        Opcode::SubX(x, y) => x < 16 && y < 16,
        Opcode::ShiftLeft(x) => x < 16,
        Opcode::SkipNotEqual(x, y) => x < 16 && y < 16,
        Opcode::SetI(nnn) => nnn < 4096,
        Opcode::JumpV0(nnn) => nnn < 4096,
        Opcode::Random(x, _) => x < 16,
        Opcode::Draw(x, y, n) => x < 16 && y < 16 && n < 16,
        Opcode::SkipKey(x) => x < 16,
        Opcode::SkipNotKey(x) => x < 16,
        Opcode::GetDelay(x) => x < 16,
        Opcode::WaitKey(x) => x < 16,
        Opcode::SetDelay(x) => x < 16,
        Opcode::SetSound(x) => x < 16,
        Opcode::AddI(x) => x < 16,
        Opcode::SetSprite(x) => x < 16,
        Opcode::StoreBCD(x) => x < 16,
        Opcode::StoreRegs(x) => x < 16,
        Opcode::LoadRegs(x) => x < 16,
    }
}

/// The operand fields of an instruction word all lie in their nibble ranges.
pub proof fn lemma_fields_bounded(w: u16)
    by (bit_vector)
    ensures
        class_of(w) < 16,
        x_of(w) < 16,
        y_of(w) < 16,
        n_of(w) < 16,
        nnn_of(w) < 4096,
{
}

/// Whatever `spec_decode` returns is well formed: its register-index
/// operands are in range.
pub proof fn lemma_decode_wf(w: u16)
    ensures
        spec_decode(w) matches Some(op) ==> op_wf(op),
{
    lemma_fields_bounded(w);
}

/// Law (checked on a literal): the word 0x1234 decodes to a jump whose
/// target is exactly its 12-bit address field, 0x234.
pub proof fn lemma_jump_literal()
    ensures
        spec_decode(0x1234) == Some(Opcode::Jump(0x234)),
{
    assert(class_of(0x1234) == 1 && nnn_of(0x1234) == 0x234) by (bit_vector);
}

/// Decodes an instruction word into its tagged instruction value.
/// Decoding is total and deterministic: every 16-bit word yields exactly
/// the variant `spec_decode` names for it, or fails with `InvalidOpcode`
/// carrying the word, when `spec_decode` names none.
pub fn decode_word(w: u16) -> (r: Result<Opcode, Chip8Error>)
    ensures
        (match spec_decode(w) {
            Some(op) => r == Ok::<Opcode, Chip8Error>(op),
            None => r == Err::<Opcode, Chip8Error>(Chip8Error::InvalidOpcode(w)),
        }),
{
    let first_nibble = (w & 0xF000) >> 12;
    let x = ((w & 0x0F00) >> 8) as u8;
    let y = ((w & 0x00F0) >> 4) as u8;
    let n = (w & 0x000F) as u8;
    let nn = (w & 0x00FF) as u8;
    let nnn = w & 0x0FFF;

    if first_nibble == 0x0 && x == 0x0 && y == 0xE && n == 0x0 {
        Ok(Opcode::Clear)
    } else if first_nibble == 0x0 && x == 0x0 && y == 0xE && n == 0xE {
        Ok(Opcode::Return)
    } else if first_nibble == 0x1 {
        Ok(Opcode::Jump(nnn))
    } else if first_nibble == 0x2 {
        Ok(Opcode::Call(nnn))
    } else if first_nibble == 0x3 {
        Ok(Opcode::SkipEqualVal(x, nn))
    } else if first_nibble == 0x4 {
        Ok(Opcode::SkipNotEqualVal(x, nn))
    } else if first_nibble == 0x5 && n == 0x0 {
        Ok(Opcode::SkipEqual(x, y))
    } else if first_nibble == 0x6 {
        Ok(Opcode::SetVal(x, nn))
    } else if first_nibble == 0x7 {
        Ok(Opcode::AddVal(x, nn))
    } else if first_nibble == 0x8 && n == 0x0 {
        Ok(Opcode::SetReg(x, y))
    } else if first_nibble == 0x8 && n == 0x1 {
        Ok(Opcode::Or(x, y))
    } else if first_nibble == 0x8 && n == 0x2 {
        Ok(Opcode::And(x, y))
    } else if first_nibble == 0x8 && n == 0x3 {
        Ok(Opcode::Xor(x, y))
    } else if first_nibble == 0x8 && n == 0x4 {
        Ok(Opcode::Add(x, y))
    } else if first_nibble == 0x8 && n == 0x5 {
        Ok(Opcode::SubY(x, y))
    } else if first_nibble == 0x8 && n == 0x6 {
        Ok(Opcode::ShiftRight(x))
    } else if first_nibble == 0x8 && n == 0x7 {
        Ok(Opcode::SubX(x, y))
    } else if first_nibble == 0x8 && n == 0xE {
        Ok(Opcode::ShiftLeft(x))
    } else if first_nibble == 0x9 && n == 0x0 {
        Ok(Opcode::SkipNotEqual(x, y))
    } else if first_nibble == 0xA {
        Ok(Opcode::SetI(nnn))
    } else if first_nibble == 0xB {
        Ok(Opcode::JumpV0(nnn))
    } else if first_nibble == 0xC {
        Ok(Opcode::Random(x, nn))
    } else if first_nibble == 0xD {
        Ok(Opcode::Draw(x, y, n))
    } else if first_nibble == 0xE && y == 0x9 && n == 0xE {
        Ok(Opcode::SkipKey(x))
    } else if first_nibble == 0xE && y == 0xA && n == 0x1 {
        Ok(Opcode::SkipNotKey(x))
    } else if first_nibble == 0xF && y == 0x0 && n == 0x7 {
        Ok(Opcode::GetDelay(x))
    } else if first_nibble == 0xF && y == 0x0 && n == 0xA {
        Ok(Opcode::WaitKey(x))
    } else if first_nibble == 0xF && y == 0x1 && n == 0x5 {
        Ok(Opcode::SetDelay(x))
    } else if first_nibble == 0xF && y == 0x1 && n == 0x8 {
        Ok(Opcode::SetSound(x))
    } else if first_nibble == 0xF && y == 0x1 && n == 0xE {
        Ok(Opcode::AddI(x))
    } else if first_nibble == 0xF && y == 0x2 && n == 0x9 {
        Ok(Opcode::SetSprite(x))
    } else if first_nibble == 0xF && y == 0x3 && n == 0x3 {
        Ok(Opcode::StoreBCD(x))
    } else if first_nibble == 0xF && y == 0x5 && n == 0x5 {
        Ok(Opcode::StoreRegs(x))
    } else if first_nibble == 0xF && y == 0x6 && n == 0x5 {
        Ok(Opcode::LoadRegs(x))
    } else {
        Err(Chip8Error::InvalidOpcode(w))
    }
}

} // verus!
