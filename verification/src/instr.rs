//! Instruction decoding: each 16-bit word decodes into one variant of a
//! closed instruction set, which the executor matches exhaustively.

use vstd::prelude::*;

verus! {

/// One decoded instruction. `x` and `y` are register indices taken from the
/// instruction nibbles, `kk` an 8-bit immediate, `n` a 4-bit immediate, and
/// `nnn` a 12-bit address.
#[derive(Clone, Copy, Debug, PartialEq, Eq, Structural)]
pub enum Instruction {
    /// The all-zero word: stop the machine (a convenience, not hardware).
    Halt,
    /// Darken the whole framebuffer.
    ClearScreen,
    /// Pop the call stack into the program counter.
    Return,
    /// Jump to `nnn`.
    Jump { nnn: u16 },
    /// Push the program counter and jump to `nnn`.
    Call { nnn: u16 },
    /// Skip the next instruction if `Vx == kk`.
    SkipEqImm { x: u8, kk: u8 },
    /// Skip the next instruction if `Vx != kk`.
    SkipNeImm { x: u8, kk: u8 },
    /// Skip the next instruction if `Vx == Vy`.
    SkipEqReg { x: u8, y: u8 },
    /// `Vx = kk`.
    LoadImm { x: u8, kk: u8 },
    /// `Vx += kk`, wrapping, flag untouched.
    AddImm { x: u8, kk: u8 },
    /// `Vx = Vy`.
    Copy { x: u8, y: u8 },
    /// `Vx |= Vy`.
    BitOr { x: u8, y: u8 },
    /// `Vx &= Vy`.
    BitAnd { x: u8, y: u8 },
    /// `Vx ^= Vy`.
    BitXor { x: u8, y: u8 },
    /// `Vx += Vy`, flag register set to the carry.
    AddCarry { x: u8, y: u8 },
    /// `Vx -= Vy`, flag register set to NOT borrow.
    SubBorrow { x: u8, y: u8 },
    /// `Vx = Vy >> 1`, flag register set to `Vy`'s low bit.
    ShiftRight { x: u8, y: u8 },
    /// `Vx = Vy - Vx`, flag register set to NOT borrow.
    SubFrom { x: u8, y: u8 },
    /// `Vx = Vy << 1`, flag register set to `Vy`'s high bit.
    ShiftLeft { x: u8, y: u8 },
    /// Skip the next instruction if `Vx != Vy`.
    SkipNeReg { x: u8, y: u8 },
    /// Index register `= nnn`.
    LoadIndex { nnn: u16 },
    /// Jump to `V0 + nnn`.
    JumpOffset { nnn: u16 },
    /// `Vx = random byte & kk`.
    Random { x: u8, kk: u8 },
    /// Draw the `n`-byte sprite at the index register at `(Vx, Vy)`.
    Draw { x: u8, y: u8, n: u8 },
    /// Skip the next instruction if the key with value `Vx` is down.
    SkipKeyPressed { x: u8 },
    /// Skip the next instruction if the key with value `Vx` is up.
    SkipKeyNotPressed { x: u8 },
    /// `Vx = delay timer`.
    ReadDelay { x: u8 },
    /// Suspend until a key is pressed; its value lands in `Vx`.
    WaitKey { x: u8 },
    /// Delay timer `= Vx`.
    SetDelay { x: u8 },
    /// Sound timer `= Vx`.
    SetSound { x: u8 },
    /// Index register `+= Vx`, wrapping.
    AddIndex { x: u8 },
    /// Index register `= 5 * Vx`: the glyph for digit `Vx`.
    LoadGlyph { x: u8 },
    /// Store the decimal digits of `Vx` at the index register.
    StoreBcd { x: u8 },
    /// Store registers `0..=x` to memory at the index register.
    StoreRegs { x: u8 },
    /// Load registers `0..=x` from memory at the index register.
    LoadRegs { x: u8 },
    /// Anything else, machine-routine words included: an unrecognized word,
    /// recovered as a no-op so that a malformed image cannot crash the
    /// machine.
    Unknown { word: u16 },
}

/// What `decode` yields for each word.
pub open spec fn spec_decode(w: u16) -> Instruction {
    let op = w / 0x1000;
    let x = ((w / 0x100) % 16) as u8;
    let y = ((w / 16) % 16) as u8;
    let n = (w % 16) as u8;
    let kk = (w % 256) as u8;
    let nnn = w % 0x1000;
    if op == 0 {
        if w == 0 {
            Instruction::Halt
        } else if nnn == 0xE0 {
            Instruction::ClearScreen
        } else if nnn == 0xEE {
            Instruction::Return
        } else {
            Instruction::Unknown { word: w }
        }
    } else if op == 1 {
        Instruction::Jump { nnn }
    } else if op == 2 {
        Instruction::Call { nnn }
    } else if op == 3 {
        Instruction::SkipEqImm { x, kk }
    } else if op == 4 {
        Instruction::SkipNeImm { x, kk }
    } else if op == 5 {
        Instruction::SkipEqReg { x, y }
    } else if op == 6 {
        Instruction::LoadImm { x, kk }
    } else if op == 7 {
        Instruction::AddImm { x, kk }
    } else if op == 8 {
        if n == 0 {
            Instruction::Copy { x, y }
        } else if n == 1 {
            Instruction::BitOr { x, y }
        } else if n == 2 {
            Instruction::BitAnd { x, y }
        } else if n == 3 {
            Instruction::BitXor { x, y }
        } else if n == 4 {
            Instruction::AddCarry { x, y }
        } else if n == 5 {
            Instruction::SubBorrow { x, y }
        } else if n == 6 {
            Instruction::ShiftRight { x, y }
        } else if n == 7 {
            Instruction::SubFrom { x, y }
        } else if n == 0xE {
            Instruction::ShiftLeft { x, y }
        } else {
            Instruction::Unknown { word: w }
        }
    } else if op == 9 {
        Instruction::SkipNeReg { x, y }
    } else if op == 0xA {
        Instruction::LoadIndex { nnn }
    } else if op == 0xB {
        Instruction::JumpOffset { nnn }
    } else if op == 0xC {
        Instruction::Random { x, kk }
    } else if op == 0xD {
        Instruction::Draw { x, y, n }
    } else if op == 0xE {
        if kk == 0x9E {
            Instruction::SkipKeyPressed { x }
        } else if kk == 0xA1 {
            Instruction::SkipKeyNotPressed { x }
        } else {
            Instruction::Unknown { word: w }
        }
    } else {
        if kk == 0x07 {
            Instruction::ReadDelay { x }
        } else if kk == 0x0A {
            Instruction::WaitKey { x }
        } else if kk == 0x15 {
            Instruction::SetDelay { x }
        } else if kk == 0x18 {
            Instruction::SetSound { x }
        } else if kk == 0x1E {
            Instruction::AddIndex { x }
        } else if kk == 0x29 {
            Instruction::LoadGlyph { x }
        } else if kk == 0x33 {
            Instruction::StoreBcd { x }
        } else if kk == 0x55 {
            Instruction::StoreRegs { x }
        } else if kk == 0x65 {
            Instruction::LoadRegs { x }
        } else {
            Instruction::Unknown { word: w }
        }
    }
}

/// Every register index sits below 16, every nibble below 16, and every
/// address below 4096. Decoded instructions always satisfy this.
pub open spec fn valid_instr(i: Instruction) -> bool {
    match i {
        Instruction::Jump { nnn } => nnn < 4096,
        Instruction::Call { nnn } => nnn < 4096,
        Instruction::SkipEqImm { x, .. } => x < 16,
        Instruction::SkipNeImm { x, .. } => x < 16,
        Instruction::SkipEqReg { x, y } => x < 16 && y < 16,
        Instruction::LoadImm { x, .. } => x < 16,
        Instruction::AddImm { x, .. } => x < 16,
        Instruction::Copy { x, y } => x < 16 && y < 16,
        Instruction::BitOr { x, y } => x < 16 && y < 16,
        Instruction::BitAnd { x, y } => x < 16 && y < 16,
        Instruction::BitXor { x, y } => x < 16 && y < 16,
        Instruction::AddCarry { x, y } => x < 16 && y < 16,
        Instruction::SubBorrow { x, y } => x < 16 && y < 16,
        Instruction::ShiftRight { x, y } => x < 16 && y < 16,
        Instruction::SubFrom { x, y } => x < 16 && y < 16,
        Instruction::ShiftLeft { x, y } => x < 16 && y < 16,
        Instruction::SkipNeReg { x, y } => x < 16 && y < 16,
        Instruction::LoadIndex { nnn } => nnn < 4096,
        Instruction::JumpOffset { nnn } => nnn < 4096,
        Instruction::Random { x, .. } => x < 16,
        Instruction::Draw { x, y, n } => x < 16 && y < 16 && n < 16,
        Instruction::SkipKeyPressed { x } => x < 16,
        Instruction::SkipKeyNotPressed { x } => x < 16,
        Instruction::ReadDelay { x } => x < 16,
        Instruction::WaitKey { x } => x < 16,
        Instruction::SetDelay { x } => x < 16,
        Instruction::SetSound { x } => x < 16,
        Instruction::AddIndex { x } => x < 16,
        Instruction::LoadGlyph { x } => x < 16,
        Instruction::StoreBcd { x } => x < 16,
        Instruction::StoreRegs { x } => x < 16,
        Instruction::LoadRegs { x } => x < 16,
        _ => true,
    }
}

/// Decodes one instruction word.
pub fn decode(w: u16) -> (i: Instruction)
    ensures
        i == spec_decode(w),
        valid_instr(i),
{
    let op = w / 0x1000;
    let x = ((w / 0x100) % 16) as u8;
    let y = ((w / 16) % 16) as u8;
    let n = (w % 16) as u8;
    let kk = (w % 256) as u8;
    let nnn = w % 0x1000;
    if op == 0 {
        if w == 0 {
            Instruction::Halt
        } else if nnn == 0xE0 {
            Instruction::ClearScreen
        } else if nnn == 0xEE {
            Instruction::Return
        } else {
            Instruction::Unknown { word: w }
        }
    } else if op == 1 {
        Instruction::Jump { nnn }
    } else if op == 2 {
        Instruction::Call { nnn }
    } else if op == 3 {
        Instruction::SkipEqImm { x, kk }
    } else if op == 4 {
        Instruction::SkipNeImm { x, kk }
    } else if op == 5 {
        Instruction::SkipEqReg { x, y }
    } else if op == 6 {
        Instruction::LoadImm { x, kk }
    } else if op == 7 {
        Instruction::AddImm { x, kk }
    } else if op == 8 {
        if n == 0 {
            Instruction::Copy { x, y }
        } else if n == 1 {
            Instruction::BitOr { x, y }
        } else if n == 2 {
            Instruction::BitAnd { x, y }
        } else if n == 3 {
            Instruction::BitXor { x, y }
        } else if n == 4 {
            Instruction::AddCarry { x, y }
        } else if n == 5 {
            Instruction::SubBorrow { x, y }
        } else if n == 6 {
            Instruction::ShiftRight { x, y }
        } else if n == 7 {
            Instruction::SubFrom { x, y }
        } else if n == 0xE {
            Instruction::ShiftLeft { x, y }
        } else {
            Instruction::Unknown { word: w }
        }
    } else if op == 9 {
        Instruction::SkipNeReg { x, y }
    } else if op == 0xA {
        Instruction::LoadIndex { nnn }
    } else if op == 0xB {
        Instruction::JumpOffset { nnn }
    } else if op == 0xC {
        Instruction::Random { x, kk }
    } else if op == 0xD {
        Instruction::Draw { x, y, n }
    } else if op == 0xE {
        if kk == 0x9E {
            Instruction::SkipKeyPressed { x }
        } else if kk == 0xA1 {
            Instruction::SkipKeyNotPressed { x }
        } else {
            Instruction::Unknown { word: w }
        }
    } else {
        if kk == 0x07 {
            Instruction::ReadDelay { x }
        } else if kk == 0x0A {
            Instruction::WaitKey { x }
        } else if kk == 0x15 {
            Instruction::SetDelay { x }
        } else if kk == 0x18 {
            Instruction::SetSound { x }
        } else if kk == 0x1E {
            Instruction::AddIndex { x }
        } else if kk == 0x29 {
            Instruction::LoadGlyph { x }
        } else if kk == 0x33 {
            Instruction::StoreBcd { x }
        } else if kk == 0x55 {
            Instruction::StoreRegs { x }
        } else if kk == 0x65 {
            Instruction::LoadRegs { x }
        } else {
            Instruction::Unknown { word: w }
        }
    }
}

} // verus!
