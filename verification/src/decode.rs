//! Operand fields of a 16-bit instruction word and the closed set of
//! instructions they decode to.

use vstd::prelude::*;

verus! {

/// The family nibble: bits 12 to 15 of the word.
pub open spec fn field_family(opcode: u16) -> int {
    opcode as int / 4096
}

/// The first register operand: bits 8 to 11 of the word.
pub open spec fn field_x(opcode: u16) -> int {
    (opcode as int / 256) % 16
}

/// The second register operand: bits 4 to 7 of the word.
pub open spec fn field_y(opcode: u16) -> int {
    (opcode as int / 16) % 16
}

/// The 4-bit immediate: bits 0 to 3 of the word.
pub open spec fn field_n(opcode: u16) -> int {
    opcode as int % 16
}

/// The 8-bit immediate: bits 0 to 7 of the word.
pub open spec fn field_nn(opcode: u16) -> int {
    opcode as int % 256
}

/// The 12-bit address: bits 0 to 11 of the word.
pub open spec fn field_nnn(opcode: u16) -> int {
    opcode as int % 4096
}

/// Extracts the first register operand.
#[allow(non_snake_case)]
pub fn X(opcode: u16) -> (x: usize)
    ensures
        x == field_x(opcode),
        x < 16,
{
    assert(((opcode & 0x0F00) >> 8) == (opcode / 256) % 16) by (bit_vector);
    ((opcode & 0x0F00) >> 8) as usize
}

/// Extracts the second register operand.
#[allow(non_snake_case)]
pub fn Y(opcode: u16) -> (y: usize)
    ensures
        y == field_y(opcode),
        y < 16,
{
    assert(((opcode & 0x00F0) >> 4) == (opcode / 16) % 16) by (bit_vector);
    ((opcode & 0x00F0) >> 4) as usize
}

/// Extracts the 4-bit immediate.
#[allow(non_snake_case)]
pub fn N(opcode: u16) -> (n: u8)
    ensures
        n == field_n(opcode),
        n < 16,
{
    assert((opcode & 0x000F) == opcode % 16) by (bit_vector);
    (opcode & 0x000F) as u8
}

/// Extracts the 8-bit immediate.
#[allow(non_snake_case)]
pub fn NN(opcode: u16) -> (nn: u8)
    ensures
        nn == field_nn(opcode),
{
    assert((opcode & 0x00FF) == opcode % 256) by (bit_vector);
    (opcode & 0x00FF) as u8
}

/// Extracts the 12-bit address.
#[allow(non_snake_case)]
pub fn NNN(opcode: u16) -> (nnn: u16)
    ensures
        nnn == field_nnn(opcode),
        nnn < 4096,
{
    assert((opcode & 0x0FFF) == opcode % 4096) by (bit_vector);
    opcode & 0x0FFF
}

/// The operand fields determine the word: the family nibble and the three
/// operand nibbles put the word together again, and the wider immediates are
/// made of the narrower ones.
pub proof fn lemma_fields_rebuild_word(opcode: u16)
    ensures
        0 <= field_family(opcode) < 16,
        0 <= field_x(opcode) < 16,
        0 <= field_y(opcode) < 16,
        0 <= field_n(opcode) < 16,
        opcode == field_family(opcode) * 4096 + field_x(opcode) * 256 + field_y(opcode) * 16
            + field_n(opcode),
        field_nn(opcode) == field_y(opcode) * 16 + field_n(opcode),
        field_nnn(opcode) == field_x(opcode) * 256 + field_nn(opcode),
        opcode == field_family(opcode) * 4096 + field_nnn(opcode),
{
    assert((opcode / 16) / 16 == opcode / 256) by (bit_vector);
    assert((opcode / 256) / 16 == opcode / 4096) by (bit_vector);
    let a = opcode as int / 16;
    let b = opcode as int / 256;
    assert(opcode as int == a * 16 + opcode as int % 16);
    assert(a == b * 16 + a % 16);
    assert(b == (opcode as int / 4096) * 16 + b % 16);
}

/// Two words with the same family and the same operand nibbles are the same
/// word.
pub proof fn lemma_fields_injective(a: u16, b: u16)
    requires
        field_family(a) == field_family(b),
        field_x(a) == field_x(b),
        field_y(a) == field_y(b),
        field_n(a) == field_n(b),
    ensures
        a == b,
{
    lemma_fields_rebuild_word(a);
    lemma_fields_rebuild_word(b);
}

/// One instruction of the machine. Register operands are indices below 16,
/// addresses are below 4096 and a sprite height is below 16.
#[derive(Clone, Copy, Debug, PartialEq, Eq)]
pub enum Instruction {
    /// `00E0`: clear the display.
    ClearScreen,
    /// `00EE`: return from a subroutine.
    Return,
    /// `0NNN`: legacy machine-code call, an absolute jump.
    Sys(u16),
    /// `1NNN`: absolute jump.
    Jump(u16),
    /// `2NNN`: call a subroutine.
    Call(u16),
    /// `3XNN`: skip if `VX == NN`.
    SkipEqImm(usize, u8),
    /// `4XNN`: skip if `VX != NN`.
    SkipNeImm(usize, u8),
    /// `5XY0`: skip if `VX == VY`.
    SkipEqReg(usize, usize),
    /// `6XNN`: `VX = NN`.
    LoadImm(usize, u8),
    /// `7XNN`: `VX += NN`, wrapping.
    AddImm(usize, u8),
    /// `8XY0`: `VX = VY`.
    Move(usize, usize),
    /// `8XY1`: `VX |= VY`.
    Or(usize, usize),
    /// `8XY2`: `VX &= VY`.
    And(usize, usize),
    /// `8XY3`: `VX ^= VY`.
    Xor(usize, usize),
    /// `8XY4`: `VX += VY` with carry in `VF`.
    AddReg(usize, usize),
    /// `8XY5`: `VX -= VY` with `VF` set when `VX > VY`.
    SubReg(usize, usize),
    /// `8XY6`: shift `VX` right, the bit shifted out goes to `VF`.
    ShiftRight(usize),
    /// `8XY7`: `VX = VY - VX` with `VF` set when `VY > VX`.
    SubFrom(usize, usize),
    /// `8XYE`: shift `VX` left, the bit shifted out goes to `VF`.
    ShiftLeft(usize),
    /// `9XY0`: skip if `VX != VY`.
    SkipNeReg(usize, usize),
    /// `ANNN`: `I = NNN`.
    LoadIndex(u16),
    /// `BNNN`: jump to `NNN + V0`.
    JumpOffset(u16),
    /// `CXNN`: `VX = NN & random byte`.
    Random(usize, u8),
    /// `DXYN`: draw a sprite of `N` rows at `(VX, VY)`.
    Draw(usize, usize, u8),
    /// `EX9E`: skip if key `VX` is down.
    SkipKeyDown(usize),
    /// `EXA1`: skip if key `VX` is up.
    SkipKeyUp(usize),
    /// `FX07`: `VX = delay timer`.
    ReadDelay(usize),
    /// `FX0A`: wait for a key and store its index in `VX`.
    WaitKey(usize),
    /// `FX15`: `delay timer = VX`.
    SetDelay(usize),
    /// `FX18`: `sound timer = VX`.
    SetSound(usize),
    /// `FX1E`: `I += VX`.
    AddIndex(usize),
    /// `FX29`: `I` = address of the glyph for `VX`.
    FontAddr(usize),
    /// `FX33`: store the decimal digits of `VX` at `I`, `I+1`, `I+2`.
    StoreBcd(usize),
    /// `FX55`: store `V0..=VX` at `I`.
    StoreRegs(usize),
    /// `FX65`: load `V0..=VX` from `I`.
    LoadRegs(usize),
}

impl Instruction {
    /// Every operand is within the range its field can hold.
    pub open spec fn wf(self) -> bool {
        match self {
            Instruction::ClearScreen | Instruction::Return => true,
            Instruction::Sys(a)
            | Instruction::Jump(a)
            | Instruction::Call(a)
            | Instruction::LoadIndex(a)
            | Instruction::JumpOffset(a) => a < 4096,
            Instruction::SkipEqImm(x, _)
            | Instruction::SkipNeImm(x, _)
            | Instruction::LoadImm(x, _)
            | Instruction::AddImm(x, _)
            | Instruction::Random(x, _) => x < 16,
            Instruction::SkipEqReg(x, y)
            | Instruction::Move(x, y)
            | Instruction::Or(x, y)
            | Instruction::And(x, y)
            | Instruction::Xor(x, y)
            | Instruction::AddReg(x, y)
            | Instruction::SubReg(x, y)
            | Instruction::SubFrom(x, y)
            | Instruction::SkipNeReg(x, y) => x < 16 && y < 16,
            Instruction::Draw(x, y, n) => x < 16 && y < 16 && n < 16,
            Instruction::ShiftRight(x)
            | Instruction::ShiftLeft(x)
            | Instruction::SkipKeyDown(x)
            | Instruction::SkipKeyUp(x)
            | Instruction::ReadDelay(x)
            | Instruction::WaitKey(x)
            | Instruction::SetDelay(x)
            | Instruction::SetSound(x)
            | Instruction::AddIndex(x)
            | Instruction::FontAddr(x)
            | Instruction::StoreBcd(x)
            | Instruction::StoreRegs(x)
            | Instruction::LoadRegs(x) => x < 16,
        }
    }
}

/// The instruction that a word encodes, or `None` where the word matches no
/// pattern of the instruction set.
pub open spec fn decoded(opcode: u16) -> Option<Instruction> {
    let x = field_x(opcode) as usize;
    let y = field_y(opcode) as usize;
    let n = field_n(opcode) as u8;
    let nn = field_nn(opcode) as u8;
    let nnn = field_nnn(opcode) as u16;
    let family = field_family(opcode);
    if family == 0x0 {
        if nnn == 0x0E0 {
            Some(Instruction::ClearScreen)
        } else if nnn == 0x0EE {
            Some(Instruction::Return)
        } else {
            Some(Instruction::Sys(nnn))
        }
    } else if family == 0x1 {
        Some(Instruction::Jump(nnn))
    } else if family == 0x2 {
        Some(Instruction::Call(nnn))
    } else if family == 0x3 {
        Some(Instruction::SkipEqImm(x, nn))
    } else if family == 0x4 {
        Some(Instruction::SkipNeImm(x, nn))
    } else if family == 0x5 {
        if n == 0 {
            Some(Instruction::SkipEqReg(x, y))
        } else {
            None
        }
    } else if family == 0x6 {
        Some(Instruction::LoadImm(x, nn))
    } else if family == 0x7 {
        Some(Instruction::AddImm(x, nn))
    } else if family == 0x8 {
        if n == 0x0 {
            Some(Instruction::Move(x, y))
        } else if n == 0x1 {
            Some(Instruction::Or(x, y))
        } else if n == 0x2 {
            Some(Instruction::And(x, y))
        } else if n == 0x3 {
            Some(Instruction::Xor(x, y))
        } else if n == 0x4 {
            Some(Instruction::AddReg(x, y))
        } else if n == 0x5 {
            Some(Instruction::SubReg(x, y))
        } else if n == 0x6 {
            Some(Instruction::ShiftRight(x))
        } else if n == 0x7 {
            Some(Instruction::SubFrom(x, y))
        } else if n == 0xE {
            Some(Instruction::ShiftLeft(x))
        } else {
            None
        }
    } else if family == 0x9 {
        if n == 0 {
            Some(Instruction::SkipNeReg(x, y))
        } else {
            None
        }
    } else if family == 0xA {
        Some(Instruction::LoadIndex(nnn))
    } else if family == 0xB {
        Some(Instruction::JumpOffset(nnn))
    } else if family == 0xC {
        Some(Instruction::Random(x, nn))
    } else if family == 0xD {
        Some(Instruction::Draw(x, y, n))
    } else if family == 0xE {
        if nn == 0x9E {
            Some(Instruction::SkipKeyDown(x))
        } else if nn == 0xA1 {
            Some(Instruction::SkipKeyUp(x))
        } else {
            None
        }
    } else {
        if nn == 0x07 {
            Some(Instruction::ReadDelay(x))
        } else if nn == 0x0A {
            Some(Instruction::WaitKey(x))
        } else if nn == 0x15 {
            Some(Instruction::SetDelay(x))
        } else if nn == 0x18 {
            Some(Instruction::SetSound(x))
        } else if nn == 0x1E {
            Some(Instruction::AddIndex(x))
        } else if nn == 0x29 {
            Some(Instruction::FontAddr(x))
        } else if nn == 0x33 {
            Some(Instruction::StoreBcd(x))
        } else if nn == 0x55 {
            Some(Instruction::StoreRegs(x))
        } else if nn == 0x65 {
            Some(Instruction::LoadRegs(x))
        } else {
            None
        }
    }
}

/// Decodes a word into the instruction it encodes. Dispatch is on the family
/// nibble first, then on the low byte or the low nibble where the family has
/// several members.
pub fn decode(opcode: u16) -> (r: Option<Instruction>)
    ensures
        r == decoded(opcode),
        r matches Some(ins) ==> ins.wf(),
{
    let x = X(opcode);
    let y = Y(opcode);
    let n = N(opcode);
    let nn = NN(opcode);
    let nnn = NNN(opcode);
    assert((opcode >> 12) == opcode / 4096) by (bit_vector);
    match opcode >> 12 {
        0x0 => match nnn {
            0x0E0 => Some(Instruction::ClearScreen),
            0x0EE => Some(Instruction::Return),
            _ => Some(Instruction::Sys(nnn)),
        },
        0x1 => Some(Instruction::Jump(nnn)),
        0x2 => Some(Instruction::Call(nnn)),
        0x3 => Some(Instruction::SkipEqImm(x, nn)),
        0x4 => Some(Instruction::SkipNeImm(x, nn)),
        0x5 => match n {
            0x0 => Some(Instruction::SkipEqReg(x, y)),
            _ => None,
        },
        0x6 => Some(Instruction::LoadImm(x, nn)),
        0x7 => Some(Instruction::AddImm(x, nn)),
        0x8 => match n {
            0x0 => Some(Instruction::Move(x, y)),
            0x1 => Some(Instruction::Or(x, y)),
            0x2 => Some(Instruction::And(x, y)),
            0x3 => Some(Instruction::Xor(x, y)),
            0x4 => Some(Instruction::AddReg(x, y)),
            0x5 => Some(Instruction::SubReg(x, y)),
            0x6 => Some(Instruction::ShiftRight(x)),
            0x7 => Some(Instruction::SubFrom(x, y)),
            0xE => Some(Instruction::ShiftLeft(x)),
            _ => None,
        },
        0x9 => match n {
            0x0 => Some(Instruction::SkipNeReg(x, y)),
            _ => None,
        },
        0xA => Some(Instruction::LoadIndex(nnn)),
        0xB => Some(Instruction::JumpOffset(nnn)),
        0xC => Some(Instruction::Random(x, nn)),
        0xD => Some(Instruction::Draw(x, y, n)),
        0xE => match nn {
            0x9E => Some(Instruction::SkipKeyDown(x)),
            0xA1 => Some(Instruction::SkipKeyUp(x)),
            _ => None,
        },
        _ => match nn {
            0x07 => Some(Instruction::ReadDelay(x)),
            0x0A => Some(Instruction::WaitKey(x)),
            0x15 => Some(Instruction::SetDelay(x)),
            0x18 => Some(Instruction::SetSound(x)),
            0x1E => Some(Instruction::AddIndex(x)),
            0x29 => Some(Instruction::FontAddr(x)),
            0x33 => Some(Instruction::StoreBcd(x)),
            0x55 => Some(Instruction::StoreRegs(x)),
            0x65 => Some(Instruction::LoadRegs(x)),
            _ => None,
        },
    }
}

} // verus!
