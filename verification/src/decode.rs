//! Opcode classification and operand extraction.
//!
//! Every 16-bit instruction word is classified into exactly one typed
//! operation ([`Op`]) or rejected; the classification [`spec_decode`] is total
//! over `0x0000..=0xFFFF`. The extraction helpers pull register indices,
//! immediates and addresses out of the word by instruction shape; none of
//! them can fail, since a 4-bit field is always within `0..16`.

use vstd::prelude::*;

verus! {

/// One of the recognized CHIP-8 operations, with its decoded operands.
///
/// Register indices are 4-bit (`< 16`), immediates are bytes, addresses are
/// 12-bit (`< 4096`); [`lemma_decode_wf`] shows that decoding only produces
/// operands in these ranges.
#[derive(Clone, Copy, Debug, PartialEq, Eq, Structural)]
pub enum Op {
    /// `00E0`: clear the display buffer.
    Cls,
    /// `00EE`: pop a return address and jump to it.
    Ret,
    /// `1nnn`: jump to the absolute address.
    Jump(u16),
    /// `2nnn`: push the current `pc` and jump to the absolute address.
    Call(u16),
    /// `3xkk`: skip the next instruction if `Vx == kk`.
    SkipEqImm(u8, u8),
    /// `4xkk`: skip the next instruction if `Vx != kk`.
    SkipNeImm(u8, u8),
    /// `5xy0`: skip the next instruction if `Vx == Vy`.
    SkipEqReg(u8, u8),
    /// `6xkk`: load the immediate into `Vx`.
    LoadImm(u8, u8),
    /// `7xkk`: add the immediate to `Vx`, wrapping; `VF` unaffected.
    AddImm(u8, u8),
    /// `8xy0`: copy `Vy` into `Vx`.
    Move(u8, u8),
    /// `8xy1`: bitwise or of `Vx` and `Vy` into `Vx`.
    Or(u8, u8),
    /// `8xy2`: bitwise and of `Vx` and `Vy` into `Vx`.
    And(u8, u8),
    /// `8xy3`: bitwise xor of `Vx` and `Vy` into `Vx`.
    Xor(u8, u8),
    /// `8xy4`: `Vx := Vx + Vy` wrapping; `VF := 1` on unsigned overflow, else `0`.
    AddReg(u8, u8),
    /// `8xy5`: `VF := 1` if `Vx > Vy` else `0`; then `Vx := Vx - Vy` wrapping.
    SubReg(u8, u8),
    /// `8xy6`: `VF` takes the bit shifted out; then `Vx := Vx >> 1`.
    ShiftRight(u8, u8),
    /// `8xy7`: `VF := 1` if `Vy > Vx` else `0`; then `Vx := Vy - Vx` wrapping.
    SubFrom(u8, u8),
    /// `8xyE`: `VF` takes the bit shifted out; then `Vx := Vx << 1` wrapping.
    ShiftLeft(u8, u8),
    /// `9xy0`: skip the next instruction if `Vx != Vy`.
    SkipNeReg(u8, u8),
    /// `Annn`: load the absolute address into `I`.
    LoadIndex(u16),
    /// `Bnnn`: jump to `nnn + V0`.
    JumpOffset(u16),
    /// `Cxkk`: `Vx := random byte & kk`.
    Random(u8, u8),
    /// `Dxyn`: draw the `n`-byte sprite at `memory[I..]` at `(Vx, Vy)`.
    Draw(u8, u8, u8),
    /// `Ex9E`: skip the next instruction if key `Vx` is pressed.
    SkipKeyDown(u8),
    /// `ExA1`: skip the next instruction if key `Vx` is released.
    SkipKeyUp(u8),
    /// `Fx07`: `Vx := delay timer`.
    ReadDelay(u8),
    /// `Fx0A`: wait for a key press; `Vx := that key`.
    WaitKey(u8),
    /// `Fx15`: delay timer `:= Vx`.
    SetDelay(u8),
    /// `Fx18`: sound timer `:= Vx`.
    SetSound(u8),
    /// `Fx1E`: `I := I + Vx`, 16-bit, no overflow flag.
    AddIndex(u8),
    /// `Fx29`: `I :=` address of the font sprite for digit `Vx`.
    FontAddr(u8),
    /// `Fx33`: store the decimal digits of `Vx` at `memory[I..I+3]`.
    StoreBcd(u8),
    /// `Fx55`: store `V0..Vx` inclusive into `memory[I..I+x+1]`.
    StoreRegs(u8),
    /// `Fx65`: load `V0..Vx` inclusive from `memory[I..I+x+1]`.
    LoadRegs(u8),
}

/// The total classification of instruction words: every value either maps to
/// exactly one operation or to `None`, which the engine reports as an
/// invalid-opcode fault.
pub open spec fn spec_decode(inst: u16) -> Option<Op> {
    let family = (inst & 0xF000) >> 12;
    let x = ((inst & 0x0F00) >> 8) as u8;
    let y = ((inst & 0x00F0) >> 4) as u8;
    let z = (inst & 0x000F) as u8;
    let kk = (inst & 0x00FF) as u8;
    let nnn = inst & 0x0FFF;
    if inst == 0x00E0 {
        Some(Op::Cls)
    } else if inst == 0x00EE {
        Some(Op::Ret)
    } else if family == 0x1 {
        Some(Op::Jump(nnn))
    } else if family == 0x2 {
        Some(Op::Call(nnn))
    } else if family == 0x3 {
        Some(Op::SkipEqImm(x, kk))
    } else if family == 0x4 {
        Some(Op::SkipNeImm(x, kk))
    } else if family == 0x5 && z == 0 {
        Some(Op::SkipEqReg(x, y))
    } else if family == 0x6 {
        Some(Op::LoadImm(x, kk))
    } else if family == 0x7 {
        Some(Op::AddImm(x, kk))
    } else if family == 0x8 {
        if z == 0x0 {
            Some(Op::Move(x, y))
        } else if z == 0x1 {
            Some(Op::Or(x, y))
        } else if z == 0x2 {
            Some(Op::And(x, y))
        } else if z == 0x3 {
            Some(Op::Xor(x, y))
        } else if z == 0x4 {
            Some(Op::AddReg(x, y))
        } else if z == 0x5 {
            Some(Op::SubReg(x, y))
        } else if z == 0x6 {
            Some(Op::ShiftRight(x, y))
        } else if z == 0x7 {
            Some(Op::SubFrom(x, y))
        } else if z == 0xE {
            Some(Op::ShiftLeft(x, y))
        } else {
            None
        }
    } else if family == 0x9 && z == 0 {
        Some(Op::SkipNeReg(x, y))
    } else if family == 0xA {
        Some(Op::LoadIndex(nnn))
    } else if family == 0xB {
        Some(Op::JumpOffset(nnn))
    } else if family == 0xC {
        Some(Op::Random(x, kk))
    } else if family == 0xD {
        Some(Op::Draw(x, y, z))
    } else if family == 0xE && kk == 0x9E {
        Some(Op::SkipKeyDown(x))
    } else if family == 0xE && kk == 0xA1 {
        Some(Op::SkipKeyUp(x))
    } else if family == 0xF {
        if kk == 0x07 {
            Some(Op::ReadDelay(x))
        } else if kk == 0x0A {
            Some(Op::WaitKey(x))
        } else if kk == 0x15 {
            Some(Op::SetDelay(x))
        } else if kk == 0x18 {
            Some(Op::SetSound(x))
        } else if kk == 0x1E {
            Some(Op::AddIndex(x))
        } else if kk == 0x29 {
            Some(Op::FontAddr(x))
        } else if kk == 0x33 {
            Some(Op::StoreBcd(x))
        } else if kk == 0x55 {
            Some(Op::StoreRegs(x))
        } else if kk == 0x65 {
            Some(Op::LoadRegs(x))
        } else {
            None
        }
    } else {
        None
    }
}

/// Operand ranges of a decoded operation: register indices and sub-selectors
/// are 4-bit, addresses 12-bit.
pub open spec fn op_wf(op: Op) -> bool {
    match op {
        Op::Cls => true,
        Op::Ret => true,
        Op::Jump(nnn) => nnn < 4096,
        Op::Call(nnn) => nnn < 4096,
        Op::SkipEqImm(x, _kk) => x < 16,
        Op::SkipNeImm(x, _kk) => x < 16,
        Op::SkipEqReg(x, y) => x < 16 && y < 16,
        Op::LoadImm(x, _kk) => x < 16,
        Op::AddImm(x, _kk) => x < 16,
        Op::Move(x, y) => x < 16 && y < 16,
        Op::Or(x, y) => x < 16 && y < 16,
        Op::And(x, y) => x < 16 && y < 16,
        Op::Xor(x, y) => x < 16 && y < 16,
        Op::AddReg(x, y) => x < 16 && y < 16,
        Op::SubReg(x, y) => x < 16 && y < 16,
        Op::ShiftRight(x, y) => x < 16 && y < 16,
        Op::SubFrom(x, y) => x < 16 && y < 16,
        Op::ShiftLeft(x, y) => x < 16 && y < 16,
        Op::SkipNeReg(x, y) => x < 16 && y < 16,
        Op::LoadIndex(nnn) => nnn < 4096,
        Op::JumpOffset(nnn) => nnn < 4096,
        Op::Random(x, _kk) => x < 16,
        Op::Draw(x, y, n) => x < 16 && y < 16 && n < 16,
        Op::SkipKeyDown(x) => x < 16,
        Op::SkipKeyUp(x) => x < 16,
        Op::ReadDelay(x) => x < 16,
        Op::WaitKey(x) => x < 16,
        Op::SetDelay(x) => x < 16,
        Op::SetSound(x) => x < 16,
        Op::AddIndex(x) => x < 16,
        Op::FontAddr(x) => x < 16,
        Op::StoreBcd(x) => x < 16,
        Op::StoreRegs(x) => x < 16,
        Op::LoadRegs(x) => x < 16,
    }
}

/// Whatever operation an instruction word decodes to has its operands in
/// range: the 4-bit and 12-bit fields cannot fall outside `0..16` and
/// `0..4096`.
pub proof fn lemma_decode_wf(inst: u16)
    ensures
        spec_decode(inst) matches Some(op) ==> op_wf(op),
{
    assert(((inst & 0x0F00) >> 8) < 16) by (bit_vector);
    assert(((inst & 0x00F0) >> 4) < 16) by (bit_vector);
    assert((inst & 0x000F) < 16) by (bit_vector);
    assert((inst & 0x0FFF) < 4096) by (bit_vector);
}

/// Operands of a `kk`-form opcode: the register index `x` from bits 8-11 and
/// the immediate byte from the low byte.
pub fn extract_0xkk(value: u16) -> (r: (usize, u8))
    ensures
        r.0 == ((value & 0x0F00) >> 8) as usize,
        r.1 == (value & 0x00FF) as u8,
        r.0 < 16,
{
    proof {
        assert(((value & 0x0F00) >> 8) < 16) by (bit_vector);
    }
    let x = (value & 0x0F00) >> 8;
    let kk = (value & 0x00FF) as u8;
    (x as usize, kk)
}

/// Operands of an `xy`-form opcode: two register indices from bits 8-11 and
/// 4-7.
pub fn extract_0xy0(value: u16) -> (r: (usize, usize))
    ensures
        r.0 == ((value & 0x0F00) >> 8) as usize,
        r.1 == ((value & 0x00F0) >> 4) as usize,
        r.0 < 16,
        r.1 < 16,
{
    proof {
        assert(((value & 0x0F00) >> 8) < 16) by (bit_vector);
        assert(((value & 0x00F0) >> 4) < 16) by (bit_vector);
    }
    let x = (value & 0x0F00) >> 8;
    let y = (value & 0x00F0) >> 4;
    (x as usize, y as usize)
}

/// Operands of an `xyz`-form opcode: two register indices and the 4-bit
/// sub-operation selector from the low nibble.
pub fn extract_0xyz(value: u16) -> (r: (usize, usize, u16))
    ensures
        r.0 == ((value & 0x0F00) >> 8) as usize,
        r.1 == ((value & 0x00F0) >> 4) as usize,
        r.2 == value & 0x000F,
        r.0 < 16,
        r.1 < 16,
        r.2 < 16,
{
    proof {
        assert(((value & 0x0F00) >> 8) < 16) by (bit_vector);
        assert(((value & 0x00F0) >> 4) < 16) by (bit_vector);
        assert((value & 0x000F) < 16) by (bit_vector);
    }
    let x = (value & 0x0F00) >> 8;
    let y = (value & 0x00F0) >> 4;
    let z = value & 0x000F;
    (x as usize, y as usize, z)
}

/// Operands of an `xii`-form opcode: the register index `x` and the low byte
/// as a secondary selector.
pub fn extract_0xii(value: u16) -> (r: (usize, u8))
    ensures
        r.0 == ((value & 0x0F00) >> 8) as usize,
        r.1 == (value & 0x00FF) as u8,
        r.0 < 16,
{
    proof {
        assert(((value & 0x0F00) >> 8) < 16) by (bit_vector);
    }
    let x = (value & 0x0F00) >> 8;
    let ii = (value & 0x00FF) as u8;
    (x as usize, ii)
}

/// The 12-bit absolute address in the low bits of a `nnn`-form opcode.
pub fn extract_0nnn(value: u16) -> (r: u16)
    ensures
        r == value & 0x0FFF,
        r < 4096,
{
    proof {
        assert((value & 0x0FFF) < 4096) by (bit_vector);
    }
    value & 0x0FFF
}

/// The executable decoder: classifies `inst` exactly as [`spec_decode`] does.
pub fn decode(inst: u16) -> (r: Option<Op>)
    ensures
        r == spec_decode(inst),
        r matches Some(op) ==> op_wf(op),
{
    proof {
        lemma_decode_wf(inst);
    }
    let family = (inst & 0xF000) >> 12;
    let (xu, kk) = extract_0xkk(inst);
    let x = xu as u8;
    let (_, yu) = extract_0xy0(inst);
    let y = yu as u8;
    let (_, _, zw) = extract_0xyz(inst);
    let z = zw as u8;
    let nnn = extract_0nnn(inst);
    if inst == 0x00E0 {
        Some(Op::Cls)
    } else if inst == 0x00EE {
        Some(Op::Ret)
    } else if family == 0x1 {
        Some(Op::Jump(nnn))
    } else if family == 0x2 {
        Some(Op::Call(nnn))
    } else if family == 0x3 {
        Some(Op::SkipEqImm(x, kk))
    } else if family == 0x4 {
        Some(Op::SkipNeImm(x, kk))
    } else if family == 0x5 && z == 0 {
        Some(Op::SkipEqReg(x, y))
    } else if family == 0x6 {
        Some(Op::LoadImm(x, kk))
    } else if family == 0x7 {
        Some(Op::AddImm(x, kk))
    } else if family == 0x8 {
        if z == 0x0 {
            Some(Op::Move(x, y))
        } else if z == 0x1 {
            Some(Op::Or(x, y))
        } else if z == 0x2 {
            Some(Op::And(x, y))
        } else if z == 0x3 {
            Some(Op::Xor(x, y))
        } else if z == 0x4 {
            Some(Op::AddReg(x, y))
        } else if z == 0x5 {
            Some(Op::SubReg(x, y))
        } else if z == 0x6 {
            Some(Op::ShiftRight(x, y))
        } else if z == 0x7 {
            Some(Op::SubFrom(x, y))
        } else if z == 0xE {
            Some(Op::ShiftLeft(x, y))
        } else {
            None
        }
    } else if family == 0x9 && z == 0 {
        Some(Op::SkipNeReg(x, y))
    } else if family == 0xA {
        Some(Op::LoadIndex(nnn))
    } else if family == 0xB {
        Some(Op::JumpOffset(nnn))
    } else if family == 0xC {
        Some(Op::Random(x, kk))
    } else if family == 0xD {
        Some(Op::Draw(x, y, z))
    } else if family == 0xE && kk == 0x9E {
        Some(Op::SkipKeyDown(x))
    } else if family == 0xE && kk == 0xA1 {
        Some(Op::SkipKeyUp(x))
    } else if family == 0xF {
        if kk == 0x07 {
            Some(Op::ReadDelay(x))
        } else if kk == 0x0A {
            Some(Op::WaitKey(x))
        } else if kk == 0x15 {
            Some(Op::SetDelay(x))
        } else if kk == 0x18 {
            Some(Op::SetSound(x))
        } else if kk == 0x1E {
            Some(Op::AddIndex(x))
        } else if kk == 0x29 {
            Some(Op::FontAddr(x))
        } else if kk == 0x33 {
            Some(Op::StoreBcd(x))
        } else if kk == 0x55 {
            Some(Op::StoreRegs(x))
        } else if kk == 0x65 {
            Some(Op::LoadRegs(x))
        } else {
            None
        }
    } else {
        None
    }
}

} // verus!
