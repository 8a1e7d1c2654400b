use vstd::prelude::*;

use crate::register::Register;

verus! {

/// The 16-bit word `a NNN`: opcode nibble `a` above a 12-bit operand.
pub open spec fn word_nnn(a: u16, nnn: u16) -> u16 {
    (a << 12u16) | nnn
}

/// The 16-bit word `a X b`: opcode nibble, register nibble, then a byte.
pub open spec fn word_xb(a: u16, x: u16, b: u16) -> u16 {
    (a << 12u16) | (x << 8u16) | b
}

/// The 16-bit word `a X Y n`: four nibbles.
pub open spec fn word_xyn(a: u16, x: u16, y: u16, n: u16) -> u16 {
    (a << 12u16) | (x << 8u16) | (y << 4u16) | n
}

/// The opcode nibble (bits 12..16) of a word.
pub open spec fn nib3(w: u16) -> u16 {
    w >> 12u16
}

/// The X nibble (bits 8..12) of a word.
pub open spec fn nib2(w: u16) -> u16 {
    (w >> 8u16) & 0xFu16
}

/// The Y nibble (bits 4..8) of a word.
pub open spec fn nib1(w: u16) -> u16 {
    (w >> 4u16) & 0xFu16
}

/// The lowest nibble of a word.
pub open spec fn nib0(w: u16) -> u16 {
    w & 0xFu16
}

/// The low byte of a word.
pub open spec fn low8(w: u16) -> u16 {
    w & 0xFFu16
}

/// The 12-bit address operand of a word.
pub open spec fn addr12(w: u16) -> u16 {
    w & 0xFFFu16
}

pub proof fn lemma_word_nnn(a: u16, nnn: u16)
    requires
        a < 16,
        nnn < 0x1000,
    ensures
        nib3(word_nnn(a, nnn)) == a,
        addr12(word_nnn(a, nnn)) == nnn,
{
    assert(((a << 12u16) | nnn) >> 12u16 == a && ((a << 12u16) | nnn) & 0xFFFu16 == nnn)
        by (bit_vector)
        requires
            a < 16,
            nnn < 0x1000,
    ;
}

pub proof fn lemma_word_xb(a: u16, x: u16, b: u16)
    requires
        a < 16,
        x < 16,
        b < 0x100,
    ensures
        nib3(word_xb(a, x, b)) == a,
        nib2(word_xb(a, x, b)) == x,
        low8(word_xb(a, x, b)) == b,
{
    let w = word_xb(a, x, b);
    assert(w >> 12u16 == a && (w >> 8u16) & 0xFu16 == x && w & 0xFFu16 == b) by (bit_vector)
        requires
            a < 16,
            x < 16,
            b < 0x100,
            w == (a << 12u16) | (x << 8u16) | b,
    ;
}

pub proof fn lemma_word_xyn(a: u16, x: u16, y: u16, n: u16)
    requires
        a < 16,
        x < 16,
        y < 16,
        n < 16,
    ensures
        nib3(word_xyn(a, x, y, n)) == a,
        nib2(word_xyn(a, x, y, n)) == x,
        nib1(word_xyn(a, x, y, n)) == y,
        nib0(word_xyn(a, x, y, n)) == n,
{
    let w = word_xyn(a, x, y, n);
    assert(w >> 12u16 == a && (w >> 8u16) & 0xFu16 == x && (w >> 4u16) & 0xFu16 == y && w
        & 0xFu16 == n) by (bit_vector)
        requires
            a < 16,
            x < 16,
            y < 16,
            n < 16,
            w == (a << 12u16) | (x << 8u16) | (y << 4u16) | n,
    ;
}

/// A word is rebuilt from its fields in each of the three shapes.
pub proof fn lemma_word_fields(w: u16)
    ensures
        nib3(w) < 16,
        nib2(w) < 16,
        nib1(w) < 16,
        nib0(w) < 16,
        low8(w) < 0x100,
        addr12(w) < 0x1000,
        word_nnn(nib3(w), addr12(w)) == w,
        word_xb(nib3(w), nib2(w), low8(w)) == w,
        word_xyn(nib3(w), nib2(w), nib1(w), nib0(w)) == w,
{
    assert(w >> 12u16 < 16 && (w >> 8u16) & 0xFu16 < 16 && (w >> 4u16) & 0xFu16 < 16 && w & 0xFu16
        < 16 && w & 0xFFu16 < 0x100 && w & 0xFFFu16 < 0x1000) by (bit_vector);
    assert(((w >> 12u16) << 12u16) | (w & 0xFFFu16) == w) by (bit_vector);
    assert(((w >> 12u16) << 12u16) | (((w >> 8u16) & 0xFu16) << 8u16) | (w & 0xFFu16) == w)
        by (bit_vector);
    assert(((w >> 12u16) << 12u16) | (((w >> 8u16) & 0xFu16) << 8u16) | (((w >> 4u16) & 0xFu16)
        << 4u16) | (w & 0xFu16) == w) by (bit_vector);
}

/// Builds the word `a NNN`.
pub fn make_word_nnn(a: u16, nnn: u16) -> (r: u16)
    ensures
        r == word_nnn(a, nnn),
{
    (a << 12u16) | nnn
}

/// Builds the word `a X b`.
pub fn make_word_xb(a: u16, x: u16, b: u16) -> (r: u16)
    ensures
        r == word_xb(a, x, b),
{
    (a << 12u16) | (x << 8u16) | b
}

/// Builds the word `a X Y n`.
pub fn make_word_xyn(a: u16, x: u16, y: u16, n: u16) -> (r: u16)
    ensures
        r == word_xyn(a, x, y, n),
{
    (a << 12u16) | (x << 8u16) | (y << 4u16) | n
}

/// A CHIP-8 instruction with its operands.
#[derive(Debug, Clone, Copy, PartialEq, Eq, Structural)]
pub enum Instruction {
    /// 0NNN. Run a machine language routine; this machine refuses it.
    ExecuteMachineLanguageRoutine,
    /// 00E0. Clear the screen.
    Clear,
    /// 00EE. Return from a subroutine.
    SubroutineReturn,
    /// 1NNN. Jump to the given address.
    Jump(u16),
    /// 2NNN. Call the subroutine at the given address, pushing the current PC.
    SubroutineCall(u16),
    /// 3XNN. Skip the next instruction if VX == NN.
    SkipConditional1(Register, u8),
    /// 4XNN. Skip the next instruction if VX != NN.
    SkipConditional2(Register, u8),
    /// 5XY0. Skip the next instruction if VX == VY.
    SkipConditional3(Register, Register),
    /// 6XNN. VX = NN.
    SetRegister(Register, u8),
    /// 7XNN. VX = VX + NN, wrapping; VF is left alone.
    Add(Register, u8),
    /// 8XY0. VX = VY.
    RegSet(Register, Register),
    /// 8XY1. VX = VX | VY.
    BinaryOr(Register, Register),
    /// 8XY2. VX = VX & VY.
    BinaryAnd(Register, Register),
    /// 8XY3. VX = VX ^ VY.
    BinaryXor(Register, Register),
    /// 8XY4. VX = VX + VY; VF = carry.
    RegAdd(Register, Register),
    /// 8XY5. VX = VX - VY; VF = no borrow.
    Subtract1(Register, Register),
    /// 8XY6. VX = VY >> 1 (or VX >> 1); VF = the bit shifted out.
    ShiftRight(Register, Register),
    /// 8XY7. VX = VY - VX; VF = no borrow.
    Subtract2(Register, Register),
    /// 8XYE. VX = VY << 1 (or VX << 1); VF = the bit shifted out.
    ShiftLeft(Register, Register),
    /// 9XY0. Skip the next instruction if VX != VY.
    SkipConditional4(Register, Register),
    /// ANNN. I = NNN.
    SetIndexRegister(u16),
    /// BNNN. Jump to NNN + V0.
    JumpOffset(u16),
    /// CXNN. VX = random byte & NN.
    Random(Register, u8),
    /// DXYN. Draw an N-row sprite from memory at I to (VX, VY).
    Draw(Register, Register, u8),
    /// EX9E. Skip the next instruction if the key in VX is pressed.
    SkipIfKey(Register),
    /// EXA1. Skip the next instruction if the key in VX is not pressed.
    SkipIfNotKey(Register),
    /// FX07. VX = delay timer.
    GetDelayTimer(Register),
    /// FX0A. Wait for a key release and put the key into VX.
    GetKey(Register),
    /// FX15. Delay timer = VX.
    SetDelayTimer(Register),
    /// FX18. Sound timer = VX.
    SetSoundTimer(Register),
    /// FX1E. I = I + VX.
    AddToIndex(Register),
    /// FX29. The address of the font glyph for the digit in VX.
    FontCharacter(Register),
    /// FX33. Store the decimal digits of VX at I, I+1, I+2.
    BCD(Register),
    /// FX55. Store V0..=VX at successive addresses from I.
    StoreMemory(u8),
    /// FX65. Load V0..=VX from successive addresses from I.
    LoadMemory(u8),
    /// A raw data word; only used in assembly.
    Db(u16),
}

/// The index of a register, as a word field.
pub open spec fn rx(r: Register) -> u16 {
    r.spec_index() as u16
}

impl Instruction {
    /// Every operand fits its field: addresses in 12 bits, counts in 4 bits.
    pub open spec fn wf(self) -> bool {
        match self {
            Instruction::Jump(nnn) => nnn < 0x1000,
            Instruction::SubroutineCall(nnn) => nnn < 0x1000,
            Instruction::SetIndexRegister(nnn) => nnn < 0x1000,
            Instruction::JumpOffset(nnn) => nnn < 0x1000,
            Instruction::Draw(_, _, n) => n < 16,
            Instruction::StoreMemory(x) => x < 16,
            Instruction::LoadMemory(x) => x < 16,
            _ => true,
        }
    }

    /// The 16-bit encoding of the instruction.
    pub open spec fn spec_encode(self) -> u16 {
        match self {
            Instruction::ExecuteMachineLanguageRoutine => 0,
            Instruction::Clear => word_xb(0, 0, 0xE0),
            Instruction::SubroutineReturn => word_xb(0, 0, 0xEE),
            Instruction::Jump(nnn) => word_nnn(1, nnn),
            Instruction::SubroutineCall(nnn) => word_nnn(2, nnn),
            Instruction::SkipConditional1(vx, nn) => word_xb(3, rx(vx), nn as u16),
            Instruction::SkipConditional2(vx, nn) => word_xb(4, rx(vx), nn as u16),
            Instruction::SkipConditional3(vx, vy) => word_xyn(5, rx(vx), rx(vy), 0),
            Instruction::SetRegister(vx, nn) => word_xb(6, rx(vx), nn as u16),
            Instruction::Add(vx, nn) => word_xb(7, rx(vx), nn as u16),
            Instruction::RegSet(vx, vy) => word_xyn(8, rx(vx), rx(vy), 0),
            Instruction::BinaryOr(vx, vy) => word_xyn(8, rx(vx), rx(vy), 1),
            Instruction::BinaryAnd(vx, vy) => word_xyn(8, rx(vx), rx(vy), 2),
            Instruction::BinaryXor(vx, vy) => word_xyn(8, rx(vx), rx(vy), 3),
            Instruction::RegAdd(vx, vy) => word_xyn(8, rx(vx), rx(vy), 4),
            Instruction::Subtract1(vx, vy) => word_xyn(8, rx(vx), rx(vy), 5),
            Instruction::ShiftRight(vx, vy) => word_xyn(8, rx(vx), rx(vy), 6),
            Instruction::Subtract2(vx, vy) => word_xyn(8, rx(vx), rx(vy), 7),
            Instruction::ShiftLeft(vx, vy) => word_xyn(8, rx(vx), rx(vy), 0xE),
            Instruction::SkipConditional4(vx, vy) => word_xyn(9, rx(vx), rx(vy), 0),
            Instruction::SetIndexRegister(nnn) => word_nnn(0xA, nnn),
            Instruction::JumpOffset(nnn) => word_nnn(0xB, nnn),
            Instruction::Random(vx, nn) => word_xb(0xC, rx(vx), nn as u16),
            Instruction::Draw(vx, vy, n) => word_xyn(0xD, rx(vx), rx(vy), n as u16),
            Instruction::SkipIfKey(vx) => word_xb(0xE, rx(vx), 0x9E),
            Instruction::SkipIfNotKey(vx) => word_xb(0xE, rx(vx), 0xA1),
            Instruction::GetDelayTimer(vx) => word_xb(0xF, rx(vx), 0x07),
            Instruction::GetKey(vx) => word_xb(0xF, rx(vx), 0x0A),
            Instruction::SetDelayTimer(vx) => word_xb(0xF, rx(vx), 0x15),
            Instruction::SetSoundTimer(vx) => word_xb(0xF, rx(vx), 0x18),
            Instruction::AddToIndex(vx) => word_xb(0xF, rx(vx), 0x1E),
            Instruction::FontCharacter(vx) => word_xb(0xF, rx(vx), 0x29),
            Instruction::BCD(vx) => word_xb(0xF, rx(vx), 0x33),
            Instruction::StoreMemory(x) => word_xb(0xF, x as u16, 0x55),
            Instruction::LoadMemory(x) => word_xb(0xF, x as u16, 0x65),
            Instruction::Db(nnnn) => nnnn,
        }
    }

    /// Converts the instruction to its 16-bit encoding.
    pub fn serialize(&self) -> (r: u16)
        ensures
            r == self.spec_encode(),
    {
        match *self {
            Instruction::ExecuteMachineLanguageRoutine => 0,
            Instruction::Clear => make_word_xb(0, 0, 0xE0),
            Instruction::SubroutineReturn => make_word_xb(0, 0, 0xEE),
            Instruction::Jump(nnn) => make_word_nnn(1, nnn),
            Instruction::SubroutineCall(nnn) => make_word_nnn(2, nnn),
            Instruction::SkipConditional1(vx, nn) => make_word_xb(3, vx.index() as u16, nn as u16),
            Instruction::SkipConditional2(vx, nn) => make_word_xb(4, vx.index() as u16, nn as u16),
            Instruction::SkipConditional3(vx, vy) => make_word_xyn(
                5,
                vx.index() as u16,
                vy.index() as u16,
                0,
            ),
            Instruction::SetRegister(vx, nn) => make_word_xb(6, vx.index() as u16, nn as u16),
            Instruction::Add(vx, nn) => make_word_xb(7, vx.index() as u16, nn as u16),
            Instruction::RegSet(vx, vy) => make_word_xyn(
                8,
                vx.index() as u16,
                vy.index() as u16,
                0,
            ),
            Instruction::BinaryOr(vx, vy) => make_word_xyn(
                8,
                vx.index() as u16,
                vy.index() as u16,
                1,
            ),
            Instruction::BinaryAnd(vx, vy) => make_word_xyn(
                8,
                vx.index() as u16,
                vy.index() as u16,
                2,
            ),
            Instruction::BinaryXor(vx, vy) => make_word_xyn(
                8,
                vx.index() as u16,
                vy.index() as u16,
                3,
            ),
            Instruction::RegAdd(vx, vy) => make_word_xyn(
                8,
                vx.index() as u16,
                vy.index() as u16,
                4,
            ),
            Instruction::Subtract1(vx, vy) => make_word_xyn(
                8,
                vx.index() as u16,
                vy.index() as u16,
                5,
            ),
            Instruction::ShiftRight(vx, vy) => make_word_xyn(
                8,
                vx.index() as u16,
                vy.index() as u16,
                6,
            ),
            Instruction::Subtract2(vx, vy) => make_word_xyn(
                8,
                vx.index() as u16,
                vy.index() as u16,
                7,
            ),
            Instruction::ShiftLeft(vx, vy) => make_word_xyn(
                8,
                vx.index() as u16,
                vy.index() as u16,
                0xE,
            ),
            Instruction::SkipConditional4(vx, vy) => make_word_xyn(
                9,
                vx.index() as u16,
                vy.index() as u16,
                0,
            ),
            Instruction::SetIndexRegister(nnn) => make_word_nnn(0xA, nnn),
            Instruction::JumpOffset(nnn) => make_word_nnn(0xB, nnn),
            Instruction::Random(vx, nn) => make_word_xb(0xC, vx.index() as u16, nn as u16),
            Instruction::Draw(vx, vy, n) => make_word_xyn(
                0xD,
                vx.index() as u16,
                vy.index() as u16,
                n as u16,
            ),
            Instruction::SkipIfKey(vx) => make_word_xb(0xE, vx.index() as u16, 0x9E),
            Instruction::SkipIfNotKey(vx) => make_word_xb(0xE, vx.index() as u16, 0xA1),
            Instruction::GetDelayTimer(vx) => make_word_xb(0xF, vx.index() as u16, 0x07),
            Instruction::GetKey(vx) => make_word_xb(0xF, vx.index() as u16, 0x0A),
            Instruction::SetDelayTimer(vx) => make_word_xb(0xF, vx.index() as u16, 0x15),
            Instruction::SetSoundTimer(vx) => make_word_xb(0xF, vx.index() as u16, 0x18),
            Instruction::AddToIndex(vx) => make_word_xb(0xF, vx.index() as u16, 0x1E),
            Instruction::FontCharacter(vx) => make_word_xb(0xF, vx.index() as u16, 0x29),
            Instruction::BCD(vx) => make_word_xb(0xF, vx.index() as u16, 0x33),
            Instruction::StoreMemory(x) => make_word_xb(0xF, x as u16, 0x55),
            Instruction::LoadMemory(x) => make_word_xb(0xF, x as u16, 0x65),
            Instruction::Db(nnnn) => nnnn,
        }
    }
}

} // verus!
