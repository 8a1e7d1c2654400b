use vstd::prelude::*;

use crate::instruction::{
    addr12, lemma_word_fields, lemma_word_nnn, lemma_word_xb, lemma_word_xyn, low8, nib0, nib1,
    nib2, nib3, rx, Instruction,
};
use crate::register::{lemma_register_from_index, lemma_register_index, Register};

verus! {

/// The register named by a 4-bit field.
pub open spec fn reg_of(n: u16) -> Register {
    Register::spec_from_index(n as u8)
}

/// The standard CHIP-8 decode table; `None` for a word that matches no pattern.
pub open spec fn spec_decode(w: u16) -> Option<Instruction> {
    let op = nib3(w);
    let x = reg_of(nib2(w));
    let y = reg_of(nib1(w));
    let n = nib0(w);
    let nn = low8(w);
    let nnn = addr12(w);
    if op == 0x0 {
        if nib2(w) == 0 && nn == 0xE0 {
            Some(Instruction::Clear)
        } else if nib2(w) == 0 && nn == 0xEE {
            Some(Instruction::SubroutineReturn)
        } else {
            None
        }
    } else if op == 0x1 {
        Some(Instruction::Jump(nnn))
    } else if op == 0x2 {
        Some(Instruction::SubroutineCall(nnn))
    } else if op == 0x3 {
        Some(Instruction::SkipConditional1(x, nn as u8))
    } else if op == 0x4 {
        Some(Instruction::SkipConditional2(x, nn as u8))
    } else if op == 0x5 {
        if n == 0 {
            Some(Instruction::SkipConditional3(x, y))
        } else {
            None
        }
    } else if op == 0x6 {
        Some(Instruction::SetRegister(x, nn as u8))
    } else if op == 0x7 {
        Some(Instruction::Add(x, nn as u8))
    } else if op == 0x8 {
        if n == 0 {
            Some(Instruction::RegSet(x, y))
        } else if n == 1 {
            Some(Instruction::BinaryOr(x, y))
        } else if n == 2 {
            Some(Instruction::BinaryAnd(x, y))
        } else if n == 3 {
            Some(Instruction::BinaryXor(x, y))
        } else if n == 4 {
            Some(Instruction::RegAdd(x, y))
        } else if n == 5 {
            Some(Instruction::Subtract1(x, y))
        } else if n == 6 {
            Some(Instruction::ShiftRight(x, y))
        } else if n == 7 {
            Some(Instruction::Subtract2(x, y))
        } else if n == 0xE {
            Some(Instruction::ShiftLeft(x, y))
        } else {
            None
        }
    } else if op == 0x9 {
        if n == 0 {
            Some(Instruction::SkipConditional4(x, y))
        } else {
            None
        }
    } else if op == 0xA {
        Some(Instruction::SetIndexRegister(nnn))
    } else if op == 0xB {
        Some(Instruction::JumpOffset(nnn))
    } else if op == 0xC {
        Some(Instruction::Random(x, nn as u8))
    } else if op == 0xD {
        Some(Instruction::Draw(x, y, n as u8))
    } else if op == 0xE {
        if nn == 0x9E {
            Some(Instruction::SkipIfKey(x))
        } else if nn == 0xA1 {
            Some(Instruction::SkipIfNotKey(x))
        } else {
            None
        }
    } else {
        if nn == 0x07 {
            Some(Instruction::GetDelayTimer(x))
        } else if nn == 0x0A {
            Some(Instruction::GetKey(x))
        } else if nn == 0x15 {
            Some(Instruction::SetDelayTimer(x))
        } else if nn == 0x18 {
            Some(Instruction::SetSoundTimer(x))
        } else if nn == 0x1E {
            Some(Instruction::AddToIndex(x))
        } else if nn == 0x29 {
            Some(Instruction::FontCharacter(x))
        } else if nn == 0x33 {
            Some(Instruction::BCD(x))
        } else if nn == 0x55 {
            Some(Instruction::StoreMemory(nib2(w) as u8))
        } else if nn == 0x65 {
            Some(Instruction::LoadMemory(nib2(w) as u8))
        } else {
            None
        }
    }
}

/// Decodes a 16-bit word into an instruction, or `None` when it matches no pattern.
pub fn decode(ins: u16) -> (r: Option<Instruction>)
    ensures
        r == spec_decode(ins),
        r matches Some(i) ==> i.wf(),
{
    proof {
        lemma_word_fields(ins);
    }
    let first = ins >> 12u16;
    let second = (ins >> 8u16) & 0xFu16;
    let third = (ins >> 4u16) & 0xFu16;
    let fourth = ins & 0xFu16;
    let nn = ins & 0xFFu16;
    let nnn = ins & 0xFFFu16;
    let x = Register::from_index(second as u8);
    let y = Register::from_index(third as u8);
    match first {
        0x0 => {
            if second == 0 && nn == 0xE0 {
                Some(Instruction::Clear)
            } else if second == 0 && nn == 0xEE {
                Some(Instruction::SubroutineReturn)
            } else {
                None
            }
        },
        0x1 => Some(Instruction::Jump(nnn)),
        0x2 => Some(Instruction::SubroutineCall(nnn)),
        0x3 => Some(Instruction::SkipConditional1(x, nn as u8)),
        0x4 => Some(Instruction::SkipConditional2(x, nn as u8)),
        0x5 => match fourth {
            0 => Some(Instruction::SkipConditional3(x, y)),
            _ => None,
        },
        0x6 => Some(Instruction::SetRegister(x, nn as u8)),
        0x7 => Some(Instruction::Add(x, nn as u8)),
        0x8 => match fourth {
            0 => Some(Instruction::RegSet(x, y)),
            1 => Some(Instruction::BinaryOr(x, y)),
            2 => Some(Instruction::BinaryAnd(x, y)),
            3 => Some(Instruction::BinaryXor(x, y)),
            4 => Some(Instruction::RegAdd(x, y)),
            5 => Some(Instruction::Subtract1(x, y)),
            6 => Some(Instruction::ShiftRight(x, y)),
            7 => Some(Instruction::Subtract2(x, y)),
            0xE => Some(Instruction::ShiftLeft(x, y)),
            _ => None,
        },
        0x9 => match fourth {
            0 => Some(Instruction::SkipConditional4(x, y)),
            _ => None,
        },
        0xA => Some(Instruction::SetIndexRegister(nnn)),
        0xB => Some(Instruction::JumpOffset(nnn)),
        0xC => Some(Instruction::Random(x, nn as u8)),
        0xD => Some(Instruction::Draw(x, y, fourth as u8)),
        0xE => match nn {
            0x9E => Some(Instruction::SkipIfKey(x)),
            0xA1 => Some(Instruction::SkipIfNotKey(x)),
            _ => None,
        },
        _ => match nn {
            0x07 => Some(Instruction::GetDelayTimer(x)),
            0x0A => Some(Instruction::GetKey(x)),
            0x15 => Some(Instruction::SetDelayTimer(x)),
            0x18 => Some(Instruction::SetSoundTimer(x)),
            0x1E => Some(Instruction::AddToIndex(x)),
            0x29 => Some(Instruction::FontCharacter(x)),
            0x33 => Some(Instruction::BCD(x)),
            0x55 => Some(Instruction::StoreMemory(second as u8)),
            0x65 => Some(Instruction::LoadMemory(second as u8)),
            _ => None,
        },
    }
}

/// Every word that decodes is the encoding of what it decodes to.
pub proof fn lemma_encode_decoded(w: u16)
    ensures
        spec_decode(w) matches Some(i) ==> i.spec_encode() == w && i.wf(),
{
    lemma_word_fields(w);
    lemma_register_from_index(nib2(w) as u8);
    lemma_register_from_index(nib1(w) as u8);
    assert(rx(reg_of(nib2(w))) == nib2(w));
    assert(rx(reg_of(nib1(w))) == nib1(w));
    if nib3(w) == 0 {
        if spec_decode(w) is Some {
            assert(nib2(w) == 0);
        }
    }
}

/// The address-operand shapes decode from their encodings.
proof fn lemma_decode_encoded_nnn(i: Instruction)
    requires
        i.wf(),
    ensures
        spec_decode(i.spec_encode()) == Some(i) || !(i is Jump || i is SubroutineCall || i is SetIndexRegister || i is JumpOffset),
{
    match i {
        Instruction::Jump(nnn) => lemma_word_nnn(1, nnn),
        Instruction::SubroutineCall(nnn) => lemma_word_nnn(2, nnn),
        Instruction::SetIndexRegister(nnn) => lemma_word_nnn(0xA, nnn),
        Instruction::JumpOffset(nnn) => lemma_word_nnn(0xB, nnn),
        _ => {},
    }
}

/// The register-and-byte shapes decode from their encodings.
proof fn lemma_decode_encoded_xb(i: Instruction)
    requires
        i.wf(),
    ensures
        spec_decode(i.spec_encode()) == Some(i) || !(i is Clear || i is SubroutineReturn || i is SkipConditional1 || i is SkipConditional2 || i is SetRegister || i is Add || i is Random),
{
    match i {
        Instruction::Clear => lemma_word_xb(0, 0, 0xE0),
        Instruction::SubroutineReturn => lemma_word_xb(0, 0, 0xEE),
        Instruction::SkipConditional1(vx, nn) => {
            lemma_register_index(vx);
            lemma_word_xb(3, rx(vx), nn as u16);
        },
        Instruction::SkipConditional2(vx, nn) => {
            lemma_register_index(vx);
            lemma_word_xb(4, rx(vx), nn as u16);
        },
        Instruction::SetRegister(vx, nn) => {
            lemma_register_index(vx);
            lemma_word_xb(6, rx(vx), nn as u16);
        },
        Instruction::Add(vx, nn) => {
            lemma_register_index(vx);
            lemma_word_xb(7, rx(vx), nn as u16);
        },
        Instruction::Random(vx, nn) => {
            lemma_register_index(vx);
            lemma_word_xb(0xC, rx(vx), nn as u16);
        },
        _ => {},
    }
}

/// The two-register shapes decode from their encodings.
#[verifier::spinoff_prover]
#[verifier::rlimit(80)]
proof fn lemma_decode_encoded_xy(i: Instruction)
    requires
        i.wf(),
    ensures
        spec_decode(i.spec_encode()) == Some(i) || !(i is SkipConditional3 || i is SkipConditional4 || i is RegSet || i is BinaryOr || i is BinaryAnd || i is BinaryXor || i is RegAdd || i is Subtract1 || i is ShiftRight || i is Subtract2 || i is ShiftLeft || i is Draw),
{
    match i {
        Instruction::SkipConditional3(vx, vy) => {
            lemma_register_index(vx);
            lemma_register_index(vy);
            lemma_word_xyn(5, rx(vx), rx(vy), 0);
        },
        Instruction::SkipConditional4(vx, vy) => {
            lemma_register_index(vx);
            lemma_register_index(vy);
            lemma_word_xyn(9, rx(vx), rx(vy), 0);
        },
        Instruction::RegSet(vx, vy) => {
            lemma_register_index(vx);
            lemma_register_index(vy);
            lemma_word_xyn(8, rx(vx), rx(vy), 0);
        },
        Instruction::BinaryOr(vx, vy) => {
            lemma_register_index(vx);
            lemma_register_index(vy);
            lemma_word_xyn(8, rx(vx), rx(vy), 1);
        },
        Instruction::BinaryAnd(vx, vy) => {
            lemma_register_index(vx);
            lemma_register_index(vy);
            lemma_word_xyn(8, rx(vx), rx(vy), 2);
        },
        Instruction::BinaryXor(vx, vy) => {
            lemma_register_index(vx);
            lemma_register_index(vy);
            lemma_word_xyn(8, rx(vx), rx(vy), 3);
        },
        Instruction::RegAdd(vx, vy) => {
            lemma_register_index(vx);
            lemma_register_index(vy);
            lemma_word_xyn(8, rx(vx), rx(vy), 4);
        },
        Instruction::Subtract1(vx, vy) => {
            lemma_register_index(vx);
            lemma_register_index(vy);
            lemma_word_xyn(8, rx(vx), rx(vy), 5);
        },
        Instruction::ShiftRight(vx, vy) => {
            lemma_register_index(vx);
            lemma_register_index(vy);
            lemma_word_xyn(8, rx(vx), rx(vy), 6);
        },
        Instruction::Subtract2(vx, vy) => {
            lemma_register_index(vx);
            lemma_register_index(vy);
            lemma_word_xyn(8, rx(vx), rx(vy), 7);
        },
        Instruction::ShiftLeft(vx, vy) => {
            lemma_register_index(vx);
            lemma_register_index(vy);
            lemma_word_xyn(8, rx(vx), rx(vy), 0xE);
        },
        Instruction::Draw(vx, vy, n) => {
            lemma_register_index(vx);
            lemma_register_index(vy);
            lemma_word_xyn(0xD, rx(vx), rx(vy), n as u16);
        },
        _ => {},
    }
}

/// The one-register E and F shapes decode from their encodings.
proof fn lemma_decode_encoded_x(i: Instruction)
    requires
        i.wf(),
    ensures
        spec_decode(i.spec_encode()) == Some(i) || !(i is SkipIfKey || i is SkipIfNotKey || i is GetDelayTimer || i is GetKey || i is SetDelayTimer || i is SetSoundTimer || i is AddToIndex || i is FontCharacter || i is BCD || i is StoreMemory || i is LoadMemory),
{
    match i {
        Instruction::SkipIfKey(vx) => {
            lemma_register_index(vx);
            lemma_word_xb(0xE, rx(vx), 0x9E);
        },
        Instruction::SkipIfNotKey(vx) => {
            lemma_register_index(vx);
            lemma_word_xb(0xE, rx(vx), 0xA1);
        },
        Instruction::GetDelayTimer(vx) => {
            lemma_register_index(vx);
            lemma_word_xb(0xF, rx(vx), 0x07);
        },
        Instruction::GetKey(vx) => {
            lemma_register_index(vx);
            lemma_word_xb(0xF, rx(vx), 0x0A);
        },
        Instruction::SetDelayTimer(vx) => {
            lemma_register_index(vx);
            lemma_word_xb(0xF, rx(vx), 0x15);
        },
        Instruction::SetSoundTimer(vx) => {
            lemma_register_index(vx);
            lemma_word_xb(0xF, rx(vx), 0x18);
        },
        Instruction::AddToIndex(vx) => {
            lemma_register_index(vx);
            lemma_word_xb(0xF, rx(vx), 0x1E);
        },
        Instruction::FontCharacter(vx) => {
            lemma_register_index(vx);
            lemma_word_xb(0xF, rx(vx), 0x29);
        },
        Instruction::BCD(vx) => {
            lemma_register_index(vx);
            lemma_word_xb(0xF, rx(vx), 0x33);
        },
        Instruction::StoreMemory(x) => lemma_word_xb(0xF, x as u16, 0x55),
        Instruction::LoadMemory(x) => lemma_word_xb(0xF, x as u16, 0x65),
        
        _ => {},
    }
}

/// Every well-formed instruction other than a raw word and 0NNN decodes from its own encoding.
pub proof fn lemma_decode_encoded(i: Instruction)
    requires
        i.wf(),
        !(i is Db),
        !(i is ExecuteMachineLanguageRoutine),
    ensures
        spec_decode(i.spec_encode()) == Some(i),
{
    lemma_decode_encoded_nnn(i);
    lemma_decode_encoded_xb(i);
    lemma_decode_encoded_xy(i);
    lemma_decode_encoded_x(i);
}

} // verus!
