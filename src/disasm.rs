use vstd::prelude::*;

use crate::decode::{decode, lemma_encode_decoded, spec_decode};
use crate::instruction::Instruction;

verus! {

/// The big-endian word of two bytes.
pub open spec fn word_of(hi: u8, lo: u8) -> u16 {
    (hi as int * 256 + lo as int) as u16
}

/// A word as an instruction, or as a raw `Db` word when it does not decode.
pub open spec fn decoded_or_raw(w: u16) -> Instruction {
    match spec_decode(w) {
        Some(i) => i,
        None => Instruction::Db(w),
    }
}

/// The instructions of a byte stream, one per two bytes; a leftover last byte becomes a raw
/// word with that byte on top.
pub open spec fn spec_disassemble(b: Seq<u8>) -> Seq<Instruction> {
    Seq::new(
        ((b.len() + 1) / 2) as nat,
        |k: int|
            if 2 * k + 1 < b.len() {
                decoded_or_raw(word_of(b[2 * k], b[2 * k + 1]))
            } else {
                Instruction::Db(word_of(b[2 * k], 0))
            },
    )
}

/// The bytes of a list of instructions: each encoding, high byte first.
pub open spec fn spec_assemble(is: Seq<Instruction>) -> Seq<u8> {
    Seq::new(
        2 * is.len(),
        |j: int|
            if j % 2 == 0 {
                (is[j / 2].spec_encode() / 256) as u8
            } else {
                (is[j / 2].spec_encode() % 256) as u8
            },
    )
}

/// Decodes a byte stream into instructions.
pub fn disassemble(v: &Vec<u8>) -> (r: Vec<Instruction>)
    ensures
        r@ == spec_disassemble(v@),
{
    let mut r: Vec<Instruction> = Vec::new();
    let mut k: usize = 0;
    let n = v.len();
    while k < n - n / 2
        invariant
            n == v@.len(),
            k <= n - n / 2,
            n - n / 2 == (n + 1) / 2,
            r@ == spec_disassemble(v@).take(k as int),
        decreases n - k,
    {
        let ins = if 2 * k + 1 < n {
            let w = v[2 * k] as u16 * 256 + v[2 * k + 1] as u16;
            match decode(w) {
                Some(i) => i,
                None => Instruction::Db(w),
            }
        } else {
            Instruction::Db(v[2 * k] as u16 * 256)
        };
        r.push(ins);
        k = k + 1;
        assert(r@ =~= spec_disassemble(v@).take(k as int));
    }
    assert(spec_disassemble(v@).take(k as int) =~= spec_disassemble(v@));
    r
}

/// Encodes instructions into bytes, high byte first.
pub fn assemble(is: &Vec<Instruction>) -> (r: Vec<u8>)
    requires
        is@.len() <= 0x1000,
    ensures
        r@ == spec_assemble(is@),
{
    let mut r: Vec<u8> = Vec::new();
    let mut k: usize = 0;
    while k < is.len()
        invariant
            k <= is@.len() <= 0x1000,
            r@ == spec_assemble(is@).take(2 * k),
        decreases is@.len() - k,
    {
        let w = is[k].serialize();
        r.push((w / 256) as u8);
        r.push((w % 256) as u8);
        k = k + 1;
        assert(r@ =~= spec_assemble(is@).take(2 * k));
    }
    assert(spec_assemble(is@).take(2 * k as int) =~= spec_assemble(is@));
    r
}

/// Disassembling a byte stream of whole words and assembling the result gives the stream back.
pub proof fn lemma_assemble_disassemble(b: Seq<u8>)
    requires
        b.len() % 2 == 0,
    ensures
        spec_assemble(spec_disassemble(b)) == b,
{
    let is = spec_disassemble(b);
    assert forall|j: int| 0 <= j < b.len() implies #[trigger] spec_assemble(is)[j] == b[j] by {
        let k = j / 2;
        let w = word_of(b[2 * k], b[2 * k + 1]);
        lemma_encode_decoded(w);
        assert(is[k].spec_encode() == w);
        assert(w as int == b[2 * k] as int * 256 + b[2 * k + 1] as int);
    }
    assert(spec_assemble(is) =~= b);
}

} // verus!
