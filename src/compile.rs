use vstd::prelude::*;

use crate::instruction::Instruction;
use crate::node::{Expr, ProgramNode};
use crate::register::Register;

verus! {

/// The code for `return v;`: draw the font glyph of `v` at the top left corner, then loop.
pub open spec fn constant_program(v: usize) -> Seq<Instruction> {
    seq![
        Instruction::SetRegister(Register::V0, v as u8),
        Instruction::FontCharacter(Register::V0),
        Instruction::SetRegister(Register::V0, 0),
        Instruction::SetRegister(Register::V1, 0),
        Instruction::Draw(Register::V0, Register::V1, 0xF),
        Instruction::Jump(0x20A),
    ]
}

/// Translates a program into instructions. A unary expression produces no code yet.
pub fn compile(program: &ProgramNode) -> (r: Vec<Instruction>)
    requires
        program.func.statement.expr.value matches Expr::Constant(v) ==> v < 256,
    ensures
        program.func.statement.expr.value matches Expr::Constant(v) ==> r@ == constant_program(v),
        program.func.statement.expr.value is Unary ==> r@.len() == 0,
{
    match &program.func.statement.expr.value {
        Expr::Constant(ret_val) => {
            let v = *ret_val as u8;
            let r = vec![
                Instruction::SetRegister(Register::V0, v),
                Instruction::FontCharacter(Register::V0),
                Instruction::SetRegister(Register::V0, 0x0),
                Instruction::SetRegister(Register::V1, 0x0),
                Instruction::Draw(Register::V0, Register::V1, 0xF),
                Instruction::Jump(0x20A),
            ];
            assert(r@ == constant_program(*ret_val));
            r
        },
        Expr::Unary(_, _) => Vec::new(),
    }
}

} // verus!
