use vstd::prelude::*;

verus! {

/// A whole program: one function.
#[derive(Debug, PartialEq, Eq)]
pub struct ProgramNode {
    pub func: FunctionNode,
}

/// A function without parameters whose body is one statement.
#[derive(Debug, PartialEq, Eq)]
pub struct FunctionNode {
    pub id: String,
    pub statement: StatementNode,
}

/// A prefix operator.
#[derive(Debug, Copy, Clone, PartialEq, Eq, Structural)]
pub enum UnaryOp {
    BitwiseNot,
    LogicalNot,
}

/// An expression.
#[derive(Debug, PartialEq, Eq)]
pub enum Expr {
    Constant(usize),
    Unary(UnaryOp, Box<ExprNode>),
}

#[derive(Debug, PartialEq, Eq)]
pub struct ExprNode {
    pub value: Expr,
}

/// A `return` statement.
#[derive(Debug, PartialEq, Eq)]
pub struct StatementNode {
    pub expr: ExprNode,
}

} // verus!
