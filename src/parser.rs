use vstd::prelude::*;

use crate::node::{Expr, ExprNode, FunctionNode, ProgramNode, StatementNode};
use crate::token::{Keyword, Token, TokenInfo, TokenView};

verus! {

/// How many tokens a program takes: `int NAME ( ) { return VALUE ; }`.
pub const PROGRAM_TOKENS: usize = 9;

/// What the parser expected where it failed.
#[derive(Debug, Clone, Copy, PartialEq, Eq, Structural)]
pub enum Expected {
    Int,
    Identifier,
    OpenParenthesis,
    CloseParenthesis,
    OpenBrace,
    Return,
    Expression,
    Semicolon,
    CloseBrace,
}

/// A syntax error: the token at `index` (or the end of input, when `index` is the number of
/// tokens) is not what the grammar asks for there. `line` is the line of that token, or of the
/// last token at the end of input.
#[derive(Debug, Clone, Copy, PartialEq, Eq, Structural)]
pub struct ParseError {
    pub index: usize,
    pub line: usize,
    pub expected: Expected,
}

/// What the grammar expects at position `k` of a program.
pub open spec fn expected_at(k: int) -> Expected {
    if k == 0 {
        Expected::Int
    } else if k == 1 {
        Expected::Identifier
    } else if k == 2 {
        Expected::OpenParenthesis
    } else if k == 3 {
        Expected::CloseParenthesis
    } else if k == 4 {
        Expected::OpenBrace
    } else if k == 5 {
        Expected::Return
    } else if k == 6 {
        Expected::Expression
    } else if k == 7 {
        Expected::Semicolon
    } else {
        Expected::CloseBrace
    }
}

/// Whether a token is what position `k` of a program asks for.
pub open spec fn fits(t: TokenView, k: int) -> bool {
    match expected_at(k) {
        Expected::Int => t == TokenView::Keyword(Keyword::Int),
        Expected::Identifier => t is Identifier,
        Expected::OpenParenthesis => t is OpenParenthesis,
        Expected::CloseParenthesis => t is CloseParenthesis,
        Expected::OpenBrace => t is OpenBrace,
        Expected::Return => t == TokenView::Keyword(Keyword::Return),
        Expected::Expression => t is IntegerLiteral,
        Expected::Semicolon => t is Semicolon,
        Expected::CloseBrace => t is CloseBrace,
    }
}

/// Whether the first `k` tokens are what the grammar asks for.
pub open spec fn fits_up_to(ts: Seq<(TokenView, usize)>, k: int) -> bool {
    k <= ts.len() && forall|j: int| 0 <= j < k ==> fits(#[trigger] ts[j].0, j)
}

/// The line reported for a failure at `index`.
pub open spec fn error_line(ts: Seq<(TokenView, usize)>, index: int) -> usize {
    if index < ts.len() {
        ts[index].1
    } else if ts.len() > 0 {
        ts.last().1
    } else {
        0
    }
}

/// Whether token `t` fits position `k` of a program.
fn fits_at(t: &Token, k: usize) -> (r: bool)
    requires
        k < PROGRAM_TOKENS,
    ensures
        r == fits(t@, k as int),
{
    match k {
        0 => matches!(t, Token::Keyword(Keyword::Int)),
        1 => matches!(t, Token::Identifier(_)),
        2 => matches!(t, Token::OpenParenthesis),
        3 => matches!(t, Token::CloseParenthesis),
        4 => matches!(t, Token::OpenBrace),
        5 => matches!(t, Token::Keyword(Keyword::Return)),
        6 => matches!(t, Token::IntegerLiteral(_)),
        7 => matches!(t, Token::Semicolon),
        _ => matches!(t, Token::CloseBrace),
    }
}

/// Parses `int NAME ( ) { return VALUE ; }` from the front of the tokens; tokens after it are
/// ignored. On failure, reports the first position that does not fit.
pub fn parse(tokens: Vec<TokenInfo>) -> (r: Result<ProgramNode, ParseError>)
    ensures
        r is Ok <==> fits_up_to(tokens@.map_values(|t: TokenInfo| t@), PROGRAM_TOKENS as int),
        r matches Ok(p) ==> {
            &&& tokens@[1].token@ == TokenView::Identifier(p.func.id@)
            &&& tokens@[6].token == Token::IntegerLiteral(p.func.statement.expr.value->Constant_0)
            &&& p.func.statement.expr.value is Constant
        },
        r matches Err(e) ==> {
            let ts = tokens@.map_values(|t: TokenInfo| t@);
            &&& e.index < PROGRAM_TOKENS
            &&& fits_up_to(ts, e.index as int)
            &&& (e.index >= ts.len() || !fits(ts[e.index as int].0, e.index as int))
            &&& e.expected == expected_at(e.index as int)
            &&& e.line == error_line(ts, e.index as int)
        },
{
    let ghost ts = tokens@.map_values(|t: TokenInfo| t@);
    let mut k: usize = 0;
    while k < PROGRAM_TOKENS
        invariant
            k <= PROGRAM_TOKENS,
            ts == tokens@.map_values(|t: TokenInfo| t@),
            fits_up_to(ts, k as int),
        decreases PROGRAM_TOKENS - k,
    {
        if k >= tokens.len() || !fits_at(&tokens[k].token, k) {
            let line = if k < tokens.len() {
                tokens[k].line
            } else if tokens.len() > 0 {
                tokens[tokens.len() - 1].line
            } else {
                0
            };
            let expected = match k {
                0 => Expected::Int,
                1 => Expected::Identifier,
                2 => Expected::OpenParenthesis,
                3 => Expected::CloseParenthesis,
                4 => Expected::OpenBrace,
                5 => Expected::Return,
                6 => Expected::Expression,
                7 => Expected::Semicolon,
                _ => Expected::CloseBrace,
            };
            proof {
                if fits_up_to(ts, PROGRAM_TOKENS as int) {
                    assert(fits(ts[k as int].0, k as int));
                }
            }
            return Err(ParseError { index: k, line, expected });
        }
        k = k + 1;
    }
    assert(fits(ts[1].0, 1) && fits(ts[6].0, 6));
    let id = match &tokens[1].token {
        Token::Identifier(s) => s.clone(),
        _ => String::new(),
    };
    let value = match &tokens[6].token {
        Token::IntegerLiteral(v) => *v,
        _ => 0,
    };
    Ok(
        ProgramNode {
            func: FunctionNode {
                id,
                statement: StatementNode { expr: ExprNode { value: Expr::Constant(value) } },
            },
        },
    )
}

} // verus!
