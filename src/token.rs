use vstd::prelude::*;

verus! {

/// A keyword of the source language.
#[derive(Debug, Clone, Copy, PartialEq, Eq, Structural)]
pub enum Keyword {
    Int,
    Return,
}

/// A token of the source language.
#[derive(Debug, Clone, PartialEq, Eq)]
pub enum Token {
    /// {
    OpenBrace,
    /// }
    CloseBrace,
    /// (
    OpenParenthesis,
    /// )
    CloseParenthesis,
    /// ;
    Semicolon,
    /// ~
    BitwiseNot,
    /// !
    LogicalNot,
    /// int, return
    Keyword(Keyword),
    /// foo, bar, etc.
    Identifier(String),
    /// 1, 2, 3, etc.
    IntegerLiteral(usize),
}

/// A token with its text as a character sequence.
pub enum TokenView {
    OpenBrace,
    CloseBrace,
    OpenParenthesis,
    CloseParenthesis,
    Semicolon,
    BitwiseNot,
    LogicalNot,
    Keyword(Keyword),
    Identifier(Seq<char>),
    IntegerLiteral(usize),
}

impl View for Token {
    type V = TokenView;

    open spec fn view(&self) -> TokenView {
        match self {
            Token::OpenBrace => TokenView::OpenBrace,
            Token::CloseBrace => TokenView::CloseBrace,
            Token::OpenParenthesis => TokenView::OpenParenthesis,
            Token::CloseParenthesis => TokenView::CloseParenthesis,
            Token::Semicolon => TokenView::Semicolon,
            Token::BitwiseNot => TokenView::BitwiseNot,
            Token::LogicalNot => TokenView::LogicalNot,
            Token::Keyword(k) => TokenView::Keyword(*k),
            Token::Identifier(s) => TokenView::Identifier(s@),
            Token::IntegerLiteral(v) => TokenView::IntegerLiteral(*v),
        }
    }
}

/// A token and the line (counted from 0) on which it stands.
#[derive(Debug, Clone, PartialEq, Eq)]
pub struct TokenInfo {
    pub token: Token,
    pub line: usize,
}

impl View for TokenInfo {
    type V = (TokenView, usize);

    open spec fn view(&self) -> (TokenView, usize) {
        (self.token@, self.line)
    }
}

impl TokenInfo {
    pub fn new(token: Token, line: usize) -> (r: TokenInfo)
        ensures
            r.token == token,
            r.line == line,
    {
        TokenInfo { token, line }
    }
}

} // verus!
