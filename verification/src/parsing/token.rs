//! Tokens of the source language: identifiers, literals, punctuation,
//! operators with their fixed precedence and associativity, and keywords,
//! each tagged with the line and column at which it was completed.

use vstd::prelude::*;
use crate::float::FloatBits;

verus! {

/// A binary operator symbol.
#[derive(Clone, Copy, PartialEq, Eq, Structural, Debug)]
pub enum Operator {
    Add,
    Sub,
    Mul,
    Div,
    Pow,
    And,
    Or,
    Eq,
    Gt,
    Lt,
}

/// The precedence the lexer attaches to an operator: comparisons bind
/// loosest, then additive and logical symbols, then multiplicative ones,
/// then the power symbol.
pub open spec fn spec_precedence(op: Operator) -> u8 {
    match op {
        Operator::Eq | Operator::Gt | Operator::Lt => 0,
        Operator::Add | Operator::Sub | Operator::And | Operator::Or => 1,
        Operator::Mul | Operator::Div => 2,
        Operator::Pow => 3,
    }
}

/// The associativity the lexer attaches to an operator: every operator is
/// marked left-associative except the comparisons.  The power symbol is
/// deliberately marked left-associative as well, although powers are
/// conventionally grouped to the right.
pub open spec fn spec_left_assoc(op: Operator) -> bool {
    match op {
        Operator::Eq | Operator::Gt | Operator::Lt => false,
        _ => true,
    }
}

/// The kind of a token, with its payload where it has one.  A float
/// literal carries the bit pattern of its single-precision value.
#[derive(Debug, PartialEq)]
pub enum TokenType {
    Id(String),
    LRoundBracket,
    RRoundBracket,
    LCurlyBracket,
    RCurlyBracket,
    IntegerLiteral(i32),
    FloatLiteral(FloatBits),
    BooleanLiteral(bool),
    Operator(Operator, u8, bool),
    Print,
    Semicolon,
    Fn,
    Comma,
    Assignment,
    If,
    While,
    For,
}

/// Mathematical model of a token kind: identifier names are character
/// sequences.
pub enum TokenTypeV {
    Id(Seq<char>),
    LRoundBracket,
    RRoundBracket,
    LCurlyBracket,
    RCurlyBracket,
    IntegerLiteral(i32),
    FloatLiteral(FloatBits),
    BooleanLiteral(bool),
    Operator(Operator, u8, bool),
    Print,
    Semicolon,
    Fn,
    Comma,
    Assignment,
    If,
    While,
    For,
}

impl View for TokenType {
    type V = TokenTypeV;

    open spec fn view(&self) -> TokenTypeV {
        match self {
            TokenType::Id(s) => TokenTypeV::Id(s@),
            TokenType::LRoundBracket => TokenTypeV::LRoundBracket,
            TokenType::RRoundBracket => TokenTypeV::RRoundBracket,
            TokenType::LCurlyBracket => TokenTypeV::LCurlyBracket,
            TokenType::RCurlyBracket => TokenTypeV::RCurlyBracket,
            TokenType::IntegerLiteral(v) => TokenTypeV::IntegerLiteral(*v),
            TokenType::FloatLiteral(b) => TokenTypeV::FloatLiteral(*b),
            TokenType::BooleanLiteral(b) => TokenTypeV::BooleanLiteral(*b),
            TokenType::Operator(op, p, l) => TokenTypeV::Operator(*op, *p, *l),
            TokenType::Print => TokenTypeV::Print,
            TokenType::Semicolon => TokenTypeV::Semicolon,
            TokenType::Fn => TokenTypeV::Fn,
            TokenType::Comma => TokenTypeV::Comma,
            TokenType::Assignment => TokenTypeV::Assignment,
            TokenType::If => TokenTypeV::If,
            TokenType::While => TokenTypeV::While,
            TokenType::For => TokenTypeV::For,
        }
    }
}

impl Clone for TokenType {
    fn clone(&self) -> (r: Self)
        ensures
            r@ == self@,
    {
        match self {
            TokenType::Id(s) => TokenType::Id(s.clone()),
            TokenType::LRoundBracket => TokenType::LRoundBracket,
            TokenType::RRoundBracket => TokenType::RRoundBracket,
            TokenType::LCurlyBracket => TokenType::LCurlyBracket,
            TokenType::RCurlyBracket => TokenType::RCurlyBracket,
            TokenType::IntegerLiteral(v) => TokenType::IntegerLiteral(*v),
            TokenType::FloatLiteral(b) => TokenType::FloatLiteral(*b),
            TokenType::BooleanLiteral(b) => TokenType::BooleanLiteral(*b),
            TokenType::Operator(op, p, l) => TokenType::Operator(*op, *p, *l),
            TokenType::Print => TokenType::Print,
            TokenType::Semicolon => TokenType::Semicolon,
            TokenType::Fn => TokenType::Fn,
            TokenType::Comma => TokenType::Comma,
            TokenType::Assignment => TokenType::Assignment,
            TokenType::If => TokenType::If,
            TokenType::While => TokenType::While,
            TokenType::For => TokenType::For,
        }
    }
}

/// The bare kind of a token, without payloads; error reports carry these.
#[derive(Clone, Copy, PartialEq, Eq, Structural, Debug)]
pub enum TokenKind {
    Id,
    LRoundBracket,
    RRoundBracket,
    LCurlyBracket,
    RCurlyBracket,
    IntegerLiteral,
    FloatLiteral,
    BooleanLiteral,
    Operator,
    Print,
    Semicolon,
    Fn,
    Comma,
    Assignment,
    If,
    While,
    For,
}

/// The kind of a modelled token.
pub open spec fn spec_kind(t: TokenTypeV) -> TokenKind {
    match t {
        TokenTypeV::Id(_) => TokenKind::Id,
        TokenTypeV::LRoundBracket => TokenKind::LRoundBracket,
        TokenTypeV::RRoundBracket => TokenKind::RRoundBracket,
        TokenTypeV::LCurlyBracket => TokenKind::LCurlyBracket,
        TokenTypeV::RCurlyBracket => TokenKind::RCurlyBracket,
        TokenTypeV::IntegerLiteral(_) => TokenKind::IntegerLiteral,
        TokenTypeV::FloatLiteral(_) => TokenKind::FloatLiteral,
        TokenTypeV::BooleanLiteral(_) => TokenKind::BooleanLiteral,
        TokenTypeV::Operator(_, _, _) => TokenKind::Operator,
        TokenTypeV::Print => TokenKind::Print,
        TokenTypeV::Semicolon => TokenKind::Semicolon,
        TokenTypeV::Fn => TokenKind::Fn,
        TokenTypeV::Comma => TokenKind::Comma,
        TokenTypeV::Assignment => TokenKind::Assignment,
        TokenTypeV::If => TokenKind::If,
        TokenTypeV::While => TokenKind::While,
        TokenTypeV::For => TokenKind::For,
    }
}

impl TokenType {
    /// The bare kind of this token.
    pub fn kind(&self) -> (k: TokenKind)
        ensures
            k == spec_kind(self@),
    {
        match self {
            TokenType::Id(_) => TokenKind::Id,
            TokenType::LRoundBracket => TokenKind::LRoundBracket,
            TokenType::RRoundBracket => TokenKind::RRoundBracket,
            TokenType::LCurlyBracket => TokenKind::LCurlyBracket,
            TokenType::RCurlyBracket => TokenKind::RCurlyBracket,
            TokenType::IntegerLiteral(_) => TokenKind::IntegerLiteral,
            TokenType::FloatLiteral(_) => TokenKind::FloatLiteral,
            TokenType::BooleanLiteral(_) => TokenKind::BooleanLiteral,
            TokenType::Operator(_, _, _) => TokenKind::Operator,
            TokenType::Print => TokenKind::Print,
            TokenType::Semicolon => TokenKind::Semicolon,
            TokenType::Fn => TokenKind::Fn,
            TokenType::Comma => TokenKind::Comma,
            TokenType::Assignment => TokenKind::Assignment,
            TokenType::If => TokenKind::If,
            TokenType::While => TokenKind::While,
            TokenType::For => TokenKind::For,
        }
    }
}

/// A token together with the line and column at which its last character
/// was consumed.  Lines and columns count from zero; a newline starts a
/// new line at column zero.
#[derive(Debug, PartialEq)]
pub struct Token {
    pub t_type: TokenType,
    pub line: usize,
    pub char: usize,
}

/// Mathematical model of a token.
pub struct TokenV {
    pub t_type: TokenTypeV,
    pub line: int,
    pub char: int,
}

impl View for Token {
    type V = TokenV;

    open spec fn view(&self) -> TokenV {
        TokenV { t_type: self.t_type@, line: self.line as int, char: self.char as int }
    }
}

impl Clone for Token {
    fn clone(&self) -> (r: Self)
        ensures
            r@ == self@,
    {
        Token { t_type: self.t_type.clone(), line: self.line, char: self.char }
    }
}

impl Token {
    /// Packs a token kind with the position at which it was completed.
    pub fn new(t_type: TokenType, line: usize, char: usize) -> (r: Self)
        ensures
            r@ == (TokenV { t_type: t_type@, line: line as int, char: char as int }),
    {
        Self { t_type, line, char }
    }
}

} // verus!
