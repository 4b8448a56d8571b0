use vstd::prelude::*;

verus! {

/// One lexical unit of the source language.
#[derive(Debug, Clone, PartialEq)]
pub enum Token {
    ConsoleLog,
    If,
    Else,
    Let,
    Const,
    While,
    Equal,
    Colon,
    Semicolon,
    Comma,
    OpenParen,
    CloseParen,
    OpenBrace,
    CloseBrace,
    OpenBracket,
    CloseBracket,
    LessThan,
    GreaterThan,
    Plus,
    Minus,
    Star,
    Slash,
    StringLiteral(String),
    Identifier(String),
    Number(i32),
}

/// The range of characters in the source that a token was read from.
#[derive(Debug, Clone, Copy, PartialEq, Eq)]
pub struct Span {
    pub start: usize,
    pub end: usize,
}

/// The variant of a token, payload aside.
pub open spec fn kind(t: Token) -> int {
    match t {
        Token::ConsoleLog => 0,
        Token::If => 1,
        Token::Else => 2,
        Token::Let => 3,
        Token::Const => 4,
        Token::While => 5,
        Token::Equal => 6,
        Token::Colon => 7,
        Token::Semicolon => 8,
        Token::Comma => 9,
        Token::OpenParen => 10,
        Token::CloseParen => 11,
        Token::OpenBrace => 12,
        Token::CloseBrace => 13,
        Token::OpenBracket => 14,
        Token::CloseBracket => 15,
        Token::LessThan => 16,
        Token::GreaterThan => 17,
        Token::Plus => 18,
        Token::Minus => 19,
        Token::Star => 20,
        Token::Slash => 21,
        Token::StringLiteral(_) => 22,
        Token::Identifier(_) => 23,
        Token::Number(_) => 24,
    }
}

impl Token {
    /// The variant of this token as a number.
    pub fn kind(&self) -> (r: u8)
        ensures
            r as int == kind(*self),
    {
        match self {
            Token::ConsoleLog => 0,
            Token::If => 1,
            Token::Else => 2,
            Token::Let => 3,
            Token::Const => 4,
            Token::While => 5,
            Token::Equal => 6,
            Token::Colon => 7,
            Token::Semicolon => 8,
            Token::Comma => 9,
            Token::OpenParen => 10,
            Token::CloseParen => 11,
            Token::OpenBrace => 12,
            Token::CloseBrace => 13,
            Token::OpenBracket => 14,
            Token::CloseBracket => 15,
            Token::LessThan => 16,
            Token::GreaterThan => 17,
            Token::Plus => 18,
            Token::Minus => 19,
            Token::Star => 20,
            Token::Slash => 21,
            Token::StringLiteral(_) => 22,
            Token::Identifier(_) => 23,
            Token::Number(_) => 24,
        }
    }
}

} // verus!
