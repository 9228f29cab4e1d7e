//! The lexical tokens of the surface language.

use vstd::prelude::*;

verus! {

/// One lexical token. `Identifier`, `String` and `Number` carry the slice of
/// source text they were read from; a string token keeps its surrounding
/// quotes.
#[derive(Debug, PartialEq)]
pub enum Token<'a> {
    Invalid,
    EOL,
    // Single-character tokens
    LeftBracket,
    RightBracket,
    LeftParen,
    RightParen,
    LeftSquareBracket,
    RightSquareBracket,
    Comma,
    Dot,
    Minus,
    Plus,
    Colon,
    Slash,
    Star,
    // One- or two-character comparison and assignment tokens
    Bang,
    BangEqual,
    Equal,
    EqualEqual,
    Greater,
    GreaterEqual,
    Less,
    LessEqual,
    // Keywords
    And,
    Or,
    If,
    Else,
    Func,
    For,
    While,
    Let,
    Nil,
    Return,
    Print,
    True,
    False,
    // Tokens that carry source text
    Identifier(&'a str),
    String(&'a str),
    Number(&'a str),
}

/// The mathematical shape of a token: the same alternatives, with the
/// carried source text as a sequence of characters.
pub ghost enum Lexeme {
    Invalid,
    Eol,
    LBracket,
    RBracket,
    LParen,
    RParen,
    LSquare,
    RSquare,
    Comma,
    Dot,
    Minus,
    Plus,
    Colon,
    Slash,
    Star,
    Bang,
    BangEqual,
    Equal,
    EqualEqual,
    Greater,
    GreaterEqual,
    Less,
    LessEqual,
    And,
    Or,
    If,
    Else,
    Func,
    For,
    While,
    Let,
    Nil,
    Return,
    Print,
    True,
    False,
    Ident(Seq<char>),
    StrLit(Seq<char>),
    Num(Seq<char>),
}

/// The [`Lexeme`] a [`Token`] stands for.
pub open spec fn token_view<'a>(t: Token<'a>) -> Lexeme {
    match t {
        Token::Invalid => Lexeme::Invalid,
        Token::EOL => Lexeme::Eol,
        Token::LeftBracket => Lexeme::LBracket,
        Token::RightBracket => Lexeme::RBracket,
        Token::LeftParen => Lexeme::LParen,
        Token::RightParen => Lexeme::RParen,
        Token::LeftSquareBracket => Lexeme::LSquare,
        Token::RightSquareBracket => Lexeme::RSquare,
        Token::Comma => Lexeme::Comma,
        Token::Dot => Lexeme::Dot,
        Token::Minus => Lexeme::Minus,
        Token::Plus => Lexeme::Plus,
        Token::Colon => Lexeme::Colon,
        Token::Slash => Lexeme::Slash,
        Token::Star => Lexeme::Star,
        Token::Bang => Lexeme::Bang,
        Token::BangEqual => Lexeme::BangEqual,
        Token::Equal => Lexeme::Equal,
        Token::EqualEqual => Lexeme::EqualEqual,
        Token::Greater => Lexeme::Greater,
        Token::GreaterEqual => Lexeme::GreaterEqual,
        Token::Less => Lexeme::Less,
        Token::LessEqual => Lexeme::LessEqual,
        Token::And => Lexeme::And,
        Token::Or => Lexeme::Or,
        Token::If => Lexeme::If,
        Token::Else => Lexeme::Else,
        Token::Func => Lexeme::Func,
        Token::For => Lexeme::For,
        Token::While => Lexeme::While,
        Token::Let => Lexeme::Let,
        Token::Nil => Lexeme::Nil,
        Token::Return => Lexeme::Return,
        Token::Print => Lexeme::Print,
        Token::True => Lexeme::True,
        Token::False => Lexeme::False,
        Token::Identifier(s) => Lexeme::Ident(s@),
        Token::String(s) => Lexeme::StrLit(s@),
        Token::Number(s) => Lexeme::Num(s@),
    }
}

} // verus!
