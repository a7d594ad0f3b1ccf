//! Tokens and their mathematical shape.

use vstd::prelude::*;

use crate::number::Number;

verus! {

/// A lexeme of the language. Literal variants carry their payload; keyword
/// and punctuation variants carry none.
#[derive(Debug)]
pub enum Token {
    LeftParen,
    RightParen,
    LeftBrace,
    RightBrace,
    Comma,
    Dot,
    Semicolon,
    Minus,
    Plus,
    Slash,
    Star,
    // One or two character tokens.
    Bang,
    BangEqual,
    Equal,
    EqualEqual,
    Greater,
    GreaterEqual,
    Less,
    LessEqual,
    // Literals.
    Identifier(String),
    StringLit(String),
    Number(Number),
    // Keywords.
    And,
    Class,
    Else,
    False,
    Fun,
    For,
    If,
    Nil,
    Or,
    Print,
    Return,
    Super,
    This,
    True,
    Var,
    While,
}

/// The mathematical shape of a token: payloads are character sequences
/// and unbounded integers. Contracts and the language semantics are
/// stated over this type.
pub enum SpecToken {
    LeftParen,
    RightParen,
    LeftBrace,
    RightBrace,
    Comma,
    Dot,
    Semicolon,
    Minus,
    Plus,
    Slash,
    Star,
    Bang,
    BangEqual,
    Equal,
    EqualEqual,
    Greater,
    GreaterEqual,
    Less,
    LessEqual,
    Identifier(Seq<char>),
    StringLit(Seq<char>),
    Number(int),
    And,
    Class,
    Else,
    False,
    Fun,
    For,
    If,
    Nil,
    Or,
    Print,
    Return,
    Super,
    This,
    True,
    Var,
    While,
}

impl View for Token {
    type V = SpecToken;

    open spec fn view(&self) -> SpecToken {
        match self {
            Token::LeftParen => SpecToken::LeftParen,
            Token::RightParen => SpecToken::RightParen,
            Token::LeftBrace => SpecToken::LeftBrace,
            Token::RightBrace => SpecToken::RightBrace,
            Token::Comma => SpecToken::Comma,
            Token::Dot => SpecToken::Dot,
            Token::Semicolon => SpecToken::Semicolon,
            Token::Minus => SpecToken::Minus,
            Token::Plus => SpecToken::Plus,
            Token::Slash => SpecToken::Slash,
            Token::Star => SpecToken::Star,
            Token::Bang => SpecToken::Bang,
            Token::BangEqual => SpecToken::BangEqual,
            Token::Equal => SpecToken::Equal,
            Token::EqualEqual => SpecToken::EqualEqual,
            Token::Greater => SpecToken::Greater,
            Token::GreaterEqual => SpecToken::GreaterEqual,
            Token::Less => SpecToken::Less,
            Token::LessEqual => SpecToken::LessEqual,
            Token::Identifier(s) => SpecToken::Identifier(s@),
            Token::StringLit(s) => SpecToken::StringLit(s@),
            Token::Number(n) => SpecToken::Number(n@),
            Token::And => SpecToken::And,
            Token::Class => SpecToken::Class,
            Token::Else => SpecToken::Else,
            Token::False => SpecToken::False,
            Token::Fun => SpecToken::Fun,
            Token::For => SpecToken::For,
            Token::If => SpecToken::If,
            Token::Nil => SpecToken::Nil,
            Token::Or => SpecToken::Or,
            Token::Print => SpecToken::Print,
            Token::Return => SpecToken::Return,
            Token::Super => SpecToken::Super,
            Token::This => SpecToken::This,
            Token::True => SpecToken::True,
            Token::Var => SpecToken::Var,
            Token::While => SpecToken::While,
        }
    }
}

impl Clone for Token {
    fn clone(&self) -> (res: Self)
        ensures
            res@ == self@,
    {
        match self {
            Token::LeftParen => Token::LeftParen,
            Token::RightParen => Token::RightParen,
            Token::LeftBrace => Token::LeftBrace,
            Token::RightBrace => Token::RightBrace,
            Token::Comma => Token::Comma,
            Token::Dot => Token::Dot,
            Token::Semicolon => Token::Semicolon,
            Token::Minus => Token::Minus,
            Token::Plus => Token::Plus,
            Token::Slash => Token::Slash,
            Token::Star => Token::Star,
            Token::Bang => Token::Bang,
            Token::BangEqual => Token::BangEqual,
            Token::Equal => Token::Equal,
            Token::EqualEqual => Token::EqualEqual,
            Token::Greater => Token::Greater,
            Token::GreaterEqual => Token::GreaterEqual,
            Token::Less => Token::Less,
            Token::LessEqual => Token::LessEqual,
            Token::Identifier(s) => Token::Identifier(s.clone()),
            Token::StringLit(s) => Token::StringLit(s.clone()),
            Token::Number(n) => Token::Number(n.clone()),
            Token::And => Token::And,
            Token::Class => Token::Class,
            Token::Else => Token::Else,
            Token::False => Token::False,
            Token::Fun => Token::Fun,
            Token::For => Token::For,
            Token::If => Token::If,
            Token::Nil => Token::Nil,
            Token::Or => Token::Or,
            Token::Print => Token::Print,
            Token::Return => Token::Return,
            Token::Super => Token::Super,
            Token::This => Token::This,
            Token::True => Token::True,
            Token::Var => Token::Var,
            Token::While => Token::While,
        }
    }
}

/// The views of a token sequence.
pub open spec fn toks_view(ts: Seq<Token>) -> Seq<SpecToken> {
    ts.map_values(|t: Token| t@)
}

} // verus!
