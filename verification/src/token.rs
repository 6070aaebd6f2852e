//! The tokens that the lexer produces.

use vstd::prelude::*;

verus! {

/// A lexical token.
#[derive(PartialEq, Debug)]
pub enum Token {
    Illegal(char),
    EOF,
    Identifier(String),
    Int(i64),
    Str(String),
    // Operators
    Assign,
    Bang,
    Plus,
    Minus,
    Asterisk,
    Slash,
    Exponent,
    Modulo,
    LessThan,
    GreaterThan,
    Equals,
    NotEquals,
    LessEq,
    GreaterEq,
    // Delimiters
    Comma,
    Semicolon,
    Colon,
    OpenParen,
    CloseParen,
    OpenCurlyBrace,
    CloseCurlyBrace,
    OpenSquareBracket,
    CloseSquareBracket,
    OpenHash,
    // Keywords
    Function,
    Let,
    True,
    False,
    If,
    Else,
    Return,
    Nil,
}

/// Mathematical model of a token: the same variants, with text as a
/// sequence of scalar values.
pub enum TokenView {
    Illegal(char),
    EOF,
    Identifier(Seq<char>),
    Int(int),
    Str(Seq<char>),
    Assign,
    Bang,
    Plus,
    Minus,
    Asterisk,
    Slash,
    Exponent,
    Modulo,
    LessThan,
    GreaterThan,
    Equals,
    NotEquals,
    LessEq,
    GreaterEq,
    Comma,
    Semicolon,
    Colon,
    OpenParen,
    CloseParen,
    OpenCurlyBrace,
    CloseCurlyBrace,
    OpenSquareBracket,
    CloseSquareBracket,
    OpenHash,
    Function,
    Let,
    True,
    False,
    If,
    Else,
    Return,
    Nil,
}

impl View for Token {
    type V = TokenView;

    open spec fn view(&self) -> TokenView {
        match self {
            Token::Illegal(c) => TokenView::Illegal(*c),
            Token::EOF => TokenView::EOF,
            Token::Identifier(name) => TokenView::Identifier(name@),
            Token::Int(i) => TokenView::Int(*i as int),
            Token::Str(s) => TokenView::Str(s@),
            Token::Assign => TokenView::Assign,
            Token::Bang => TokenView::Bang,
            Token::Plus => TokenView::Plus,
            Token::Minus => TokenView::Minus,
            Token::Asterisk => TokenView::Asterisk,
            Token::Slash => TokenView::Slash,
            Token::Exponent => TokenView::Exponent,
            Token::Modulo => TokenView::Modulo,
            Token::LessThan => TokenView::LessThan,
            Token::GreaterThan => TokenView::GreaterThan,
            Token::Equals => TokenView::Equals,
            Token::NotEquals => TokenView::NotEquals,
            Token::LessEq => TokenView::LessEq,
            Token::GreaterEq => TokenView::GreaterEq,
            Token::Comma => TokenView::Comma,
            Token::Semicolon => TokenView::Semicolon,
            Token::Colon => TokenView::Colon,
            Token::OpenParen => TokenView::OpenParen,
            Token::CloseParen => TokenView::CloseParen,
            Token::OpenCurlyBrace => TokenView::OpenCurlyBrace,
            Token::CloseCurlyBrace => TokenView::CloseCurlyBrace,
            Token::OpenSquareBracket => TokenView::OpenSquareBracket,
            Token::CloseSquareBracket => TokenView::CloseSquareBracket,
            Token::OpenHash => TokenView::OpenHash,
            Token::Function => TokenView::Function,
            Token::Let => TokenView::Let,
            Token::True => TokenView::True,
            Token::False => TokenView::False,
            Token::If => TokenView::If,
            Token::Else => TokenView::Else,
            Token::Return => TokenView::Return,
            Token::Nil => TokenView::Nil,
        }
    }
}

impl Clone for Token {
    fn clone(&self) -> (copy: Token)
        ensures
            copy@ == self@,
    {
        match self {
            Token::Illegal(c) => Token::Illegal(*c),
            Token::Identifier(name) => Token::Identifier(name.clone()),
            Token::Int(i) => Token::Int(*i),
            Token::Str(s) => Token::Str(s.clone()),
            Token::EOF => Token::EOF,
            Token::Assign => Token::Assign,
            Token::Bang => Token::Bang,
            Token::Plus => Token::Plus,
            Token::Minus => Token::Minus,
            Token::Asterisk => Token::Asterisk,
            Token::Slash => Token::Slash,
            Token::Exponent => Token::Exponent,
            Token::Modulo => Token::Modulo,
            Token::LessThan => Token::LessThan,
            Token::GreaterThan => Token::GreaterThan,
            Token::Equals => Token::Equals,
            Token::NotEquals => Token::NotEquals,
            Token::LessEq => Token::LessEq,
            Token::GreaterEq => Token::GreaterEq,
            Token::Comma => Token::Comma,
            Token::Semicolon => Token::Semicolon,
            Token::Colon => Token::Colon,
            Token::OpenParen => Token::OpenParen,
            Token::CloseParen => Token::CloseParen,
            Token::OpenCurlyBrace => Token::OpenCurlyBrace,
            Token::CloseCurlyBrace => Token::CloseCurlyBrace,
            Token::OpenSquareBracket => Token::OpenSquareBracket,
            Token::CloseSquareBracket => Token::CloseSquareBracket,
            Token::OpenHash => Token::OpenHash,
            Token::Function => Token::Function,
            Token::Let => Token::Let,
            Token::True => Token::True,
            Token::False => Token::False,
            Token::If => Token::If,
            Token::Else => Token::Else,
            Token::Return => Token::Return,
            Token::Nil => Token::Nil,
        }
    }
}

} // verus!
