//! Lexical tokens produced by the scanner and consumed by the parser, with
//! their mathematical model `TokenV`.

use crate::text::int_text;
use crate::text::int_to_text;
use vstd::prelude::*;

verus! {

/// One classified lexical unit of source text.
#[derive(Debug, Eq, Hash, PartialEq)]
pub enum Token {
    Illegal,
    EOF,
    // Identifiers + literals
    Ident(String),
    Int(i64),
    Str(String),
    // Operators
    Assign,
    Plus,
    Minus,
    Bang,
    Asterick,
    Slash,
    LT,
    GT,
    Equal,
    NotEqual,
    // Delimiters
    Comma,
    Semicolon,
    Colon,
    LBracket,
    RBracket,
    LParen,
    RParen,
    LBrace,
    RBrace,
    // Keywords
    Function,
    Let,
    True,
    False,
    If,
    Else,
    Return,
}

/// The mathematical model of a token: identifier and string payloads are
/// modelled as character sequences.
pub enum TokenV {
    Illegal,
    EOF,
    Ident(Seq<char>),
    Int(i64),
    Str(Seq<char>),
    Assign,
    Plus,
    Minus,
    Bang,
    Asterick,
    Slash,
    LT,
    GT,
    Equal,
    NotEqual,
    Comma,
    Semicolon,
    Colon,
    LBracket,
    RBracket,
    LParen,
    RParen,
    LBrace,
    RBrace,
    Function,
    Let,
    True,
    False,
    If,
    Else,
    Return,
}

impl DeepView for Token {
    type V = TokenV;

    open spec fn deep_view(&self) -> TokenV {
        match self {
            Token::Illegal => TokenV::Illegal,
            Token::EOF => TokenV::EOF,
            Token::Ident(s) => TokenV::Ident(s@),
            Token::Int(x) => TokenV::Int(*x),
            Token::Str(s) => TokenV::Str(s@),
            Token::Assign => TokenV::Assign,
            Token::Plus => TokenV::Plus,
            Token::Minus => TokenV::Minus,
            Token::Bang => TokenV::Bang,
            Token::Asterick => TokenV::Asterick,
            Token::Slash => TokenV::Slash,
            Token::LT => TokenV::LT,
            Token::GT => TokenV::GT,
            Token::Equal => TokenV::Equal,
            Token::NotEqual => TokenV::NotEqual,
            Token::Comma => TokenV::Comma,
            Token::Semicolon => TokenV::Semicolon,
            Token::Colon => TokenV::Colon,
            Token::LBracket => TokenV::LBracket,
            Token::RBracket => TokenV::RBracket,
            Token::LParen => TokenV::LParen,
            Token::RParen => TokenV::RParen,
            Token::LBrace => TokenV::LBrace,
            Token::RBrace => TokenV::RBrace,
            Token::Function => TokenV::Function,
            Token::Let => TokenV::Let,
            Token::True => TokenV::True,
            Token::False => TokenV::False,
            Token::If => TokenV::If,
            Token::Else => TokenV::Else,
            Token::Return => TokenV::Return,
        }
    }
}

impl View for Token {
    type V = TokenV;

    open spec fn view(&self) -> TokenV {
        self.deep_view()
    }
}

/// A numeric code identifying the kind of a token, ignoring any payload.
pub open spec fn kind_v(t: TokenV) -> int {
    match t {
        TokenV::Illegal => 0,
        TokenV::EOF => 1,
        TokenV::Ident(_) => 2,
        TokenV::Int(_) => 3,
        TokenV::Str(_) => 4,
        TokenV::Assign => 5,
        TokenV::Plus => 6,
        TokenV::Minus => 7,
        TokenV::Bang => 8,
        TokenV::Asterick => 9,
        TokenV::Slash => 10,
        TokenV::LT => 11,
        TokenV::GT => 12,
        TokenV::Equal => 13,
        TokenV::NotEqual => 14,
        TokenV::Comma => 15,
        TokenV::Semicolon => 16,
        TokenV::Colon => 17,
        TokenV::LBracket => 18,
        TokenV::RBracket => 19,
        TokenV::LParen => 20,
        TokenV::RParen => 21,
        TokenV::LBrace => 22,
        TokenV::RBrace => 23,
        TokenV::Function => 24,
        TokenV::Let => 25,
        TokenV::True => 26,
        TokenV::False => 27,
        TokenV::If => 28,
        TokenV::Else => 29,
        TokenV::Return => 30,
    }
}

impl Token {
    /// The kind code of this token.
    pub fn kind(&self) -> (k: u8)
        ensures
            k as int == kind_v(self.deep_view()),
    {
        match self {
            Token::Illegal => 0,
            Token::EOF => 1,
            Token::Ident(_) => 2,
            Token::Int(_) => 3,
            Token::Str(_) => 4,
            Token::Assign => 5,
            Token::Plus => 6,
            Token::Minus => 7,
            Token::Bang => 8,
            Token::Asterick => 9,
            Token::Slash => 10,
            Token::LT => 11,
            Token::GT => 12,
            Token::Equal => 13,
            Token::NotEqual => 14,
            Token::Comma => 15,
            Token::Semicolon => 16,
            Token::Colon => 17,
            Token::LBracket => 18,
            Token::RBracket => 19,
            Token::LParen => 20,
            Token::RParen => 21,
            Token::LBrace => 22,
            Token::RBrace => 23,
            Token::Function => 24,
            Token::Let => 25,
            Token::True => 26,
            Token::False => 27,
            Token::If => 28,
            Token::Else => 29,
            Token::Return => 30,
        }
    }

    /// Whether two tokens are of the same kind, whatever their payloads.
    pub fn same_kind(&self, other: &Token) -> (r: bool)
        ensures
            r == (kind_v(self.deep_view()) == kind_v(other.deep_view())),
    {
        self.kind() == other.kind()
    }
}

/// Descriptive text of a token, used in syntax error messages.
pub open spec fn token_text_v(t: TokenV) -> Seq<char> {
    match t {
        TokenV::Illegal => "Illegal"@,
        TokenV::EOF => "EOF"@,
        TokenV::Ident(s) => "Ident(\""@ + s + "\")"@,
        TokenV::Int(x) => "Int("@ + int_text(x as int) + ")"@,
        TokenV::Str(s) => "Str(\""@ + s + "\")"@,
        TokenV::Assign => "Assign"@,
        TokenV::Plus => "Plus"@,
        TokenV::Minus => "Minus"@,
        TokenV::Bang => "Bang"@,
        TokenV::Asterick => "Asterick"@,
        TokenV::Slash => "Slash"@,
        TokenV::LT => "LT"@,
        TokenV::GT => "GT"@,
        TokenV::Equal => "Equal"@,
        TokenV::NotEqual => "NotEqual"@,
        TokenV::Comma => "Comma"@,
        TokenV::Semicolon => "Semicolon"@,
        TokenV::Colon => "Colon"@,
        TokenV::LBracket => "LBracket"@,
        TokenV::RBracket => "RBracket"@,
        TokenV::LParen => "LParen"@,
        TokenV::RParen => "RParen"@,
        TokenV::LBrace => "LBrace"@,
        TokenV::RBrace => "RBrace"@,
        TokenV::Function => "Function"@,
        TokenV::Let => "Let"@,
        TokenV::True => "True"@,
        TokenV::False => "False"@,
        TokenV::If => "If"@,
        TokenV::Else => "Else"@,
        TokenV::Return => "Return"@,
    }
}

impl Clone for Token {
    /// Cloning preserves the token's model.
    fn clone(&self) -> (res: Self)
        ensures
            res.deep_view() == self.deep_view(),
    {
        match self {
            Token::Illegal => Token::Illegal,
            Token::EOF => Token::EOF,
            Token::Ident(s) => Token::Ident(s.clone()),
            Token::Int(x) => Token::Int(*x),
            Token::Str(s) => Token::Str(s.clone()),
            Token::Assign => Token::Assign,
            Token::Plus => Token::Plus,
            Token::Minus => Token::Minus,
            Token::Bang => Token::Bang,
            Token::Asterick => Token::Asterick,
            Token::Slash => Token::Slash,
            Token::LT => Token::LT,
            Token::GT => Token::GT,
            Token::Equal => Token::Equal,
            Token::NotEqual => Token::NotEqual,
            Token::Comma => Token::Comma,
            Token::Semicolon => Token::Semicolon,
            Token::Colon => Token::Colon,
            Token::LBracket => Token::LBracket,
            Token::RBracket => Token::RBracket,
            Token::LParen => Token::LParen,
            Token::RParen => Token::RParen,
            Token::LBrace => Token::LBrace,
            Token::RBrace => Token::RBrace,
            Token::Function => Token::Function,
            Token::Let => Token::Let,
            Token::True => Token::True,
            Token::False => Token::False,
            Token::If => Token::If,
            Token::Else => Token::Else,
            Token::Return => Token::Return,
        }
    }
}

impl Token {
    /// Builds the descriptive text of this token.
    pub fn text(&self) -> (s: String)
        ensures
            s@ == token_text_v(self.deep_view()),
    {
        match self {
            Token::Illegal => String::from_str("Illegal"),
            Token::EOF => String::from_str("EOF"),
            Token::Ident(x) => {
                let mut s = String::from_str("Ident(\"");
                s.append(x.as_str());
                s.append("\")");
                s
            },
            Token::Int(x) => {
                let mut s = String::from_str("Int(");
                let d = int_to_text(*x);
                s.append(d.as_str());
                s.append(")");
                s
            },
            Token::Str(x) => {
                let mut s = String::from_str("Str(\"");
                s.append(x.as_str());
                s.append("\")");
                s
            },
            Token::Assign => String::from_str("Assign"),
            Token::Plus => String::from_str("Plus"),
            Token::Minus => String::from_str("Minus"),
            Token::Bang => String::from_str("Bang"),
            Token::Asterick => String::from_str("Asterick"),
            Token::Slash => String::from_str("Slash"),
            Token::LT => String::from_str("LT"),
            Token::GT => String::from_str("GT"),
            Token::Equal => String::from_str("Equal"),
            Token::NotEqual => String::from_str("NotEqual"),
            Token::Comma => String::from_str("Comma"),
            Token::Semicolon => String::from_str("Semicolon"),
            Token::Colon => String::from_str("Colon"),
            Token::LBracket => String::from_str("LBracket"),
            Token::RBracket => String::from_str("RBracket"),
            Token::LParen => String::from_str("LParen"),
            Token::RParen => String::from_str("RParen"),
            Token::LBrace => String::from_str("LBrace"),
            Token::RBrace => String::from_str("RBrace"),
            Token::Function => String::from_str("Function"),
            Token::Let => String::from_str("Let"),
            Token::True => String::from_str("True"),
            Token::False => String::from_str("False"),
            Token::If => String::from_str("If"),
            Token::Else => String::from_str("Else"),
            Token::Return => String::from_str("Return"),
        }
    }
}

} // verus!
