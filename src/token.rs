//! Tokens: the lexical units that the lexer produces and the parser reads.
use vstd::prelude::*;
use crate::number::{decimal_text, Decimal};
use crate::text::{int_text, int_to_string};

verus! {

/// A token. Its text payloads are `String`s at run time (`TokenType`) and
/// character sequences in contracts (`TokenView`).
#[derive(Debug)]
pub enum Token<S> {
    Int(i32),
    Float(Decimal),
    Plus,
    Minus,
    Mul,
    Div,
    Pow,
    Eq,
    EE,
    NE,
    GT,
    GTE,
    LT,
    LTE,
    Not,
    And,
    Or,
    BitwiseNot,
    BitwiseAnd,
    BitwiseOr,
    BitwiseXOr,
    BitwiseRightShift,
    BitwiseLeftShift,
    Keyword(S),
    Identifier(S),
    Str(S),
    Semicolon,
    Comma,
    LeftParen,
    RightParen,
    LeftBracket,
    RightBracket,
    LeftSquare,
    RightSquare,
    EOF,
}

pub type TokenType = Token<String>;

pub type TokenView = Token<Seq<char>>;

impl View for Token<String> {
    type V = TokenView;

    open spec fn view(&self) -> TokenView {
        match self {
            Token::Int(n) => Token::Int(*n),
            Token::Float(d) => Token::Float(*d),
            Token::Plus => Token::Plus,
            Token::Minus => Token::Minus,
            Token::Mul => Token::Mul,
            Token::Div => Token::Div,
            Token::Pow => Token::Pow,
            Token::Eq => Token::Eq,
            Token::EE => Token::EE,
            Token::NE => Token::NE,
            Token::GT => Token::GT,
            Token::GTE => Token::GTE,
            Token::LT => Token::LT,
            Token::LTE => Token::LTE,
            Token::Not => Token::Not,
            Token::And => Token::And,
            Token::Or => Token::Or,
            Token::BitwiseNot => Token::BitwiseNot,
            Token::BitwiseAnd => Token::BitwiseAnd,
            Token::BitwiseOr => Token::BitwiseOr,
            Token::BitwiseXOr => Token::BitwiseXOr,
            Token::BitwiseRightShift => Token::BitwiseRightShift,
            Token::BitwiseLeftShift => Token::BitwiseLeftShift,
            Token::Keyword(s) => Token::Keyword(s@),
            Token::Identifier(s) => Token::Identifier(s@),
            Token::Str(s) => Token::Str(s@),
            Token::Semicolon => Token::Semicolon,
            Token::Comma => Token::Comma,
            Token::LeftParen => Token::LeftParen,
            Token::RightParen => Token::RightParen,
            Token::LeftBracket => Token::LeftBracket,
            Token::RightBracket => Token::RightBracket,
            Token::LeftSquare => Token::LeftSquare,
            Token::RightSquare => Token::RightSquare,
            Token::EOF => Token::EOF,
        }
    }
}

/// How a token is written: its source spelling, a string literal between
/// double quotes, and `EOF` for the end of input.
pub open spec fn token_text(t: TokenView) -> Seq<char> {
    match t {
        Token::Int(n) => int_text(n as int),
        Token::Float(d) => decimal_text(d.units as int),
        Token::Plus => "+"@,
        Token::Minus => "-"@,
        Token::Mul => "*"@,
        Token::Div => "/"@,
        Token::Pow => "^"@,
        Token::Eq => "="@,
        Token::EE => "=="@,
        Token::NE => "!="@,
        Token::GT => ">"@,
        Token::GTE => ">="@,
        Token::LT => "<"@,
        Token::LTE => "<="@,
        Token::Not => "!"@,
        Token::And => "&&"@,
        Token::Or => "||"@,
        Token::BitwiseNot => "~"@,
        Token::BitwiseAnd => "&"@,
        Token::BitwiseOr => "|"@,
        Token::BitwiseXOr => "^^"@,
        Token::BitwiseRightShift => ">>"@,
        Token::BitwiseLeftShift => "<<"@,
        Token::Keyword(s) => s,
        Token::Identifier(s) => s,
        Token::Str(s) => "\""@ + s + "\""@,
        Token::Semicolon => ";"@,
        Token::Comma => ","@,
        Token::LeftParen => "("@,
        Token::RightParen => ")"@,
        Token::LeftBracket => "{"@,
        Token::RightBracket => "}"@,
        Token::LeftSquare => "["@,
        Token::RightSquare => "]"@,
        Token::EOF => "EOF"@,
    }
}

/// A new string holding a literal's text.
pub fn text(s: &str) -> (r: String)
    ensures
        r@ == s@,
{
    String::from_str(s)
}

impl Clone for Token<String> {
    fn clone(&self) -> (r: Self)
        ensures
            r == *self,
    {
        match self {
            Token::Int(n) => Token::Int(*n),
            Token::Float(d) => Token::Float(*d),
            Token::Plus => Token::Plus,
            Token::Minus => Token::Minus,
            Token::Mul => Token::Mul,
            Token::Div => Token::Div,
            Token::Pow => Token::Pow,
            Token::Eq => Token::Eq,
            Token::EE => Token::EE,
            Token::NE => Token::NE,
            Token::GT => Token::GT,
            Token::GTE => Token::GTE,
            Token::LT => Token::LT,
            Token::LTE => Token::LTE,
            Token::Not => Token::Not,
            Token::And => Token::And,
            Token::Or => Token::Or,
            Token::BitwiseNot => Token::BitwiseNot,
            Token::BitwiseAnd => Token::BitwiseAnd,
            Token::BitwiseOr => Token::BitwiseOr,
            Token::BitwiseXOr => Token::BitwiseXOr,
            Token::BitwiseRightShift => Token::BitwiseRightShift,
            Token::BitwiseLeftShift => Token::BitwiseLeftShift,
            Token::Keyword(s) => Token::Keyword(s.clone()),
            Token::Identifier(s) => Token::Identifier(s.clone()),
            Token::Str(s) => Token::Str(s.clone()),
            Token::Semicolon => Token::Semicolon,
            Token::Comma => Token::Comma,
            Token::LeftParen => Token::LeftParen,
            Token::RightParen => Token::RightParen,
            Token::LeftBracket => Token::LeftBracket,
            Token::RightBracket => Token::RightBracket,
            Token::LeftSquare => Token::LeftSquare,
            Token::RightSquare => Token::RightSquare,
            Token::EOF => Token::EOF,
        }
    }
}

impl Token<String> {
    /// How the token is written.
    pub fn to_string(&self) -> (r: String)
        ensures
            r@ == token_text(self@),
    {
        match self {
            Token::Int(n) => int_to_string(*n as i64),
            Token::Float(d) => d.to_string(),
            Token::Plus => text("+"),
            Token::Minus => text("-"),
            Token::Mul => text("*"),
            Token::Div => text("/"),
            Token::Pow => text("^"),
            Token::Eq => text("="),
            Token::EE => text("=="),
            Token::NE => text("!="),
            Token::GT => text(">"),
            Token::GTE => text(">="),
            Token::LT => text("<"),
            Token::LTE => text("<="),
            Token::Not => text("!"),
            Token::And => text("&&"),
            Token::Or => text("||"),
            Token::BitwiseNot => text("~"),
            Token::BitwiseAnd => text("&"),
            Token::BitwiseOr => text("|"),
            Token::BitwiseXOr => text("^^"),
            Token::BitwiseRightShift => text(">>"),
            Token::BitwiseLeftShift => text("<<"),
            Token::Keyword(s) => s.clone(),
            Token::Identifier(s) => s.clone(),
            Token::Str(s) => {
                let q = text("\"");
                let r = q.concat(s.as_str());
                r.concat("\"")
            },
            Token::Semicolon => text(";"),
            Token::Comma => text(","),
            Token::LeftParen => text("("),
            Token::RightParen => text(")"),
            Token::LeftBracket => text("{"),
            Token::RightBracket => text("}"),
            Token::LeftSquare => text("["),
            Token::RightSquare => text("]"),
            Token::EOF => text("EOF"),
        }
    }
}

} // verus!
