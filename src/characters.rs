//! The fixed character classes, keywords and escapes of the language.
use vstd::prelude::*;

verus! {

pub open spec fn spec_is_digit(c: char) -> bool {
    '0' <= c && c <= '9'
}

pub open spec fn spec_is_letter(c: char) -> bool {
    ('a' <= c && c <= 'z') || ('A' <= c && c <= 'Z') || c == '_'
}

/// A character that may stand in an identifier.
pub open spec fn spec_is_word_char(c: char) -> bool {
    spec_is_digit(c) || spec_is_letter(c)
}

/// The keywords: `let`, `function`, `if`, `else` and `while`.
pub open spec fn spec_is_keyword(s: Seq<char>) -> bool {
    s == "let"@ || s == "function"@ || s == "if"@ || s == "else"@ || s == "while"@
}

/// What an escaped character stands for: `n` is a newline, any other
/// character stands for itself.
pub open spec fn spec_escape(c: char) -> char {
    if c == 'n' { '\n' } else { c }
}

pub open spec fn spec_is_space(c: char) -> bool {
    c == ' ' || c == '\t' || c == '\n' || c == '\r'
}

#[verifier::when_used_as_spec(spec_is_digit)]
pub fn is_digit(c: char) -> (r: bool)
    ensures
        r == spec_is_digit(c),
{
    '0' <= c && c <= '9'
}

#[verifier::when_used_as_spec(spec_is_word_char)]
pub fn is_word_char(c: char) -> (r: bool)
    ensures
        r == spec_is_word_char(c),
{
    ('0' <= c && c <= '9') || ('a' <= c && c <= 'z') || ('A' <= c && c <= 'Z') || c == '_'
}

#[verifier::when_used_as_spec(spec_is_space)]
pub fn is_space(c: char) -> (r: bool)
    ensures
        r == spec_is_space(c),
{
    c == ' ' || c == '\t' || c == '\n' || c == '\r'
}

#[verifier::when_used_as_spec(spec_escape)]
pub fn escape(c: char) -> (r: char)
    ensures
        r == spec_escape(c),
{
    if c == 'n' {
        '\n'
    } else {
        c
    }
}

pub fn is_keyword(s: &String) -> (r: bool)
    ensures
        r == spec_is_keyword(s@),
{
    let kw_let = String::from_str("let");
    let kw_function = String::from_str("function");
    let kw_if = String::from_str("if");
    let kw_else = String::from_str("else");
    let kw_while = String::from_str("while");
    *s == kw_let || *s == kw_function || *s == kw_if || *s == kw_else || *s == kw_while
}

} // verus!
