//! A small dynamically typed scripting language: a lexer, a recursive-descent
//! parser and a tree-walking interpreter over a chain of scopes.

pub mod error;
pub mod text;
pub mod number;
pub mod characters;
pub mod token;
pub mod lexer;
pub mod node;
pub mod value;
pub mod context;
pub mod interpreter;
pub mod parser;
pub mod engine;
pub mod laws;
