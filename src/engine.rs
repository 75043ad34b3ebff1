//! The whole pipeline: source text to tokens, tokens to a tree, the tree to
//! a value.
use vstd::prelude::*;
use crate::context::{ContextManager, ManagerView};
use crate::error::{lex_error_name, parse_error_name, runtime_error_name, Error};
use crate::interpreter::{eval, Interpreter};
use crate::lexer::{lex, lex_from, scan_at, views, Lexer};
use crate::parser::{p_program, Parser};
use crate::value::printable;

verus! {

/// A successful lexing ends with exactly one `EOF`, as the last token.
pub proof fn lemma_lex_ends_with_eof(src: Seq<char>, i: int)
    ensures
        lex_from(src, i) matches Ok(ts) ==> ts.len() > 0 && ts.last() is EOF,
    decreases src.len() - i,
{
    if 0 <= i < src.len() {
        let s = scan_at(src, i);
        if s.0 is Ok && s.1 > i && s.1 <= src.len() {
            lemma_lex_ends_with_eof(src, s.1);
            match lex_from(src, s.1) {
                Ok(rest) => {
                    match s.0->Ok_0 {
                        Some(t) => {
                            assert((seq![t] + rest).last() == rest.last());
                        },
                        None => {},
                    }
                },
                Err(_) => {},
            }
        }
    }
}

/// What running a program gives: the printable form of its value, or its
/// first error as the kind name, `: ` and the message; and the manager
/// after it.
pub open spec fn run_result(src: Seq<char>, m: ManagerView, h: usize) -> (Result<Seq<char>, Seq<char>>, ManagerView) {
    match lex(src) {
        Err(msg) => (Err(lex_error_name() + seq![':', ' '] + msg), m),
        Ok(ts) => match p_program(ts, 0) {
            Err(msg) => (Err(parse_error_name() + seq![':', ' '] + msg), m),
            Ok(tree) => {
                let (r, m1) = eval(tree, h, m, u64::MAX as nat);
                match r {
                    Ok(v) => (Ok(printable(m1, v)), m1),
                    Err(msg) => (Err(runtime_error_name() + seq![':', ' '] + msg), m1),
                }
            },
        },
    }
}

/// Runs `code` in scope `context_id`: the printable form of its value, or
/// the first error as `<kind>: <message>`.
#[verifier::rlimit(100)]
pub fn run(code: &str, manager: &mut ContextManager, context_id: usize) -> (r: Result<String, String>)
    requires
        old(manager).wf(),
    ensures
        final(manager).wf(),
        ((match r {
            Ok(s) => Ok::<Seq<char>, Seq<char>>(s@),
            Err(s) => Err::<Seq<char>, Seq<char>>(s@),
        }), final(manager).view()) == run_result(code@, old(manager).view(), context_id),
{
    let mut lexer = Lexer::new(code);
    let tokens = match lexer.tokenize() {
        Err(e) => {
            return Err(e.to_string());
        },
        Ok(t) => t,
    };
    proof {
        lemma_lex_ends_with_eof(code@, 0);
        assert(views(tokens@).last() == tokens@.last()@);
    }
    let mut parser = Parser::new(tokens);
    let tree = match parser.parse() {
        Err(e) => {
            return Err(e.to_string());
        },
        Ok(t) => t,
    };
    let mut taken = ContextManager::new();
    std::mem::swap(&mut taken, manager);
    let mut interpreter = Interpreter::new(taken);
    let result = interpreter.visit(&tree, context_id);
    std::mem::swap(&mut interpreter.manager, manager);
    match result {
        Ok(v) => Ok(v.to_string(manager)),
        Err(e) => Err(e.to_string()),
    }
}

} // verus!
