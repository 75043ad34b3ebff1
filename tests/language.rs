use rust_parser::context::ContextManager;
use rust_parser::engine::run;
use rust_parser::interpreter::Interpreter;
use rust_parser::lexer::Lexer;
use rust_parser::number::Decimal;
use rust_parser::parser::Parser;
use rust_parser::token::{Token, TokenType};
use rust_parser::value::{RuntimeResult, Value};

fn root_manager() -> (ContextManager, usize) {
    let mut manager = ContextManager::new();
    let root = manager.create_context(None);
    manager.set(root, "true", Value::Boolean(true));
    manager.set(root, "false", Value::Boolean(false));
    manager.set(root, "null", Value::Null);
    (manager, root)
}

fn tokens_of(code: &str) -> Vec<TokenType> {
    let mut lexer = Lexer::new(code);
    match lexer.tokenize() {
        Ok(t) => t,
        Err(e) => panic!("lex error: {}", e.msg),
    }
}

/// Evaluates `code` and hands back the value, with the interpreter for
/// reading pointers.
fn evaluate(code: &str) -> (RuntimeResult, Interpreter) {
    let (manager, root) = root_manager();
    let mut parser = Parser::new(tokens_of(code));
    let tree = match parser.parse() {
        Ok(t) => t,
        Err(e) => panic!("parse error: {}", e.msg),
    };
    let mut interpreter = Interpreter::new(manager);
    let result = interpreter.visit(&tree, root);
    (result, interpreter)
}

fn output(code: &str) -> Result<String, String> {
    let (mut manager, root) = root_manager();
    run(code, &mut manager, root)
}

#[test]
fn int_literal_evaluates_to_itself() {
    let (r, _) = evaluate("42");
    assert!(matches!(r, Ok(Value::Int(42))));
}

#[test]
fn float_literal_evaluates_to_itself() {
    let (r, _) = evaluate("2.5");
    assert!(matches!(r, Ok(Value::Float(Decimal { units: 2500000 }))));
}

#[test]
fn string_literal_evaluates_to_itself() {
    let (r, _) = evaluate("\"hi\"");
    match r {
        Ok(Value::Str(s)) => assert_eq!(s, "hi"),
        _ => panic!("expected a string"),
    }
}

#[test]
fn int_plus_int() {
    let (r, _) = evaluate("1 + 1");
    assert!(matches!(r, Ok(Value::Int(2))));
}

#[test]
fn float_plus_int() {
    let (r, _) = evaluate("1.0 + 1");
    assert!(matches!(r, Ok(Value::Float(Decimal { units: 2000000 }))));
    assert_eq!(output("1.0 + 1"), Ok(String::from("2")));
}

#[test]
fn string_plus_string() {
    let (r, _) = evaluate("\"a\" + \"b\"");
    match r {
        Ok(Value::Str(s)) => assert_eq!(s, "ab"),
        _ => panic!("expected a string"),
    }
}

#[test]
fn string_plus_int() {
    let (r, _) = evaluate("\"x\" + 1");
    match r {
        Ok(Value::Str(s)) => assert_eq!(s, "x1"),
        _ => panic!("expected a string"),
    }
}

#[test]
fn exact_division_stays_int() {
    let (r, _) = evaluate("4 / 2");
    assert!(matches!(r, Ok(Value::Int(2))));
}

#[test]
fn inexact_division_gives_decimal() {
    let (r, _) = evaluate("5 / 2");
    assert!(matches!(r, Ok(Value::Float(Decimal { units: 2500000 }))));
    assert_eq!(output("5 / 2"), Ok(String::from("2.5")));
}

#[test]
fn power_is_right_associative() {
    let (r, _) = evaluate("2 ^ 3 ^ 2");
    assert!(matches!(r, Ok(Value::Int(512))));
}

#[test]
fn variable_read_through_pointer() {
    let (r, _) = evaluate("let x = 1; x");
    assert!(matches!(r, Ok(Value::Int(1))));
}

#[test]
fn trailing_semicolon_yields_null() {
    let (r, _) = evaluate("let x = 1;");
    assert!(matches!(r, Ok(Value::Null)));
}

#[test]
fn function_call_adds_one() {
    let (r, _) = evaluate("function f(a){ a + 1 } f(5)");
    assert!(matches!(r, Ok(Value::Int(6))));
    let (r, _) = evaluate("function f(a){ a + 1 }; f(5)");
    assert!(matches!(r, Ok(Value::Int(6))));
}

#[test]
fn if_binding_is_gone_after_block() {
    assert_eq!(
        output("if (1) { let y = 2; }; y"),
        Err(String::from("Runtime Error: y is not defined"))
    );
}

#[test]
fn while_scope_is_shared_across_rounds() {
    let (manager, root) = root_manager();
    let mut parser = Parser::new(tokens_of("let c = 0; while (1) { let c = c + 1 }"));
    let tree = parser.parse().ok().unwrap();
    let mut interpreter = Interpreter::new(manager);
    let result = interpreter.visit_steps(&tree, root, 60);
    match result {
        Err(e) => assert_eq!(e.msg, "Evaluation step limit reached"),
        Ok(_) => panic!("the loop cannot end"),
    }
    assert!(matches!(interpreter.manager.get(root, "c"), Some(Value::Int(0))));
    let loop_scope = 1;
    match interpreter.manager.get(loop_scope, "c") {
        Some(Value::Int(n)) => assert!(*n >= 2),
        _ => panic!("the loop scope holds c"),
    }
}

#[test]
fn undefined_name_is_reported() {
    assert_eq!(output("missing"), Err(String::from("Runtime Error: missing is not defined")));
}

#[test]
fn calling_a_number_is_reported() {
    assert_eq!(output("let a = 5; a(1)"), Err(String::from("Runtime Error: 5 is not a function")));
}

#[test]
fn bitwise_on_decimal_is_reported() {
    assert_eq!(
        output("1 & 2.5"),
        Err(String::from("Runtime Error: Operator '&' cannot be applied to '1', '2.5'."))
    );
    assert_eq!(
        output("\"s\" << 1"),
        Err(String::from("Runtime Error: Operator '<<' cannot be applied to 's', '1'."))
    );
}

#[test]
fn tokens_of_operators() {
    let tokens = tokens_of("a >= 1 << 2");
    assert_eq!(tokens.len(), 6);
    assert!(matches!(tokens[1], Token::GTE));
    assert!(matches!(tokens[3], Token::BitwiseLeftShift));
    assert!(matches!(tokens[5], Token::EOF));
}

#[test]
fn lex_errors() {
    let mut lexer = Lexer::new("1 # 2");
    match lexer.tokenize() {
        Err(e) => assert_eq!(e.msg, "Unknown character '#'."),
        Ok(_) => panic!("expected an error"),
    }
    assert_eq!(output("\"open"), Err(String::from("Lex Error: Expected '\"'")));
    assert_eq!(output("1 <"), Err(String::from("Lex Error: Expected '<'")));
    assert_eq!(output("99999999999"), Err(String::from("Lex Error: Malformed number")));
}

#[test]
fn string_escapes() {
    assert_eq!(output("\"a\\nb\""), Ok(String::from("a\nb")));
    assert_eq!(output("\"a\\qb\""), Ok(String::from("aqb")));
}

#[test]
fn parse_errors() {
    assert_eq!(output("let = 1"), Err(String::from("Syntax Error: Expected identifier")));
    assert_eq!(output("(1"), Err(String::from("Syntax Error: Expected ')'")));
    assert_eq!(output("1 2"), Err(String::from("Syntax Error: Unexpected token '2'")));
    assert_eq!(output("f(1 2)"), Err(String::from("Syntax Error: Expected ',' or ')'")));
    assert_eq!(output("if 1"), Err(String::from("Syntax Error: Expected '('")));
}

#[test]
fn lists_print_their_items() {
    assert_eq!(output("[1, \"a\", [2.5]]"), Ok(String::from("[1, a, [2.5]]")));
    assert_eq!(output("[]"), Ok(String::from("[]")));
}

#[test]
fn functions_print_their_signature() {
    assert_eq!(output("function g(a, b) { a }"), Ok(String::from("g(a, b)")));
}

#[test]
fn comparisons_and_equality() {
    assert_eq!(output("1 < 2"), Ok(String::from("true")));
    assert_eq!(output("2 >= 2.5"), Ok(String::from("false")));
    assert_eq!(output("1 == 1.0"), Ok(String::from("true")));
    assert_eq!(output("\"a\" != \"b\""), Ok(String::from("true")));
    assert_eq!(
        output("1 == \"1\""),
        Err(String::from("Runtime Error: Cannot compare '1' with '1'."))
    );
}

#[test]
fn logical_operators_pick_a_side() {
    assert_eq!(output("0 || \"x\""), Ok(String::from("x")));
    assert_eq!(output("3 && 4"), Ok(String::from("4")));
    assert_eq!(output("0 && 4"), Ok(String::from("0")));
    assert_eq!(output("!0"), Ok(String::from("true")));
}

#[test]
fn signs_and_bits() {
    assert_eq!(output("-3 + 1"), Ok(String::from("-2")));
    assert_eq!(output("6 & 3"), Ok(String::from("2")));
    assert_eq!(output("1 << 4"), Ok(String::from("16")));
    assert_eq!(output("1 << 40"), Err(String::from("Runtime Error: Shift amount out of range")));
}

#[test]
fn numeric_edge_cases() {
    assert_eq!(output("1 / 0"), Err(String::from("Runtime Error: Division by zero")));
    assert_eq!(output("2 ^ -1"), Ok(String::from("0.5")));
    assert_eq!(output("2.5 * 2"), Ok(String::from("5")));
    assert_eq!(output("1 / 3"), Ok(String::from("0.333333")));
    assert_eq!(output("2147483647 + 1"), Err(String::from("Runtime Error: Numeric overflow in '+'.")));
    assert_eq!(output("4 ^ 0.5"), Err(String::from("Runtime Error: Operator '^' needs a whole exponent")));
}

#[test]
fn string_pointer_sees_rebinding() {
    assert_eq!(output("let a = \"x\"; let b = a; let a = \"y\"; b"), Ok(String::from("y")));
}

#[test]
fn self_reference_is_reported() {
    assert_eq!(output("let a = \"x\"; let a = a; a + 1"), Err(String::from("Runtime Error: Circular reference")));
}

#[test]
fn arguments_see_the_closure_not_the_caller() {
    assert_eq!(
        output("function f(a) { a }; function g() { let local = 1; f(local) }; g()"),
        Err(String::from("Runtime Error: local is not defined"))
    );
    assert_eq!(output("let k = 7; function f(a) { a }; f(k)"), Ok(String::from("7")));
}

#[test]
fn missing_arguments_are_null() {
    assert_eq!(output("function f(a, b) { b }; f(1)"), Ok(String::from("null")));
}

#[test]
fn if_else_picks_a_branch() {
    assert_eq!(output("if (0) 1 else 2"), Ok(String::from("2")));
    assert_eq!(output("if (0) 1"), Ok(String::from("null")));
    assert_eq!(output("while (0) 1"), Ok(String::from("null")));
}

#[test]
fn brace_statements_need_no_semicolon() {
    assert_eq!(output("if (1) { 2 } 3"), Ok(String::from("3")));
    assert_eq!(output("while (0) { 1 } 5"), Ok(String::from("5")));
    assert_eq!(output("function g() { 1 } function h() { 2 } g() + h()"), Ok(String::from("3")));
    assert_eq!(output("if (1) { 2 }"), Ok(String::from("2")));
    assert_eq!(output("if (1) { 2 };"), Ok(String::from("null")));
    assert_eq!(output("1 2"), Err(String::from("Syntax Error: Unexpected token '2'")));
    assert_eq!(output("function f() { 1 } }"), Err(String::from("Syntax Error: Unexpected token '}'")));
}

#[test]
fn trailing_commas_are_rejected() {
    assert_eq!(output("function f(a) { a }; f(1,)"), Err(String::from("Syntax Error: Unexpected token ')'")));
    assert_eq!(output("[1,]"), Err(String::from("Syntax Error: Unexpected token ']'")));
    assert_eq!(output("function f(a,) { a }"), Err(String::from("Syntax Error: Identifier expected")));
    assert_eq!(output("function f() { 4 }; f()"), Ok(String::from("4")));
    assert_eq!(output("function f(a, b) { b }; f(1, 2)"), Ok(String::from("2")));
}

#[test]
fn tiny_negative_powers_are_zero() {
    let (r, _) = evaluate("2 ^ -44");
    assert!(matches!(r, Ok(Value::Float(Decimal { units: 0 }))));
    assert_eq!(output("2 ^ -44"), Ok(String::from("0")));
    assert_eq!(output("2 ^ 44"), Err(String::from("Runtime Error: Numeric overflow in '^'.")));
    assert_eq!(output("4 ^ -1"), Ok(String::from("0.25")));
}

#[test]
fn scopes_shadow_and_stay_local() {
    let mut manager = ContextManager::new();
    let root = manager.create_context(None);
    let child = manager.create_context(Some(root));
    assert!(manager.has_id(child));
    assert!(!manager.has_id(child + 1));
    manager.set(root, "x", Value::Int(1));
    assert!(matches!(manager.get(child, "x"), Some(Value::Int(1))));
    manager.set(child, "x", Value::Int(2));
    assert!(matches!(manager.get(child, "x"), Some(Value::Int(2))));
    assert!(matches!(manager.get(root, "x"), Some(Value::Int(1))));
    manager.set(child, "x", Value::Int(3));
    assert!(matches!(manager.get(child, "x"), Some(Value::Int(3))));
    assert!(manager.get(root, "y").is_none());
    assert!(!manager.set(child + 5, "x", Value::Null));
}

#[test]
fn tokens_print_as_written() {
    assert_eq!(Token::<String>::BitwiseXOr.to_string(), "^^");
    assert_eq!(Token::Str(String::from("q")).to_string(), "\"q\"");
    assert_eq!(Token::<String>::Int(-7).to_string(), "-7");
    assert_eq!(Token::<String>::EOF.to_string(), "EOF");
}

#[test]
fn pointer_values_print_what_they_name() {
    let (manager, root) = root_manager();
    let mut manager = manager;
    manager.set(root, "s", Value::Str(String::from("text")));
    let p = Value::Pointer(root, String::from("s"));
    assert_eq!(p.to_string(&manager), "text");
    let gone = Value::Pointer(root, String::from("nothing"));
    assert_eq!(gone.to_string(&manager), "null");
    assert!(p.is_true(&manager));
    assert!(!Value::Str(String::new()).is_true(&manager));
}

#[test]
fn escaped_quote_stays_in_string() {
    let tokens = tokens_of(r#""x\"y""#);
    assert_eq!(tokens.len(), 2);
    match &tokens[0] {
        Token::Str(s) => assert_eq!(s, "x\"y"),
        _ => panic!("expected a string token"),
    }
    assert_eq!(output(r#""a\\b""#), Ok(String::from("a\\b")));
    assert_eq!(output(r#""a\nb\q""#), Ok(String::from("a\nbq")));
    assert_eq!(output(r#""end\""#), Err(String::from("Lex Error: Expected '\"'")));
}

#[test]
fn unknown_scope_is_reported() {
    let (manager, _) = root_manager();
    let mut parser = Parser::new(tokens_of("if (1) 2"));
    let tree = parser.parse().ok().unwrap();
    let mut interpreter = Interpreter::new(manager);
    match interpreter.visit(&tree, 9) {
        Err(e) => assert_eq!(e.msg, "Unknown scope"),
        Ok(_) => panic!("scope 9 does not exist"),
    }
}

#[test]
fn pointer_operands_resolve_on_either_side() {
    let (mut manager, root) = root_manager();
    manager.set(root, "s", Value::Str(String::from("a")));
    let p = Value::Pointer(root, String::from("s"));
    match Value::Int(1).left_shift(p.clone(), &manager) {
        Err(e) => assert_eq!(e.msg, "Operator '<<' cannot be applied to '1', 'a'."),
        Ok(_) => panic!("a string cannot be shifted by"),
    }
    match Value::Int(1).add(p.clone(), &manager) {
        Err(e) => assert_eq!(e.msg, "Operator '+' cannot be applied to '1', 'a'."),
        Ok(_) => panic!("an integer and a string do not add"),
    }
    match p.add(Value::Int(1), &manager) {
        Ok(Value::Str(s)) => assert_eq!(s, "a1"),
        _ => panic!("a string joins with an integer"),
    }
}

#[test]
fn calling_a_string_shows_it() {
    assert_eq!(output("let s = \"abc\"; s()"), Err(String::from("Runtime Error: abc is not a function")));
}

#[test]
fn bitwise_not_needs_an_integer() {
    let (manager, _) = root_manager();
    match Value::Str(String::from("s")).bitwise_not(&manager) {
        Err(e) => assert_eq!(e.msg, "Operator '~' cannot be applied to 's'."),
        Ok(_) => panic!("a string has no complement"),
    }
    assert!(matches!(Value::Int(5).bitwise_not(&manager), Ok(Value::Int(-6))));
    match Value::Str(String::from("a")).bitwise_or(Value::Int(1), &manager) {
        Err(e) => assert_eq!(e.msg, "Operator '|' cannot be applied to 'a', '1'."),
        Ok(_) => panic!("a string has no bits"),
    }
}
