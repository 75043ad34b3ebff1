//! Properties of the language that hold for every input, proved from the
//! definitions that the contracts use.
use vstd::prelude::*;
use crate::characters::spec_is_digit;
use crate::context::{
    assign, find_from, lemma_find_in_range, lemma_total_covers, local, lookup, manager_wf, total_bindings, with_scope, ManagerView,
};
use crate::interpreter::{
    eval, eval_args, eval_block, eval_list, eval_while, not_a_function, not_defined, out_of_steps, EvalResult,
};
use crate::lexer::{digits_end, digits_value, frac_value, lex, lex_from, number_token, scan_at, string_body};
use crate::node::NodeView;
use crate::number::{abs, trunc_div, Decimal, SCALE};
use crate::text::{digit_char, nat_text};
use crate::parser::{p_atom, p_binop, p_binop_rest, p_call, p_expression, p_grouping, p_listing, p_not, p_operand, p_program, p_statements, p_stmts_loop, p_unary};
use crate::token::{Token, TokenView};
use crate::value::{
    binary, bit_not, cannot_apply, cannot_apply_unary, deref_all, fits_i32, op_symbol, printable,
    resolve, truthy, BinOp, ValueView,
};

verus! {

proof fn lemma_nat_text_digits(n: nat)
    ensures
        nat_text(n).len() >= 1,
        forall|i: int| 0 <= i < nat_text(n).len() ==> spec_is_digit(#[trigger] nat_text(n)[i]),
    decreases n,
{
    if n >= 10 {
        lemma_nat_text_digits(n / 10);
    }
}

proof fn lemma_nat_text_value(n: nat)
    ensures
        digits_value(nat_text(n)) == n,
    decreases n,
{
    if n >= 10 {
        lemma_nat_text_value(n / 10);
        let s = nat_text(n);
        assert(s.drop_last() =~= nat_text(n / 10));
        assert(s.last() == digit_char((n % 10) as int));
        assert(digit_char((n % 10) as int) as nat == n % 10 + 48);
        assert('0' as nat == 48);
        assert((n / 10) * 10 + n % 10 == n) by (nonlinear_arith);
        assert(digits_value(s) == digits_value(s.drop_last()) * 10 + (s.last() as nat - '0' as nat) as nat);
        assert(digits_value(s) == n);
    } else {
        assert('0' as nat == 48);
        assert(nat_text(n).drop_last() =~= Seq::<char>::empty());
        assert(digit_char(n as int) as nat == n + 48);
        let s = nat_text(n);
        assert(digits_value(Seq::<char>::empty()) == 0);
        assert(s.last() == digit_char(n as int));
        assert(digits_value(s) == digits_value(s.drop_last()) * 10 + (s.last() as nat - '0' as nat) as nat);
        assert(digits_value(s) == n);
    }
}

proof fn lemma_digits_end_all(src: Seq<char>, i: int)
    requires
        0 <= i <= src.len(),
        forall|j: int| 0 <= j < src.len() ==> spec_is_digit(#[trigger] src[j]),
    ensures
        digits_end(src, i) == src.len(),
    decreases src.len() - i,
{
    if i < src.len() {
        lemma_digits_end_all(src, i + 1);
    }
}

proof fn lemma_digits_end_run(src: Seq<char>, i: int, k: int)
    requires
        0 <= i <= k <= src.len(),
        forall|j: int| i <= j < k ==> spec_is_digit(#[trigger] src[j]),
        k == src.len() || !spec_is_digit(src[k]),
    ensures
        digits_end(src, i) == k,
    decreases k - i,
{
    if i < k {
        lemma_digits_end_run(src, i + 1, k);
    }
}

/// The decimal numeral of any natural number up to `i32::MAX` lexes to
/// that integer token and `EOF`.
pub proof fn lemma_int_numeral_lexes(n: nat)
    requires
        n <= i32::MAX,
    ensures
        lex(nat_text(n)) == Ok::<Seq<Token<Seq<char>>>, Seq<char>>(seq![Token::Int(n as i32), Token::EOF]),
{
    let src = nat_text(n);
    lemma_nat_text_digits(n);
    lemma_nat_text_value(n);
    lemma_digits_end_all(src, 0);
    assert(src.subrange(0, src.len() as int) =~= src);
    assert(number_token(src, 0) == (
        Ok::<Option<Token<Seq<char>>>, Seq<char>>(Some(Token::Int(n as i32))),
        src.len() as int,
    ));
    assert(scan_at(src, 0) == number_token(src, 0));
    assert(lex_from(src, src.len() as int) == Ok::<Seq<Token<Seq<char>>>, Seq<char>>(seq![Token::<Seq<char>>::EOF]));
    assert(seq![Token::<Seq<char>>::Int(n as i32)] + seq![Token::<Seq<char>>::EOF] =~= seq![
        Token::Int(n as i32),
        Token::EOF,
    ]);
}

/// A literal evaluates to its own value and leaves the scopes as they are.
pub proof fn lemma_literal_evaluates_to_itself(n: NodeView, h: usize, m: ManagerView, steps: nat)
    requires
        steps > 0,
        n is Int || n is Float || n is Str,
    ensures
        eval(n, h, m, steps) == (Ok::<ValueView, Seq<char>>(match n {
            NodeView::Int(i) => ValueView::Int(i),
            NodeView::Float(d) => ValueView::Float(d),
            NodeView::Str(s) => ValueView::Str(s),
            _ => ValueView::Null,
        }), m),
{
}

/// A block whose last statement is followed by a semicolon yields `Null`
/// whenever it succeeds.
pub proof fn lemma_trailing_semicolon_yields_null(ns: Seq<NodeView>, h: usize, m: ManagerView, steps: nat)
    ensures
        eval(NodeView::Statements(ns, false), h, m, steps).0 is Ok ==> eval(
            NodeView::Statements(ns, false),
            h,
            m,
            steps,
        ).0 == Ok::<ValueView, Seq<char>>(ValueView::Null),
{
}

/// Dividing two integers gives an integer when the division is exact, and
/// no integer when it is not.
pub proof fn lemma_division_promotes_only_when_inexact(m: ManagerView, a: i32, b: i32)
    requires
        b != 0,
    ensures
        abs(a as int) % abs(b as int) == 0 && fits_i32(trunc_div(a as int, b as int)) ==> binary(
            m,
            BinOp::Div,
            ValueView::Int(a),
            ValueView::Int(b),
        ) == Ok::<ValueView, Seq<char>>(ValueView::Int(trunc_div(a as int, b as int) as i32)),
        abs(a as int) % abs(b as int) != 0 ==> !(binary(m, BinOp::Div, ValueView::Int(a), ValueView::Int(b)) matches Ok(
            ValueView::Int(_),
        )),
{
    assert(b as int * SCALE as int != 0) by (nonlinear_arith)
        requires
            b != 0,
    ;
}

/// Reading an undefined name fails with an error that names it.
pub proof fn lemma_undefined_name_fails(name: Seq<char>, h: usize, m: ManagerView, steps: nat)
    requires
        steps > 0,
        lookup(m, h as int, name) is None,
    ensures
        eval(NodeView::VarAcc(name), h, m, steps) == (Err::<ValueView, Seq<char>>(not_defined(name)), m),
{
}

/// Calling a value that is no function, once its pointers are followed,
/// fails with an error that shows its printable form.
pub proof fn lemma_calling_non_function_fails(
    callee: NodeView,
    args: Seq<NodeView>,
    h: usize,
    m: ManagerView,
    steps: nat,
    f: ValueView,
    m1: ManagerView,
    x: ValueView,
)
    requires
        steps > 0,
        eval(callee, h, m, (steps - 1) as nat) == (Ok::<ValueView, Seq<char>>(f), m1),
        deref_all(m1, f) == Some(x),
        !(x is Func),
    ensures
        eval(NodeView::FuncCall(Box::new(callee), args), h, m, steps) == (Err::<ValueView, Seq<char>>(
            not_a_function(printable(m1, x)),
        ), m1),
{
}

/// A bitwise operator on anything but two integers fails with an error
/// that names the operator and shows both operands.
pub proof fn lemma_bitwise_needs_integers(m: ManagerView, op: BinOp, a: ValueView, b: ValueView, x: ValueView, y: ValueView)
    requires
        op is BitAnd || op is BitOr || op is BitXor || op is Shl || op is Shr,
        deref_all(m, a) == Some(x),
        deref_all(m, b) == Some(y),
        !(x is Int && y is Int),
    ensures
        binary(m, op, a, b) == Err::<ValueView, Seq<char>>(
            cannot_apply(op_symbol(op), printable(m, x), printable(m, y)),
        ),
{
}

/// Bitwise negation of anything but an integer fails with an error that
/// shows the operand.
pub proof fn lemma_bitwise_not_needs_integer(m: ManagerView, a: ValueView, x: ValueView)
    requires
        deref_all(m, a) == Some(x),
        !(x is Int),
    ensures
        bit_not(m, a) == Err::<ValueView, Seq<char>>(cannot_apply_unary("~"@, printable(m, x))),
{
}

/// A binding made in a scope newer than `h` is never seen from `h`. The
/// scopes of conditional branches, loop bodies and calls are all created
/// after the scope they are entered from, so what they bind stays inside.
pub proof fn lemma_newer_binding_unseen(m: ManagerView, h: int, c: int, name: Seq<char>, v: ValueView, x: Seq<char>)
    requires
        h < c,
    ensures
        lookup(assign(m, c, name, v), h, x) == lookup(m, h, x),
    decreases h,
{
    let m2 = assign(m, c, name, v);
    assert(m2.scopes.len() == m.scopes.len());
    if 0 <= h < m.scopes.len() {
        assert(m2.scopes[h] == m.scopes[h]);
        match m.scopes[h].parent {
            Some(p) => {
                if p < h {
                    lemma_newer_binding_unseen(m, p as int, c, name, v, x);
                }
            },
            None => {},
        }
    }
}

/// Creating a scope changes nothing that the existing scopes see.
pub proof fn lemma_new_scope_unseen(m: ManagerView, parent: Option<usize>, h: int, x: Seq<char>)
    requires
        h < m.scopes.len(),
    ensures
        lookup(with_scope(m, parent), h, x) == lookup(m, h, x),
    decreases h,
{
    if 0 <= h {
        assert(with_scope(m, parent).scopes[h] == m.scopes[h]);
        match m.scopes[h].parent {
            Some(p) => {
                if p < h {
                    lemma_new_scope_unseen(m, parent, p as int, x);
                }
            },
            None => {},
        }
    }
}

proof fn lemma_find_after_update(syms: Seq<(Seq<char>, ValueView)>, name: Seq<char>, i: int, k: int, v: ValueView)
    requires
        0 <= i <= k < syms.len(),
        find_from(syms, name, i) == Some(k),
    ensures
        find_from(syms.update(k, (name, v)), name, i) == Some(k),
    decreases syms.len() - i,
{
    if i < k {
        lemma_find_after_update(syms, name, i + 1, k, v);
    }
}

proof fn lemma_find_after_push(syms: Seq<(Seq<char>, ValueView)>, name: Seq<char>, i: int, v: ValueView)
    requires
        0 <= i <= syms.len(),
        find_from(syms, name, i) is None,
    ensures
        find_from(syms.push((name, v)), name, i) == Some(syms.len() as int),
    decreases syms.len() - i,
{
    if i < syms.len() {
        lemma_find_after_push(syms, name, i + 1, v);
    }
}

/// A binding is seen from its own scope at once, and a second binding of
/// the same name there replaces it: so a loop body sees, and may
/// overwrite, what it bound in an earlier round.
pub proof fn lemma_binding_seen_in_own_scope(m: ManagerView, w: int, name: Seq<char>, v: ValueView)
    requires
        0 <= w < m.scopes.len(),
    ensures
        lookup(assign(m, w, name, v), w, name) == Some(v),
{
    let syms = m.scopes[w].symbols;
    match find_from(syms, name, 0) {
        Some(k) => {
            lemma_find_in_range(syms, name, 0);
            lemma_find_after_update(syms, name, 0, k, v);
        },
        None => {
            lemma_find_after_push(syms, name, 0, v);
        },
    }
}

/// The node of a literal token.
pub open spec fn literal_node(t: TokenView) -> NodeView {
    match t {
        Token::Int(i) => NodeView::Int(i),
        Token::Float(d) => NodeView::Float(d),
        Token::Str(s) => NodeView::Str(s),
        _ => NodeView::Empty,
    }
}

/// The value of a literal token.
pub open spec fn literal_value(t: TokenView) -> ValueView {
    match t {
        Token::Int(i) => ValueView::Int(i),
        Token::Float(d) => ValueView::Float(d),
        Token::Str(s) => ValueView::Str(s),
        _ => ValueView::Null,
    }
}

/// From position `i`, a primary that ends at `j` (where no operator of any
/// level follows) is the whole expression.
proof fn lemma_primary_is_expression(ts: Seq<TokenView>, i: int, n: NodeView, j: int)
    requires
        0 <= i < j < ts.len(),
        p_unary(ts, i) == Ok::<(NodeView, int), Seq<char>>((n, j)),
        ts[j] is EOF,
        !(ts[i] is Keyword),
        !(ts[i] is Not || ts[i] is BitwiseNot),
    ensures
        p_expression(ts, i) == Ok::<(NodeView, int), Seq<char>>((n, j)),
{
    assert(p_operand(ts, i, 5) == p_unary(ts, i));
    assert(p_binop_rest(ts, j, 5, n) == Ok::<(NodeView, int), Seq<char>>((n, j)));
    assert(p_binop(ts, i, 5) == Ok::<(NodeView, int), Seq<char>>((n, j)));
    assert(p_operand(ts, i, 4) == p_binop(ts, i, 5));
    assert(p_binop_rest(ts, j, 4, n) == Ok::<(NodeView, int), Seq<char>>((n, j)));
    assert(p_binop(ts, i, 4) == Ok::<(NodeView, int), Seq<char>>((n, j)));
    assert(p_operand(ts, i, 3) == p_binop(ts, i, 4));
    assert(p_binop_rest(ts, j, 3, n) == Ok::<(NodeView, int), Seq<char>>((n, j)));
    assert(p_binop(ts, i, 3) == Ok::<(NodeView, int), Seq<char>>((n, j)));
    assert(p_not(ts, i) == p_binop(ts, i, 3));
    assert(p_operand(ts, i, 2) == p_not(ts, i));
    assert(p_binop_rest(ts, j, 2, n) == Ok::<(NodeView, int), Seq<char>>((n, j)));
    assert(p_binop(ts, i, 2) == Ok::<(NodeView, int), Seq<char>>((n, j)));
    assert(p_operand(ts, i, 1) == p_binop(ts, i, 2));
    assert(p_binop_rest(ts, j, 1, n) == Ok::<(NodeView, int), Seq<char>>((n, j)));
    assert(p_binop(ts, i, 1) == Ok::<(NodeView, int), Seq<char>>((n, j)));
    assert(p_operand(ts, i, 0) == p_binop(ts, i, 1));
    assert(p_binop_rest(ts, j, 0, n) == Ok::<(NodeView, int), Seq<char>>((n, j)));
    assert(p_binop(ts, i, 0) == Ok::<(NodeView, int), Seq<char>>((n, j)));
}

/// A literal token alone parses to a block of that one literal, which
/// yields it, and evaluating that block gives the literal's value and
/// leaves the scopes as they are.
pub proof fn lemma_literal_program(t: TokenView, h: usize, m: ManagerView, steps: nat)
    requires
        t is Int || t is Float || t is Str,
        steps >= 2,
    ensures
        p_program(seq![t, Token::EOF], 0) == Ok::<NodeView, Seq<char>>(
            NodeView::Statements(seq![literal_node(t)], true),
        ),
        eval(NodeView::Statements(seq![literal_node(t)], true), h, m, steps) == (Ok::<ValueView, Seq<char>>(
            literal_value(t),
        ), m),
{
    let ts = seq![t, Token::EOF];
    let n = literal_node(t);
    assert(p_atom(ts, 0) == Ok::<(NodeView, int), Seq<char>>((n, 1)));
    assert(p_grouping(ts, 0) == p_atom(ts, 0));
    assert(p_listing(ts, 0) == p_grouping(ts, 0));
    assert(p_call(ts, 0) == Ok::<(NodeView, int), Seq<char>>((n, 1)));
    assert(p_unary(ts, 0) == Ok::<(NodeView, int), Seq<char>>((n, 1)));
    lemma_primary_is_expression(ts, 0, n, 1);
    assert(seq![].push(n) =~= seq![n]);
    assert(p_stmts_loop(ts, 0, false, Seq::empty()) == Ok::<(NodeView, int), Seq<char>>(
        (NodeView::Statements(seq![n], true), 1),
    ));
    assert(p_statements(ts, 0, false) == p_stmts_loop(ts, 0, false, Seq::empty()));
    let s = (steps - 1) as nat;
    lemma_literal_evaluates_to_itself(n, h, m, s);
    assert(eval_block(seq![n], 1, h, m, s, literal_value(t)) == (Ok::<ValueView, Seq<char>>(literal_value(t)), m));
    assert(eval_block(seq![n], 0, h, m, s, ValueView::Null) == (Ok::<ValueView, Seq<char>>(literal_value(t)), m));
}

/// `^` groups from the right: `a ^ b ^ c` on integer literals parses as
/// `a ^ (b ^ c)`.
pub proof fn lemma_power_groups_right(a: i32, b: i32, c: i32)
    ensures
        p_program(
            seq![Token::Int(a), Token::Pow, Token::Int(b), Token::Pow, Token::Int(c), Token::EOF],
            0,
        ) == Ok::<NodeView, Seq<char>>(
            NodeView::Statements(
                seq![
                    NodeView::BinaryOp(
                        Box::new(NodeView::Int(a)),
                        Token::Pow,
                        Box::new(NodeView::BinaryOp(Box::new(NodeView::Int(b)), Token::Pow, Box::new(NodeView::Int(c)))),
                    ),
                ],
                true,
            ),
        ),
{
    let ts: Seq<TokenView> = seq![Token::Int(a), Token::Pow, Token::Int(b), Token::Pow, Token::Int(c), Token::EOF];
    let na = NodeView::Int(a);
    let nb = NodeView::Int(b);
    let nc = NodeView::Int(c);
    let bc = NodeView::BinaryOp(Box::new(nb), Token::Pow, Box::new(nc));
    let abc = NodeView::BinaryOp(Box::new(na), Token::Pow, Box::new(bc));
    assert(p_atom(ts, 4) == Ok::<(NodeView, int), Seq<char>>((nc, 5)));
    assert(p_grouping(ts, 4) == p_atom(ts, 4));
    assert(p_listing(ts, 4) == p_grouping(ts, 4));
    assert(p_call(ts, 4) == Ok::<(NodeView, int), Seq<char>>((nc, 5)));
    assert(p_unary(ts, 4) == Ok::<(NodeView, int), Seq<char>>((nc, 5)));
    assert(p_operand(ts, 4, 5) == p_unary(ts, 4));
    assert(p_binop_rest(ts, 5, 5, nc) == Ok::<(NodeView, int), Seq<char>>((nc, 5)));
    assert(p_binop(ts, 4, 5) == Ok::<(NodeView, int), Seq<char>>((nc, 5)));
    assert(p_atom(ts, 2) == Ok::<(NodeView, int), Seq<char>>((nb, 3)));
    assert(p_grouping(ts, 2) == p_atom(ts, 2));
    assert(p_listing(ts, 2) == p_grouping(ts, 2));
    assert(p_call(ts, 2) == Ok::<(NodeView, int), Seq<char>>((nb, 3)));
    assert(p_unary(ts, 2) == Ok::<(NodeView, int), Seq<char>>((nb, 3)));
    assert(p_operand(ts, 2, 5) == p_unary(ts, 2));
    assert(p_binop_rest(ts, 5, 5, bc) == Ok::<(NodeView, int), Seq<char>>((bc, 5)));
    assert(p_binop_rest(ts, 3, 5, nb) == Ok::<(NodeView, int), Seq<char>>((bc, 5)));
    assert(p_binop(ts, 2, 5) == Ok::<(NodeView, int), Seq<char>>((bc, 5)));
    assert(p_atom(ts, 0) == Ok::<(NodeView, int), Seq<char>>((na, 1)));
    assert(p_grouping(ts, 0) == p_atom(ts, 0));
    assert(p_listing(ts, 0) == p_grouping(ts, 0));
    assert(p_call(ts, 0) == Ok::<(NodeView, int), Seq<char>>((na, 1)));
    assert(p_unary(ts, 0) == Ok::<(NodeView, int), Seq<char>>((na, 1)));
    assert(p_operand(ts, 0, 5) == p_unary(ts, 0));
    assert(p_binop_rest(ts, 5, 5, abc) == Ok::<(NodeView, int), Seq<char>>((abc, 5)));
    assert(p_binop_rest(ts, 1, 5, na) == Ok::<(NodeView, int), Seq<char>>((abc, 5)));
    assert(p_binop(ts, 0, 5) == Ok::<(NodeView, int), Seq<char>>((abc, 5)));
    assert(p_operand(ts, 0, 4) == p_binop(ts, 0, 5));
    assert(p_binop_rest(ts, 5, 4, abc) == Ok::<(NodeView, int), Seq<char>>((abc, 5)));
    assert(p_binop(ts, 0, 4) == Ok::<(NodeView, int), Seq<char>>((abc, 5)));
    assert(p_operand(ts, 0, 3) == p_binop(ts, 0, 4));
    assert(p_binop_rest(ts, 5, 3, abc) == Ok::<(NodeView, int), Seq<char>>((abc, 5)));
    assert(p_binop(ts, 0, 3) == Ok::<(NodeView, int), Seq<char>>((abc, 5)));
    assert(p_not(ts, 0) == p_binop(ts, 0, 3));
    assert(p_operand(ts, 0, 2) == p_not(ts, 0));
    assert(p_binop_rest(ts, 5, 2, abc) == Ok::<(NodeView, int), Seq<char>>((abc, 5)));
    assert(p_binop(ts, 0, 2) == Ok::<(NodeView, int), Seq<char>>((abc, 5)));
    assert(p_operand(ts, 0, 1) == p_binop(ts, 0, 2));
    assert(p_binop_rest(ts, 5, 1, abc) == Ok::<(NodeView, int), Seq<char>>((abc, 5)));
    assert(p_binop(ts, 0, 1) == Ok::<(NodeView, int), Seq<char>>((abc, 5)));
    assert(p_operand(ts, 0, 0) == p_binop(ts, 0, 1));
    assert(p_binop_rest(ts, 5, 0, abc) == Ok::<(NodeView, int), Seq<char>>((abc, 5)));
    assert(p_binop(ts, 0, 0) == Ok::<(NodeView, int), Seq<char>>((abc, 5)));
    assert(p_expression(ts, 0) == p_binop(ts, 0, 0));
    assert(seq![].push(abc) =~= seq![abc]);
    assert(p_stmts_loop(ts, 0, false, Seq::empty()) == Ok::<(NodeView, int), Seq<char>>(
        (NodeView::Statements(seq![abc], true), 5),
    ));
    assert(p_statements(ts, 0, false) == p_stmts_loop(ts, 0, false, Seq::empty()));
}

/// `+` keeps integers integers when the sum fits, joins two strings, and
/// joins a string with the printable form of any other value.
pub proof fn lemma_addition_rules(m: ManagerView, a: ValueView, b: ValueView, x: ValueView, y: ValueView)
    requires
        deref_all(m, a) == Some(x),
        deref_all(m, b) == Some(y),
    ensures
        (x matches ValueView::Int(i) && y matches ValueView::Int(j) && fits_i32(i + j)) ==> binary(
            m,
            BinOp::Add,
            a,
            b,
        ) == Ok::<ValueView, Seq<char>>(ValueView::Int((x->Int_0 + y->Int_0) as i32)),
        (x matches ValueView::Str(s) && y matches ValueView::Str(t)) ==> binary(m, BinOp::Add, a, b) == Ok::<
            ValueView,
            Seq<char>,
        >(ValueView::Str(x->Str_0 + y->Str_0)),
        (x matches ValueView::Str(s) && !(y is Str)) ==> binary(m, BinOp::Add, a, b) == Ok::<ValueView, Seq<char>>(
            ValueView::Str(x->Str_0 + printable(m, y)),
        ),
{
}

proof fn lemma_resolve_more_steps(m: ManagerView, v: ValueView, k: nat, k2: nat)
    requires
        k <= k2,
        resolve(m, v, k) is Some,
    ensures
        resolve(m, v, k2) == resolve(m, v, k),
    decreases k,
{
    match v {
        ValueView::Pointer(h, n) => {
            if k > 0 {
                match lookup(m, h as int, n) {
                    Some(w) => {
                        lemma_resolve_more_steps(m, w, (k - 1) as nat, (k2 - 1) as nat);
                    },
                    None => {},
                }
            }
        },
        _ => {},
    }
}

proof fn lemma_lookup_counts(m: ManagerView, h: int, n: Seq<char>)
    requires
        lookup(m, h, n) is Some,
    ensures
        total_bindings(m.scopes) >= 1,
    decreases h,
{
    if 0 <= h < m.scopes.len() {
        match local(m.scopes[h], n) {
            Some(_) => {
                lemma_find_in_range(m.scopes[h].symbols, n, 0);
                lemma_total_covers(m.scopes, h);
            },
            None => {
                match m.scopes[h].parent {
                    Some(p) => {
                        if p < h {
                            lemma_lookup_counts(m, p as int, n);
                        }
                    },
                    None => {},
                }
            },
        }
    }
}

/// Under the manager's invariant, a chain of pointers that ends within as
/// many steps as there are bindings ends in the same place when an
/// operator follows it.
pub proof fn lemma_pointer_chain_resolves(m: ManagerView, v: ValueView, k: nat, x: ValueView)
    requires
        manager_wf(m),
        resolve(m, v, k) == Some(x),
        k <= total_bindings(m.scopes),
        k <= u64::MAX,
    ensures
        deref_all(m, v) == Some(x),
{
    lemma_resolve_more_steps(m, v, k, m.bindings);
}

/// Under the manager's invariant, a pointer to an existing binding that
/// holds no pointer stands for the value of that binding; so every
/// operator sees the bound value, on either side.
pub proof fn lemma_pointer_resolves(m: ManagerView, h: usize, n: Seq<char>, w: ValueView)
    requires
        manager_wf(m),
        lookup(m, h as int, n) == Some(w),
        !(w is Pointer),
    ensures
        deref_all(m, ValueView::Pointer(h, n)) == Some(w),
{
    lemma_lookup_counts(m, h as int, n);
    assert(resolve(m, w, 0) == Some(w));
    assert(resolve(m, ValueView::Pointer(h, n), 1) == Some(w));
    lemma_pointer_chain_resolves(m, ValueView::Pointer(h, n), 1, w);
}

proof fn lemma_plain_string_body(src: Seq<char>, j: int, acc: Seq<char>)
    requires
        2 <= src.len(),
        1 <= j <= src.len() - 1,
        src.last() == '"',
        forall|i: int| 1 <= i < src.len() - 1 ==> #[trigger] src[i] != '"' && src[i] != '\\',
    ensures
        string_body(src, j, false, acc) == Some((acc + src.subrange(j, src.len() - 1), src.len() as int)),
    decreases src.len() - j,
{
    if j < src.len() - 1 {
        lemma_plain_string_body(src, j + 1, acc.push(src[j]));
        assert(acc.push(src[j]) + src.subrange(j + 1, src.len() - 1) =~= acc + src.subrange(j, src.len() - 1));
    } else {
        assert(acc + src.subrange(j, src.len() - 1) =~= acc);
    }
}

/// The source text of a string literal with no quote or backslash inside
/// lexes to one string token, parses to a block of that literal, and
/// evaluates to the string, leaving the scopes as they are.
pub proof fn lemma_string_literal_source(text: Seq<char>, h: usize, m: ManagerView, steps: nat)
    requires
        forall|i: int| 0 <= i < text.len() ==> #[trigger] text[i] != '"' && text[i] != '\\',
        steps >= 2,
    ensures
        lex(seq!['"'] + text + seq!['"']) == Ok::<Seq<TokenView>, Seq<char>>(seq![Token::Str(text), Token::EOF]),
        p_program(seq![Token::Str(text), Token::EOF], 0) == Ok::<NodeView, Seq<char>>(
            NodeView::Statements(seq![NodeView::Str(text)], true),
        ),
        eval(NodeView::Statements(seq![NodeView::Str(text)], true), h, m, steps) == (Ok::<ValueView, Seq<char>>(
            ValueView::Str(text),
        ), m),
{
    let src = seq!['"'] + text + seq!['"'];
    assert forall|i: int| 1 <= i < src.len() - 1 implies #[trigger] src[i] != '"' && src[i] != '\\' by {
        assert(src[i] == text[i - 1]);
    }
    lemma_plain_string_body(src, 1, Seq::empty());
    assert(Seq::<char>::empty() + src.subrange(1, src.len() - 1) =~= text);
    assert(lex_from(src, src.len() as int) == Ok::<Seq<TokenView>, Seq<char>>(seq![Token::<Seq<char>>::EOF]));
    assert(seq![Token::Str(text)] + seq![Token::<Seq<char>>::EOF] =~= seq![Token::Str(text), Token::EOF]);
    lemma_literal_program(Token::Str(text), h, m, steps);
}

/// The source text `whole.frac` of a decimal literal lexes to one decimal
/// token holding `whole` units and the first six digits of `frac`, parses
/// to a block of that literal, and evaluates to that decimal, leaving the
/// scopes as they are.
pub proof fn lemma_decimal_literal_source(whole: Seq<char>, frac: Seq<char>, h: usize, m: ManagerView, steps: nat)
    requires
        whole.len() >= 1,
        forall|i: int| 0 <= i < whole.len() ==> spec_is_digit(#[trigger] whole[i]),
        forall|i: int| 0 <= i < frac.len() ==> spec_is_digit(#[trigger] frac[i]),
        digits_value(whole) * (SCALE as nat) + frac_value(frac, 6) <= i64::MAX,
        steps >= 2,
    ensures
        ({
            let d = Decimal { units: (digits_value(whole) * (SCALE as nat) + frac_value(frac, 6)) as i64 };
            &&& lex(whole + seq!['.'] + frac) == Ok::<Seq<TokenView>, Seq<char>>(seq![Token::Float(d), Token::EOF])
            &&& p_program(seq![Token::Float(d), Token::EOF], 0) == Ok::<NodeView, Seq<char>>(
                NodeView::Statements(seq![NodeView::Float(d)], true),
            )
            &&& eval(NodeView::Statements(seq![NodeView::Float(d)], true), h, m, steps) == (Ok::<ValueView, Seq<char>>(
                ValueView::Float(d),
            ), m)
        }),
{
    let src = whole + seq!['.'] + frac;
    let e1 = whole.len() as int;
    let d = Decimal { units: (digits_value(whole) * (SCALE as nat) + frac_value(frac, 6)) as i64 };
    assert forall|j: int| 0 <= j < e1 implies spec_is_digit(#[trigger] src[j]) by {
        assert(src[j] == whole[j]);
    }
    assert(src[e1] == '.');
    lemma_digits_end_run(src, 0, e1);
    assert forall|j: int| e1 + 1 <= j < src.len() implies spec_is_digit(#[trigger] src[j]) by {
        assert(src[j] == frac[j - e1 - 1]);
    }
    lemma_digits_end_run(src, e1 + 1, src.len() as int);
    assert(src.subrange(0, e1) =~= whole);
    assert(src.subrange(e1 + 1, src.len() as int) =~= frac);
    assert(number_token(src, 0) == (
        Ok::<Option<TokenView>, Seq<char>>(Some(Token::Float(d))),
        src.len() as int,
    ));
    assert(scan_at(src, 0) == number_token(src, 0));
    assert(lex_from(src, src.len() as int) == Ok::<Seq<TokenView>, Seq<char>>(seq![Token::<Seq<char>>::EOF]));
    assert(seq![Token::Float(d)] + seq![Token::<Seq<char>>::EOF] =~= seq![Token::Float(d), Token::EOF]);
    lemma_literal_program(Token::Float(d), h, m, steps);
}

/// Whether an evaluation stopped for want of steps.
pub open spec fn ran_out(r: EvalResult) -> bool {
    r == Err::<ValueView, Seq<char>>(out_of_steps())
}

/// An evaluation that did not run out of steps gives the same result and
/// scopes with any larger budget.
pub proof fn lemma_eval_more_steps(n: NodeView, h: usize, m: ManagerView, s: nat, s2: nat)
    requires
        s <= s2,
        !ran_out(eval(n, h, m, s).0),
    ensures
        eval(n, h, m, s2) == eval(n, h, m, s),
    decreases s, 0nat,
{
    if s > 0 {
        let t = (s - 1) as nat;
        let t2 = (s2 - 1) as nat;
        match n {
            NodeView::Statements(ns, last) => {
                if !ran_out(eval_block(ns, 0, h, m, t, ValueView::Null).0) {
                    lemma_block_more_steps(ns, 0, h, m, t, t2, ValueView::Null);
                }
            },
            NodeView::UnaryOp(operand, _) => {
                if !ran_out(eval(*operand, h, m, t).0) {
                    lemma_eval_more_steps(*operand, h, m, t, t2);
                }
            },
            NodeView::BinaryOp(left, _, right) => {
                let (r1, m1) = eval(*left, h, m, t);
                if !ran_out(r1) {
                    lemma_eval_more_steps(*left, h, m, t, t2);
                    if r1 is Ok && !ran_out(eval(*right, h, m1, t).0) {
                        lemma_eval_more_steps(*right, h, m1, t, t2);
                    }
                }
            },
            NodeView::VarDef(_, e) => {
                if !ran_out(eval(*e, h, m, t).0) {
                    lemma_eval_more_steps(*e, h, m, t, t2);
                }
            },
            NodeView::ListDef(ns) => {
                if !ran_out(eval_list(ns, 0, h, m, t, Seq::empty()).0) {
                    lemma_list_more_steps(ns, 0, h, m, t, t2, Seq::empty());
                }
            },
            NodeView::FuncCall(callee, args) => {
                let (r, m1) = eval(*callee, h, m, t);
                if !ran_out(r) {
                    lemma_eval_more_steps(*callee, h, m, t, t2);
                    if r is Ok {
                        match deref_all(m1, r->Ok_0) {
                            Some(ValueView::Func(_, params, body, closure)) => {
                                if m1.scopes.len() + 1 < usize::MAX && closure < m1.scopes.len() {
                                    let a = m1.scopes.len() as usize;
                                    let c = (m1.scopes.len() + 1) as usize;
                                    let m2 = with_scope(with_scope(m1, Some(closure)), Some(closure));
                                    let (ra, m3) = eval_args(params, args, 0, a, c, m2, t);
                                    if !ran_out(ra) {
                                        lemma_args_more_steps(params, args, 0, a, c, m2, t, t2);
                                        if ra is Ok && !ran_out(eval(body, c, m3, t).0) {
                                            lemma_eval_more_steps(body, c, m3, t, t2);
                                        }
                                    }
                                }
                            },
                            _ => {},
                        }
                    }
                }
            },
            NodeView::If(cond, then_body, else_body) => {
                let (r, m1) = eval(*cond, h, m, t);
                if !ran_out(r) {
                    lemma_eval_more_steps(*cond, h, m, t, t2);
                    if r is Ok && m1.scopes.len() < usize::MAX && h < m1.scopes.len() {
                        let m2 = with_scope(m1, Some(h));
                        let b = m1.scopes.len() as usize;
                        if truthy(m1, r->Ok_0) {
                            if !ran_out(eval(*then_body, b, m2, t).0) {
                                lemma_eval_more_steps(*then_body, b, m2, t, t2);
                            }
                        } else {
                            match else_body {
                                Some(e) => {
                                    if !ran_out(eval(*e, b, m2, t).0) {
                                        lemma_eval_more_steps(*e, b, m2, t, t2);
                                    }
                                },
                                None => {},
                            }
                        }
                    }
                }
            },
            NodeView::WhileLoop(cond, body) => {
                if m.scopes.len() < usize::MAX && h < m.scopes.len() {
                    let w = m.scopes.len() as usize;
                    let m1 = with_scope(m, Some(h));
                    if !ran_out(eval_while(*cond, *body, h, w, m1, t, ValueView::Null).0) {
                        lemma_while_more_steps(*cond, *body, h, w, m1, t, t2, ValueView::Null);
                    }
                }
            },
            _ => {},
        }
    }
}

pub proof fn lemma_block_more_steps(
    ns: Seq<NodeView>,
    i: int,
    h: usize,
    m: ManagerView,
    s: nat,
    s2: nat,
    last: ValueView,
)
    requires
        s <= s2,
        !ran_out(eval_block(ns, i, h, m, s, last).0),
    ensures
        eval_block(ns, i, h, m, s2, last) == eval_block(ns, i, h, m, s, last),
    decreases s, ns.len() - i + 1,
{
    if 0 <= i < ns.len() {
        let (r, m1) = eval(ns[i], h, m, s);
        if !ran_out(r) {
            lemma_eval_more_steps(ns[i], h, m, s, s2);
            if r is Ok && !ran_out(eval_block(ns, i + 1, h, m1, s, r->Ok_0).0) {
                lemma_block_more_steps(ns, i + 1, h, m1, s, s2, r->Ok_0);
            }
        }
    }
}

pub proof fn lemma_list_more_steps(
    ns: Seq<NodeView>,
    i: int,
    h: usize,
    m: ManagerView,
    s: nat,
    s2: nat,
    done: Seq<ValueView>,
)
    requires
        s <= s2,
        !ran_out(eval_list(ns, i, h, m, s, done).0),
    ensures
        eval_list(ns, i, h, m, s2, done) == eval_list(ns, i, h, m, s, done),
    decreases s, ns.len() - i + 1,
{
    if 0 <= i < ns.len() {
        let (r, m1) = eval(ns[i], h, m, s);
        if !ran_out(r) {
            lemma_eval_more_steps(ns[i], h, m, s, s2);
            if r is Ok && !ran_out(eval_list(ns, i + 1, h, m1, s, done.push(r->Ok_0)).0) {
                lemma_list_more_steps(ns, i + 1, h, m1, s, s2, done.push(r->Ok_0));
            }
        }
    }
}

pub proof fn lemma_args_more_steps(
    params: Seq<Seq<char>>,
    args: Seq<NodeView>,
    i: int,
    a: usize,
    c: usize,
    m: ManagerView,
    s: nat,
    s2: nat,
)
    requires
        s <= s2,
        !ran_out(eval_args(params, args, i, a, c, m, s).0),
    ensures
        eval_args(params, args, i, a, c, m, s2) == eval_args(params, args, i, a, c, m, s),
    decreases s, params.len() - i + 1,
{
    if 0 <= i < params.len() {
        if i < args.len() {
            let (r, m1) = eval(args[i], a, m, s);
            if !ran_out(r) {
                lemma_eval_more_steps(args[i], a, m, s, s2);
                if r is Ok {
                    let m2 = assign(m1, c as int, params[i], r->Ok_0);
                    if !ran_out(eval_args(params, args, i + 1, a, c, m2, s).0) {
                        lemma_args_more_steps(params, args, i + 1, a, c, m2, s, s2);
                    }
                }
            }
        } else {
            let m2 = assign(m, c as int, params[i], ValueView::Null);
            if !ran_out(eval_args(params, args, i + 1, a, c, m2, s).0) {
                lemma_args_more_steps(params, args, i + 1, a, c, m2, s, s2);
            }
        }
    }
}

pub proof fn lemma_while_more_steps(
    cond: NodeView,
    body: NodeView,
    h: usize,
    w: usize,
    m: ManagerView,
    s: nat,
    s2: nat,
    last: ValueView,
)
    requires
        s <= s2,
        !ran_out(eval_while(cond, body, h, w, m, s, last).0),
    ensures
        eval_while(cond, body, h, w, m, s2, last) == eval_while(cond, body, h, w, m, s, last),
    decreases s, 0nat,
{
    if s > 0 {
        let t = (s - 1) as nat;
        let t2 = (s2 - 1) as nat;
        let (r, m1) = eval(cond, h, m, t);
        if !ran_out(r) {
            lemma_eval_more_steps(cond, h, m, t, t2);
            if r is Ok && truthy(m1, r->Ok_0) {
                let (rb, m2) = eval(body, w, m1, t);
                if !ran_out(rb) {
                    lemma_eval_more_steps(body, w, m1, t, t2);
                    if rb is Ok && !ran_out(eval_while(cond, body, h, w, m2, t, rb->Ok_0).0) {
                        lemma_while_more_steps(cond, body, h, w, m2, t, t2, rb->Ok_0);
                    }
                }
            }
        }
    }
}

/// Calling a value that is no function fails with an error that shows its
/// printable form, at the public budget too: it is enough that the callee
/// is evaluated within any smaller budget.
pub proof fn lemma_calling_non_function_fails_in_visit(
    callee: NodeView,
    args: Seq<NodeView>,
    h: usize,
    m: ManagerView,
    s: nat,
    f: ValueView,
    m1: ManagerView,
    x: ValueView,
)
    requires
        s < u64::MAX,
        eval(callee, h, m, s) == (Ok::<ValueView, Seq<char>>(f), m1),
        deref_all(m1, f) == Some(x),
        !(x is Func),
    ensures
        eval(NodeView::FuncCall(Box::new(callee), args), h, m, u64::MAX as nat) == (Err::<ValueView, Seq<char>>(
            not_a_function(printable(m1, x)),
        ), m1),
{
    lemma_eval_more_steps(callee, h, m, s, (u64::MAX - 1) as nat);
    lemma_calling_non_function_fails(callee, args, h, m, u64::MAX as nat, f, m1, x);
}

/// The decimal numeral of an integer up to `i32::MAX` lexes to one integer
/// token, parses to a block of that literal, and evaluates to the integer,
/// leaving the scopes as they are.
pub proof fn lemma_int_literal_source(n: nat, h: usize, m: ManagerView, steps: nat)
    requires
        n <= i32::MAX,
        steps >= 2,
    ensures
        lex(nat_text(n)) == Ok::<Seq<TokenView>, Seq<char>>(seq![Token::Int(n as i32), Token::EOF]),
        p_program(seq![Token::Int(n as i32), Token::EOF], 0) == Ok::<NodeView, Seq<char>>(
            NodeView::Statements(seq![NodeView::Int(n as i32)], true),
        ),
        eval(NodeView::Statements(seq![NodeView::Int(n as i32)], true), h, m, steps) == (Ok::<ValueView, Seq<char>>(
            ValueView::Int(n as i32),
        ), m),
{
    lemma_int_numeral_lexes(n);
    lemma_literal_program(Token::Int(n as i32), h, m, steps);
}

} // verus!
