//! The tree-walking interpreter. Evaluation is bounded by a step budget:
//! each nested evaluation and each loop round spends one step, and the
//! public entry points start with `u64::MAX` steps.
use vstd::prelude::*;
use crate::context::{assign, lookup, with_scope, ContextManager, ManagerView};
use crate::error::RuntimeError;
use crate::node::{clone_names, names_view, nodes_view, Node, NodeView};
use crate::text::push_text;
use crate::token::{text, token_text, Token, TokenType, TokenView};
use crate::value::{
    binary, bit_not, deref_all, printable, resolve_fuel, result_view, truthy, values_view, BinOp,
    RuntimeResult, Value, ValueView,
};

verus! {

pub type EvalResult = Result<ValueView, Seq<char>>;

pub open spec fn not_defined(name: Seq<char>) -> Seq<char> {
    name + " is not defined"@
}

pub open spec fn not_a_function(shown: Seq<char>) -> Seq<char> {
    shown + " is not a function"@
}

pub open spec fn illegal_token(t: TokenView) -> Seq<char> {
    "Illegal token '"@ + token_text(t) + "'"@
}

pub open spec fn out_of_steps() -> Seq<char> {
    "Evaluation step limit reached"@
}

pub open spec fn too_many_scopes() -> Seq<char> {
    "Too many scopes"@
}

pub open spec fn unknown_scope() -> Seq<char> {
    "Unknown scope"@
}

/// The binary operator that a token stands for, if any.
pub open spec fn bin_op_of(t: TokenView) -> Option<BinOp> {
    match t {
        Token::Plus => Some(BinOp::Add),
        Token::Minus => Some(BinOp::Sub),
        Token::Mul => Some(BinOp::Mul),
        Token::Div => Some(BinOp::Div),
        Token::Pow => Some(BinOp::Pow),
        Token::EE => Some(BinOp::Eq),
        Token::GT => Some(BinOp::Gt),
        Token::GTE => Some(BinOp::Gte),
        Token::LT => Some(BinOp::Lt),
        Token::LTE => Some(BinOp::Lte),
        Token::BitwiseAnd => Some(BinOp::BitAnd),
        Token::BitwiseOr => Some(BinOp::BitOr),
        Token::BitwiseXOr => Some(BinOp::BitXor),
        Token::BitwiseLeftShift => Some(BinOp::Shl),
        Token::BitwiseRightShift => Some(BinOp::Shr),
        _ => None,
    }
}

/// A binary operator token applied to two evaluated operands.
pub open spec fn eval_binary_op(m: ManagerView, t: TokenView, l: ValueView, r: ValueView) -> EvalResult {
    match t {
        Token::NE => match binary(m, BinOp::Eq, l, r) {
            Ok(ValueView::Boolean(b)) => Ok(ValueView::Boolean(!b)),
            other => other,
        },
        Token::And => Ok(if truthy(m, l) { r } else { l }),
        Token::Or => Ok(if truthy(m, l) { l } else { r }),
        _ => match bin_op_of(t) {
            Some(op) => binary(m, op, l, r),
            None => Err(illegal_token(t)),
        },
    }
}

/// A unary operator token applied to an evaluated operand; a token that is
/// no unary operator leaves the operand as it is.
pub open spec fn eval_unary_op(m: ManagerView, t: TokenView, v: ValueView) -> EvalResult {
    match t {
        Token::Plus => binary(m, BinOp::Mul, v, ValueView::Int(1)),
        Token::Minus => binary(m, BinOp::Mul, v, ValueView::Int(-1i32)),
        Token::BitwiseNot => bit_not(m, v),
        Token::Not => Ok(ValueView::Boolean(!truthy(m, v))),
        _ => Ok(v),
    }
}

/// What reading a variable gives: a pointer to the binding for strings,
/// lists and functions, a copy of anything else.
pub open spec fn eval_var_access(m: ManagerView, h: usize, name: Seq<char>) -> EvalResult {
    match lookup(m, h as int, name) {
        Some(v) => match v {
            ValueView::Str(_) | ValueView::List(_) | ValueView::Func(..) => Ok(ValueView::Pointer(h, name)),
            _ => Ok(v),
        },
        None => Err(not_defined(name)),
    }
}

/// Evaluates `n` in scope `h`: the result and the manager after it. Each
/// nested evaluation spends one of `steps`.
pub open spec fn eval(n: NodeView, h: usize, m: ManagerView, steps: nat) -> (EvalResult, ManagerView)
    decreases steps, 0nat,
{
    if steps == 0 {
        (Err(out_of_steps()), m)
    } else {
        let s = (steps - 1) as nat;
        match n {
            NodeView::Int(i) => (Ok(ValueView::Int(i)), m),
            NodeView::Float(d) => (Ok(ValueView::Float(d)), m),
            NodeView::Str(t) => (Ok(ValueView::Str(t)), m),
            NodeView::Statements(ns, last) => {
                let (r, m1) = eval_block(ns, 0, h, m, s, ValueView::Null);
                match r {
                    Ok(v) => (Ok(if last { v } else { ValueView::Null }), m1),
                    Err(e) => (Err(e), m1),
                }
            },
            NodeView::UnaryOp(operand, t) => {
                let (r, m1) = eval(*operand, h, m, s);
                match r {
                    Ok(v) => (eval_unary_op(m1, t, v), m1),
                    Err(e) => (Err(e), m1),
                }
            },
            NodeView::BinaryOp(left, t, right) => {
                let (r1, m1) = eval(*left, h, m, s);
                match r1 {
                    Err(e) => (Err(e), m1),
                    Ok(l) => {
                        let (r2, m2) = eval(*right, h, m1, s);
                        match r2 {
                            Err(e) => (Err(e), m2),
                            Ok(r) => (eval_binary_op(m2, t, l, r), m2),
                        }
                    },
                }
            },
            NodeView::VarDef(name, e) => {
                let (r, m1) = eval(*e, h, m, s);
                match r {
                    Ok(v) => (Ok(ValueView::Pointer(h, name)), assign(m1, h as int, name, v)),
                    Err(e) => (Err(e), m1),
                }
            },
            NodeView::VarAcc(name) => (eval_var_access(m, h, name), m),
            NodeView::ListDef(ns) => eval_list(ns, 0, h, m, s, Seq::empty()),
            NodeView::FuncDef(name, params, body) => {
                if m.scopes.len() >= usize::MAX {
                    (Err(too_many_scopes()), m)
                } else if h >= m.scopes.len() {
                    (Err(unknown_scope()), m)
                } else {
                    let f = ValueView::Func(name, params, *body, m.scopes.len() as usize);
                    (Ok(f), assign(with_scope(m, Some(h)), h as int, name, f))
                }
            },
            NodeView::FuncCall(callee, args) => {
                let (r, m1) = eval(*callee, h, m, s);
                match r {
                    Err(e) => (Err(e), m1),
                    Ok(fv) => match deref_all(m1, fv) {
                        Some(ValueView::Func(_, params, body, closure)) => {
                            if m1.scopes.len() + 1 >= usize::MAX {
                                (Err(too_many_scopes()), m1)
                            } else if closure >= m1.scopes.len() {
                                (Err(unknown_scope()), m1)
                            } else {
                                let a = m1.scopes.len() as usize;
                                let c = (m1.scopes.len() + 1) as usize;
                                let m2 = with_scope(with_scope(m1, Some(closure)), Some(closure));
                                let (ra, m3) = eval_args(params, args, 0, a, c, m2, s);
                                match ra {
                                    Err(e) => (Err(e), m3),
                                    Ok(_) => eval(body, c, m3, s),
                                }
                            }
                        },
                        Some(other) => (Err(not_a_function(printable(m1, other))), m1),
                        None => (Err(crate::value::circular_reference()), m1),
                    },
                }
            },
            NodeView::If(cond, then_body, else_body) => {
                let (r, m1) = eval(*cond, h, m, s);
                match r {
                    Err(e) => (Err(e), m1),
                    Ok(cv) => if truthy(m1, cv) {
                        if m1.scopes.len() >= usize::MAX {
                            (Err(too_many_scopes()), m1)
                        } else if h >= m1.scopes.len() {
                            (Err(unknown_scope()), m1)
                        } else {
                            eval(*then_body, m1.scopes.len() as usize, with_scope(m1, Some(h)), s)
                        }
                    } else {
                        match else_body {
                            Some(e) => if m1.scopes.len() >= usize::MAX {
                                (Err(too_many_scopes()), m1)
                            } else if h >= m1.scopes.len() {
                                (Err(unknown_scope()), m1)
                            } else {
                                eval(*e, m1.scopes.len() as usize, with_scope(m1, Some(h)), s)
                            },
                            None => (Ok(ValueView::Null), m1),
                        }
                    },
                }
            },
            NodeView::WhileLoop(cond, body) => {
                if m.scopes.len() >= usize::MAX {
                    (Err(too_many_scopes()), m)
                } else if h >= m.scopes.len() {
                    (Err(unknown_scope()), m)
                } else {
                    eval_while(*cond, *body, h, m.scopes.len() as usize, with_scope(m, Some(h)), s, ValueView::Null)
                }
            },
            _ => (Ok(ValueView::Null), m),
        }
    }
}

/// Evaluates the statements from index `i` on, in order, in scope `h`;
/// `last` is the value of the statement before.
pub open spec fn eval_block(ns: Seq<NodeView>, i: int, h: usize, m: ManagerView, steps: nat, last: ValueView) -> (
    EvalResult,
    ManagerView,
)
    decreases steps, ns.len() - i + 1,
{
    if i < 0 || i >= ns.len() {
        (Ok(last), m)
    } else {
        let (r, m1) = eval(ns[i], h, m, steps);
        match r {
            Err(e) => (Err(e), m1),
            Ok(v) => eval_block(ns, i + 1, h, m1, steps, v),
        }
    }
}

/// Evaluates list items from index `i` on, in order, after `done`.
pub open spec fn eval_list(ns: Seq<NodeView>, i: int, h: usize, m: ManagerView, steps: nat, done: Seq<ValueView>) -> (
    EvalResult,
    ManagerView,
)
    decreases steps, ns.len() - i + 1,
{
    if i < 0 || i >= ns.len() {
        (Ok(ValueView::List(done)), m)
    } else {
        let (r, m1) = eval(ns[i], h, m, steps);
        match r {
            Err(e) => (Err(e), m1),
            Ok(v) => eval_list(ns, i + 1, h, m1, steps, done.push(v)),
        }
    }
}

/// Binds the parameters from index `i` on in the call scope `c`: each to
/// its argument evaluated in the argument scope `a`, or to `Null` when
/// there is no argument for it.
pub open spec fn eval_args(
    params: Seq<Seq<char>>,
    args: Seq<NodeView>,
    i: int,
    a: usize,
    c: usize,
    m: ManagerView,
    steps: nat,
) -> (EvalResult, ManagerView)
    decreases steps, params.len() - i + 1,
{
    if i < 0 || i >= params.len() {
        (Ok(ValueView::Null), m)
    } else if i < args.len() {
        let (r, m1) = eval(args[i], a, m, steps);
        match r {
            Err(e) => (Err(e), m1),
            Ok(v) => eval_args(params, args, i + 1, a, c, assign(m1, c as int, params[i], v), steps),
        }
    } else {
        eval_args(params, args, i + 1, a, c, assign(m, c as int, params[i], ValueView::Null), steps)
    }
}

/// Runs a loop: the condition in the outer scope `h`, the body in the
/// loop's own scope `w`, one step per round; `last` is the value of the
/// last round of the body.
pub open spec fn eval_while(
    cond: NodeView,
    body: NodeView,
    h: usize,
    w: usize,
    m: ManagerView,
    steps: nat,
    last: ValueView,
) -> (EvalResult, ManagerView)
    decreases steps, 0nat,
{
    if steps == 0 {
        (Err(out_of_steps()), m)
    } else {
        let s = (steps - 1) as nat;
        let (r, m1) = eval(cond, h, m, s);
        match r {
            Err(e) => (Err(e), m1),
            Ok(cv) => if !truthy(m1, cv) {
                (Ok(last), m1)
            } else {
                let (rb, m2) = eval(body, w, m1, s);
                match rb {
                    Err(e) => (Err(e), m2),
                    Ok(v) => eval_while(cond, body, h, w, m2, s, v),
                }
            },
        }
    }
}

fn error_of(msg: &str) -> (e: RuntimeError)
    ensures
        e.msg@ == msg@,
{
    RuntimeError::new(text(msg))
}

/// Evaluates syntax trees against the scopes of the manager it owns.
pub struct Interpreter {
    pub manager: ContextManager,
}

impl Interpreter {
    pub fn new(manager: ContextManager) -> (r: Interpreter)
        ensures
            r.manager.view() == manager.view(),
    {
        Interpreter { manager }
    }

    /// Evaluates `node` in scope `context_id`: its value, or the first
    /// run-time error.
    pub fn visit(&mut self, node: &Node, context_id: usize) -> (r: RuntimeResult)
        requires
            old(self).manager.wf(),
        ensures
            final(self).manager.wf(),
            (result_view(r), final(self).manager.view()) == eval(
                node.view(),
                context_id,
                old(self).manager.view(),
                u64::MAX as nat,
            ),
    {
        self.visit_steps(node, context_id, u64::MAX)
    }

    /// Evaluates `node` in scope `h` with at most `steps` steps.
    pub fn visit_steps(&mut self, node: &Node, h: usize, steps: u64) -> (r: RuntimeResult)
        requires
            old(self).manager.wf(),
        ensures
            final(self).manager.wf(),
            (result_view(r), final(self).manager.view()) == eval(node.view(), h, old(self).manager.view(), steps as nat),
        decreases steps, 0nat,
    {
        if steps == 0 {
            return Err(error_of("Evaluation step limit reached"));
        }
        let s = steps - 1;
        match node {
            Node::Int(n) => Ok(Value::Int(*n)),
            Node::Float(d) => Ok(Value::Float(*d)),
            Node::Str(t) => Ok(Value::Str(t.clone())),
            Node::Statements(..) => self.visit_statements_node(node, h, s),
            Node::UnaryOp(..) => self.visit_unary_op_node(node, h, s),
            Node::BinaryOp(..) => self.visit_binary_op_node(node, h, s),
            Node::VarDef(..) => self.visit_var_def_node(node, h, s),
            Node::VarAcc(..) => self.visit_var_acc_node(node, h, s),
            Node::ListDef(..) => self.visit_list_def_node(node, h, s),
            Node::FuncDef(..) => self.visit_func_def_node(node, h, s),
            Node::FuncCall(..) => self.visit_func_call_node(node, h, s),
            Node::If(..) => self.visit_if_node(node, h, s),
            Node::WhileLoop(..) => self.visit_while_loop_node(node, h, s),
            _ => Ok(Value::Null),
        }
    }

    fn visit_statements_node(&mut self, node: &Node, h: usize, s: u64) -> (r: RuntimeResult)
        requires
            old(self).manager.wf(),
            node is Statements,
        ensures
            final(self).manager.wf(),
            (result_view(r), final(self).manager.view()) == eval(node.view(), h, old(self).manager.view(), (s + 1) as nat),
        decreases s, 2nat,
    {
        match node {
            Node::Statements(nodes, should_return_last) => {
                let ghost nv = nodes_view(nodes@);
                let mut value = Value::Null;
                let mut i: usize = 0;
                while i < nodes.len()
                    invariant
                        self.manager.wf(),
                        i <= nodes@.len(),
                        nv == nodes_view(nodes@),
                        node.view() == NodeView::Statements(nv, *should_return_last),
                        eval_block(nv, 0, h, old(self).manager.view(), s as nat, ValueView::Null) == eval_block(
                            nv,
                            i as int,
                            h,
                            self.manager.view(),
                            s as nat,
                            value.view(),
                        ),
                    decreases nodes@.len() - i,
                {
                    assert(nv[i as int] == nodes@[i as int].view());
                    match self.visit_steps(&nodes[i], h, s) {
                        Err(e) => {
                            return Err(e);
                        },
                        Ok(v) => {
                            value = v;
                        },
                    }
                    i = i + 1;
                }
                if *should_return_last {
                    Ok(value)
                } else {
                    Ok(Value::Null)
                }
            },
            _ => Ok(Value::Null),
        }
    }

    fn visit_unary_op_node(&mut self, node: &Node, h: usize, s: u64) -> (r: RuntimeResult)
        requires
            old(self).manager.wf(),
            node is UnaryOp,
        ensures
            final(self).manager.wf(),
            (result_view(r), final(self).manager.view()) == eval(node.view(), h, old(self).manager.view(), (s + 1) as nat),
        decreases s, 2nat,
    {
        match node {
            Node::UnaryOp(operand, token) => {
                let value = match self.visit_steps(operand, h, s) {
                    Err(e) => {
                        return Err(e);
                    },
                    Ok(v) => v,
                };
                match token {
                    Token::Plus => value.multiply(Value::Int(1), &self.manager),
                    Token::Minus => value.multiply(Value::Int(-1), &self.manager),
                    Token::BitwiseNot => value.bitwise_not(&self.manager),
                    Token::Not => value.logical_not(&self.manager),
                    _ => Ok(value),
                }
            },
            _ => Ok(Value::Null),
        }
    }

    /// A binary operator token applied to two evaluated operands.
    fn apply_binary(&self, token: &TokenType, left: Value, right: Value) -> (r: RuntimeResult)
        ensures
            result_view(r) == eval_binary_op(self.manager.view(), token@, left.view(), right.view()),
    {
        let m = &self.manager;
        match token {
            Token::Plus => left.add(right, m),
            Token::Minus => left.subtract(right, m),
            Token::Mul => left.multiply(right, m),
            Token::Div => left.divide(right, m),
            Token::Pow => left.raise(right, m),
            Token::EE => left.equals(right, m),
            Token::NE => match left.equals(right, m) {
                Ok(Value::Boolean(b)) => Ok(Value::Boolean(!b)),
                other => other,
            },
            Token::GT => left.is_greater_than(right, m),
            Token::GTE => left.is_greater_than_or_equal_to(right, m),
            Token::LT => left.is_less_than(right, m),
            Token::LTE => left.is_less_than_or_equal_to(right, m),
            Token::BitwiseAnd => left.bitwise_and(right, m),
            Token::BitwiseOr => left.bitwise_or(right, m),
            Token::BitwiseXOr => left.bitwise_xor(right, m),
            Token::BitwiseLeftShift => left.left_shift(right, m),
            Token::BitwiseRightShift => left.right_shift(right, m),
            Token::And => left.logical_and(right, m),
            Token::Or => left.logical_or(right, m),
            _ => {
                let mut msg = text("Illegal token '");
                let shown = token.to_string();
                push_text(&mut msg, shown.as_str());
                push_text(&mut msg, "'");
                Err(RuntimeError::new(msg))
            },
        }
    }

    fn visit_binary_op_node(&mut self, node: &Node, h: usize, s: u64) -> (r: RuntimeResult)
        requires
            old(self).manager.wf(),
            node is BinaryOp,
        ensures
            final(self).manager.wf(),
            (result_view(r), final(self).manager.view()) == eval(node.view(), h, old(self).manager.view(), (s + 1) as nat),
        decreases s, 2nat,
    {
        match node {
            Node::BinaryOp(left_node, token, right_node) => {
                let left = match self.visit_steps(left_node, h, s) {
                    Err(e) => {
                        return Err(e);
                    },
                    Ok(v) => v,
                };
                let right = match self.visit_steps(right_node, h, s) {
                    Err(e) => {
                        return Err(e);
                    },
                    Ok(v) => v,
                };
                self.apply_binary(token, left, right)
            },
            _ => Ok(Value::Null),
        }
    }

    fn visit_var_def_node(&mut self, node: &Node, h: usize, s: u64) -> (r: RuntimeResult)
        requires
            old(self).manager.wf(),
            node is VarDef,
        ensures
            final(self).manager.wf(),
            (result_view(r), final(self).manager.view()) == eval(node.view(), h, old(self).manager.view(), (s + 1) as nat),
        decreases s, 2nat,
    {
        match node {
            Node::VarDef(name, value_node) => {
                let value = match self.visit_steps(value_node, h, s) {
                    Err(e) => {
                        return Err(e);
                    },
                    Ok(v) => v,
                };
                self.manager.set_named(h, name, value);
                Ok(Value::Pointer(h, name.clone()))
            },
            _ => Ok(Value::Null),
        }
    }

    fn visit_var_acc_node(&mut self, node: &Node, h: usize, s: u64) -> (r: RuntimeResult)
        requires
            old(self).manager.wf(),
            node is VarAcc,
        ensures
            final(self).manager.wf(),
            (result_view(r), final(self).manager.view()) == eval(node.view(), h, old(self).manager.view(), (s + 1) as nat),
        decreases s, 2nat,
    {
        match node {
            Node::VarAcc(name) => {
                match self.manager.get_named(h, name) {
                    Some(value) => match value {
                        Value::Str(..) | Value::List(..) | Value::Func(..) => Ok(Value::Pointer(h, name.clone())),
                        _ => Ok(value.clone()),
                    },
                    None => {
                        let mut msg = name.clone();
                        push_text(&mut msg, " is not defined");
                        Err(RuntimeError::new(msg))
                    },
                }
            },
            _ => Ok(Value::Null),
        }
    }

    fn visit_list_def_node(&mut self, node: &Node, h: usize, s: u64) -> (r: RuntimeResult)
        requires
            old(self).manager.wf(),
            node is ListDef,
        ensures
            final(self).manager.wf(),
            (result_view(r), final(self).manager.view()) == eval(node.view(), h, old(self).manager.view(), (s + 1) as nat),
        decreases s, 2nat,
    {
        match node {
            Node::ListDef(nodes) => {
                let ghost nv = nodes_view(nodes@);
                let mut values: Vec<Value> = Vec::new();
                let mut i: usize = 0;
                assert(values_view(values@) =~= Seq::<ValueView>::empty());
                while i < nodes.len()
                    invariant
                        self.manager.wf(),
                        i <= nodes@.len(),
                        nv == nodes_view(nodes@),
                        node.view() == NodeView::ListDef(nv),
                        eval_list(nv, 0, h, old(self).manager.view(), s as nat, Seq::empty()) == eval_list(
                            nv,
                            i as int,
                            h,
                            self.manager.view(),
                            s as nat,
                            values_view(values@),
                        ),
                    decreases nodes@.len() - i,
                {
                    assert(nv[i as int] == nodes@[i as int].view());
                    match self.visit_steps(&nodes[i], h, s) {
                        Err(e) => {
                            return Err(e);
                        },
                        Ok(v) => {
                            let ghost before = values_view(values@);
                            let ghost vv = v.view();
                            values.push(v);
                            assert(values_view(values@) =~= before.push(vv));
                        },
                    }
                    i = i + 1;
                }
                Ok(Value::List(values))
            },
            _ => Ok(Value::Null),
        }
    }

    fn visit_func_def_node(&mut self, node: &Node, h: usize, s: u64) -> (r: RuntimeResult)
        requires
            old(self).manager.wf(),
            node is FuncDef,
        ensures
            final(self).manager.wf(),
            (result_view(r), final(self).manager.view()) == eval(node.view(), h, old(self).manager.view(), (s + 1) as nat),
        decreases s, 2nat,
    {
        match node {
            Node::FuncDef(name, params, body) => {
                if self.manager.len() >= usize::MAX {
                    return Err(error_of("Too many scopes"));
                }
                if h >= self.manager.len() {
                    return Err(error_of("Unknown scope"));
                }
                let closure = self.manager.create_context(Some(h));
                let value = Value::Func(name.clone(), clone_names(params), Box::new((**body).clone()), closure);
                self.manager.set_named(h, name, value.clone());
                Ok(value)
            },
            _ => Ok(Value::Null),
        }
    }

    /// Binds each parameter in the call scope `c`: to its argument,
    /// evaluated in the argument scope `a`, or to `Null`.
    fn bind_arguments(
        &mut self,
        params: &Vec<String>,
        args: &Vec<Box<Node>>,
        a: usize,
        c: usize,
        s: u64,
    ) -> (r: RuntimeResult)
        requires
            old(self).manager.wf(),
        ensures
            final(self).manager.wf(),
            (result_view(r), final(self).manager.view()) == eval_args(
                names_view(params@),
                nodes_view(args@),
                0,
                a,
                c,
                old(self).manager.view(),
                s as nat,
            ),
        decreases s, 1nat,
    {
        let ghost pv = names_view(params@);
        let ghost av = nodes_view(args@);
        let mut i: usize = 0;
        while i < params.len()
            invariant
                self.manager.wf(),
                i <= params@.len(),
                pv == names_view(params@),
                av == nodes_view(args@),
                eval_args(pv, av, 0, a, c, old(self).manager.view(), s as nat) == eval_args(
                    pv,
                    av,
                    i as int,
                    a,
                    c,
                    self.manager.view(),
                    s as nat,
                ),
            decreases params@.len() - i,
        {
            assert(pv[i as int] == params@[i as int]@);
            if i < args.len() {
                assert(av[i as int] == args@[i as int].view());
                match self.visit_steps(&args[i], a, s) {
                    Err(e) => {
                        return Err(e);
                    },
                    Ok(v) => {
                        self.manager.set_named(c, &params[i], v);
                    },
                }
            } else {
                self.manager.set_named(c, &params[i], Value::Null);
            }
            i = i + 1;
        }
        Ok(Value::Null)
    }

    fn visit_func_call_node(&mut self, node: &Node, h: usize, s: u64) -> (r: RuntimeResult)
        requires
            old(self).manager.wf(),
            node is FuncCall,
        ensures
            final(self).manager.wf(),
            (result_view(r), final(self).manager.view()) == eval(node.view(), h, old(self).manager.view(), (s + 1) as nat),
        decreases s, 2nat,
    {
        match node {
            Node::FuncCall(func, args) => {
                let function = match self.visit_steps(func, h, s) {
                    Err(e) => {
                        return Err(e);
                    },
                    Ok(v) => v,
                };
                match resolve_fuel(&function, &self.manager, self.manager.bindings()) {
                    None => Err(error_of("Circular reference")),
                    Some(Value::Func(_, params, body, func_context)) => {
                        if self.manager.len() >= usize::MAX - 1 {
                            return Err(error_of("Too many scopes"));
                        }
                        if func_context >= self.manager.len() {
                            return Err(error_of("Unknown scope"));
                        }
                        let arg_context = self.manager.create_context(Some(func_context));
                        let call_context = self.manager.create_context(Some(func_context));
                        match self.bind_arguments(&params, args, arg_context, call_context, s) {
                            Err(e) => Err(e),
                            Ok(_) => self.visit_steps(&body, call_context, s),
                        }
                    },
                    Some(other) => {
                        let mut msg = other.to_string(&self.manager);
                        push_text(&mut msg, " is not a function");
                        Err(RuntimeError::new(msg))
                    },
                }
            },
            _ => Ok(Value::Null),
        }
    }

    fn visit_if_node(&mut self, node: &Node, h: usize, s: u64) -> (r: RuntimeResult)
        requires
            old(self).manager.wf(),
            node is If,
        ensures
            final(self).manager.wf(),
            (result_view(r), final(self).manager.view()) == eval(node.view(), h, old(self).manager.view(), (s + 1) as nat),
        decreases s, 2nat,
    {
        match node {
            Node::If(condition, body, else_body) => {
                let condition_value = match self.visit_steps(condition, h, s) {
                    Err(e) => {
                        return Err(e);
                    },
                    Ok(v) => v,
                };
                if condition_value.is_true(&self.manager) {
                    if self.manager.len() >= usize::MAX {
                        return Err(error_of("Too many scopes"));
                    }
                    if h >= self.manager.len() {
                        return Err(error_of("Unknown scope"));
                    }
                    let if_context = self.manager.create_context(Some(h));
                    self.visit_steps(body, if_context, s)
                } else {
                    match else_body {
                        Some(else_node) => {
                            if self.manager.len() >= usize::MAX {
                                return Err(error_of("Too many scopes"));
                            }
                            if h >= self.manager.len() {
                                return Err(error_of("Unknown scope"));
                            }
                            let else_context = self.manager.create_context(Some(h));
                            self.visit_steps(else_node, else_context, s)
                        },
                        None => Ok(Value::Null),
                    }
                }
            },
            _ => Ok(Value::Null),
        }
    }

    #[verifier::rlimit(100)]
    fn visit_while_loop_node(&mut self, node: &Node, h: usize, s: u64) -> (r: RuntimeResult)
        requires
            old(self).manager.wf(),
            node is WhileLoop,
        ensures
            final(self).manager.wf(),
            (result_view(r), final(self).manager.view()) == eval(node.view(), h, old(self).manager.view(), (s + 1) as nat),
        decreases s, 2nat,
    {
        match node {
            Node::WhileLoop(condition, body) => {
                if self.manager.len() >= usize::MAX {
                    return Err(error_of("Too many scopes"));
                }
                if h >= self.manager.len() {
                    return Err(error_of("Unknown scope"));
                }
                let while_context = self.manager.create_context(Some(h));
                let ghost m0 = self.manager.view();
                let mut result_value = Value::Null;
                let mut steps = s;
                loop
                    invariant
                        self.manager.wf(),
                        steps <= s,
                        node.view() == NodeView::WhileLoop(Box::new(condition.view()), Box::new(body.view())),
                        !(old(self).manager.view().scopes.len() >= usize::MAX),
                        h < old(self).manager.view().scopes.len(),
                        while_context == old(self).manager.view().scopes.len(),
                        m0 == with_scope(old(self).manager.view(), Some(h)),
                        eval_while(condition.view(), body.view(), h, while_context, m0, s as nat, ValueView::Null)
                            == eval_while(
                            condition.view(),
                            body.view(),
                            h,
                            while_context,
                            self.manager.view(),
                            steps as nat,
                            result_value.view(),
                        ),
                    decreases steps,
                {
                    if steps == 0 {
                        return Err(error_of("Evaluation step limit reached"));
                    }
                    let st = steps - 1;
                    let condition_value = match self.visit_steps(condition, h, st) {
                        Err(e) => {
                            return Err(e);
                        },
                        Ok(v) => v,
                    };
                    if !condition_value.is_true(&self.manager) {
                        return Ok(result_value);
                    }
                    result_value = match self.visit_steps(body, while_context, st) {
                        Err(e) => {
                            return Err(e);
                        },
                        Ok(v) => v,
                    };
                    steps = st;
                }
            },
            _ => Ok(Value::Null),
        }
    }
}

} // verus!
