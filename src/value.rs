//! Run-time values and the operators on them.
use vstd::prelude::*;
use crate::node::{clone_names, names_view, Node, NodeView};
use crate::context::{lookup, ContextManager, ManagerView};
use crate::error::RuntimeError;
use crate::number::{abs, decimal_text, div_units, fits_i64, mul_units, trunc_div, trunc_div_i128, Decimal, SCALE};
use crate::text::{int_text, push_int, push_text};
use crate::token::text;

verus! {

/// A value of the language. A `Pointer` names a binding, as a scope handle
/// and a name, and stands for whatever that binding holds when it is used.
#[derive(Debug)]
pub enum Value {
    Int(i32),
    Float(Decimal),
    Str(String),
    Boolean(bool),
    /// A function: its name, its parameters, its body and the handle of
    /// the scope it was defined in.
    Func(String, Vec<String>, Box<Node>, usize),
    List(Vec<Value>),
    Pointer(usize, String),
    Null,
}

/// A value as the contracts see it.
pub enum ValueView {
    Int(i32),
    Float(Decimal),
    Str(Seq<char>),
    Boolean(bool),
    Func(Seq<char>, Seq<Seq<char>>, NodeView, usize),
    List(Seq<ValueView>),
    Pointer(usize, Seq<char>),
    Null,
}

impl Value {
    pub open spec fn view(&self) -> ValueView
        decreases self,
    {
        match self {
            Value::Int(n) => ValueView::Int(*n),
            Value::Float(d) => ValueView::Float(*d),
            Value::Str(s) => ValueView::Str(s@),
            Value::Boolean(b) => ValueView::Boolean(*b),
            Value::Func(name, params, body, h) => ValueView::Func(name@, names_view(params@), body.view(), *h),
            Value::List(vs) => ValueView::List(values_view(vs@)),
            Value::Pointer(h, name) => ValueView::Pointer(*h, name@),
            Value::Null => ValueView::Null,
        }
    }
}

pub open spec fn values_view(v: Seq<Value>) -> Seq<ValueView>
    decreases v,
{
    Seq::new(v.len(), |i: int| if 0 <= i < v.len() { v[i].view() } else { ValueView::Null })
}

/// Copies a list of values.
pub fn clone_values(v: &Vec<Value>) -> (r: Vec<Value>)
    ensures
        values_view(r@) == values_view(v@),
    decreases v,
{
    let mut r: Vec<Value> = Vec::new();
    let mut i: usize = 0;
    while i < v.len()
        invariant
            i <= v@.len(),
            r@.len() == i,
            forall|j: int| 0 <= j < i ==> (#[trigger] r@[j]).view() == v@[j].view(),
        decreases v@.len() - i,
    {
        r.push(v[i].clone());
        i = i + 1;
    }
    assert(values_view(r@) =~= values_view(v@));
    r
}

impl Clone for Value {
    fn clone(&self) -> (r: Self)
        ensures
            r.view() == self.view(),
        decreases self,
    {
        match self {
            Value::Int(n) => Value::Int(*n),
            Value::Float(d) => Value::Float(*d),
            Value::Str(s) => Value::Str(s.clone()),
            Value::Boolean(b) => Value::Boolean(*b),
            Value::Func(name, params, body, h) => Value::Func(
                name.clone(),
                clone_names(params),
                Box::new((**body).clone()),
                *h,
            ),
            Value::List(vs) => Value::List(clone_values(vs)),
            Value::Pointer(h, name) => Value::Pointer(*h, name.clone()),
            Value::Null => Value::Null,
        }
    }
}

pub type RuntimeResult = Result<Value, RuntimeError>;

/// What a run-time result says, against the contracts' terms: a value, or
/// the message of the error.
pub open spec fn result_view(r: RuntimeResult) -> Result<ValueView, Seq<char>> {
    match r {
        Ok(v) => Ok(v.view()),
        Err(e) => Err(e.msg@),
    }
}

/// Follows pointers, at most `fuel` of them. A pointer to a binding that
/// does not exist stands for `Null`; `None` means the chain is longer
/// than `fuel`.
pub open spec fn resolve(m: ManagerView, v: ValueView, fuel: nat) -> Option<ValueView>
    decreases fuel,
{
    match v {
        ValueView::Pointer(h, name) => if fuel == 0 {
            None
        } else {
            match lookup(m, h as int, name) {
                Some(w) => resolve(m, w, (fuel - 1) as nat),
                None => Some(ValueView::Null),
            }
        },
        _ => Some(v),
    }
}

/// What a value stands for once every pointer is followed. A chain longer
/// than the number of bindings ever made must return to a binding it
/// passed, and so never ends: it gives `None`.
pub open spec fn deref_all(m: ManagerView, v: ValueView) -> Option<ValueView> {
    resolve(m, v, m.bindings)
}

/// Texts joined with `, ` between them.
pub open spec fn join(ss: Seq<Seq<char>>) -> Seq<char>
    decreases ss.len(),
{
    if ss.len() == 0 {
        Seq::empty()
    } else if ss.len() == 1 {
        ss[0]
    } else {
        join(ss.drop_last()) + ", "@ + ss.last()
    }
}

/// The printable forms of the first `n` items, joined with `, `.
pub open spec fn items_text(m: ManagerView, vs: Seq<ValueView>, n: int, fuel: nat) -> Seq<char>
    decreases fuel, vs, n,
{
    if n <= 0 || n > vs.len() {
        Seq::empty()
    } else if n == 1 {
        value_text(m, vs[0], fuel)
    } else {
        items_text(m, vs, n - 1, fuel) + ", "@ + value_text(m, vs[n - 1], fuel)
    }
}

/// The printable form of a value, following at most `fuel` pointers.
pub open spec fn value_text(m: ManagerView, v: ValueView, fuel: nat) -> Seq<char>
    decreases fuel, v, 0int,
{
    match v {
        ValueView::Int(n) => int_text(n as int),
        ValueView::Float(d) => decimal_text(d.units as int),
        ValueView::Str(s) => s,
        ValueView::Boolean(b) => if b { "true"@ } else { "false"@ },
        ValueView::Func(name, params, _, _) => name + "("@ + join(params) + ")"@,
        ValueView::List(vs) => "["@ + items_text(m, vs, vs.len() as int, fuel) + "]"@,
        ValueView::Pointer(h, name) => if fuel == 0 {
            "null"@
        } else {
            match lookup(m, h as int, name) {
                Some(w) => value_text(m, w, (fuel - 1) as nat),
                None => "null"@,
            }
        },
        ValueView::Null => "null"@,
    }
}

/// The printable form of a value.
pub open spec fn printable(m: ManagerView, v: ValueView) -> Seq<char> {
    value_text(m, v, m.bindings)
}

/// The binary operators on values.
#[derive(Clone, Copy, Debug, PartialEq, Eq, Structural)]
pub enum BinOp {
    Add,
    Sub,
    Mul,
    Div,
    Pow,
    Gt,
    Gte,
    Lt,
    Lte,
    Eq,
    BitAnd,
    BitOr,
    BitXor,
    Shl,
    Shr,
}

pub open spec fn op_symbol(op: BinOp) -> Seq<char> {
    match op {
        BinOp::Add => "+"@,
        BinOp::Sub => "-"@,
        BinOp::Mul => "*"@,
        BinOp::Div => "/"@,
        BinOp::Pow => "^"@,
        BinOp::Gt => ">"@,
        BinOp::Gte => ">="@,
        BinOp::Lt => "<"@,
        BinOp::Lte => "<="@,
        BinOp::Eq => "=="@,
        BinOp::BitAnd => "&"@,
        BinOp::BitOr => "|"@,
        BinOp::BitXor => "^^"@,
        BinOp::Shl => "<<"@,
        BinOp::Shr => ">>"@,
    }
}

pub open spec fn cannot_apply(op: Seq<char>, a: Seq<char>, b: Seq<char>) -> Seq<char> {
    "Operator '"@ + op + "' cannot be applied to '"@ + a + "', '"@ + b + "'."@
}

pub open spec fn cannot_apply_unary(op: Seq<char>, a: Seq<char>) -> Seq<char> {
    "Operator '"@ + op + "' cannot be applied to '"@ + a + "'."@
}

pub open spec fn cannot_compare(a: Seq<char>, b: Seq<char>) -> Seq<char> {
    "Cannot compare '"@ + a + "' with '"@ + b + "'."@
}

pub open spec fn overflow(op: Seq<char>) -> Seq<char> {
    "Numeric overflow in '"@ + op + "'."@
}

pub open spec fn division_by_zero() -> Seq<char> {
    "Division by zero"@
}

pub open spec fn fractional_exponent() -> Seq<char> {
    "Operator '^' needs a whole exponent"@
}

pub open spec fn shift_out_of_range() -> Seq<char> {
    "Shift amount out of range"@
}

pub open spec fn circular_reference() -> Seq<char> {
    "Circular reference"@
}

pub open spec fn fits_i32(x: int) -> bool {
    i32::MIN <= x <= i32::MAX
}

pub open spec fn is_number(v: ValueView) -> bool {
    v is Int || v is Float
}

/// A number as a count of millionths.
pub open spec fn units_of(v: ValueView) -> int {
    match v {
        ValueView::Int(n) => n as int * SCALE as int,
        ValueView::Float(d) => d.units as int,
        _ => 0,
    }
}

pub open spec fn int_result(x: int, op: BinOp) -> Result<ValueView, Seq<char>> {
    if fits_i32(x) {
        Ok(ValueView::Int(x as i32))
    } else {
        Err(overflow(op_symbol(op)))
    }
}

pub open spec fn float_result(units: int, op: BinOp) -> Result<ValueView, Seq<char>> {
    if fits_i64(units) {
        Ok(ValueView::Float(Decimal { units: units as i64 }))
    } else {
        Err(overflow(op_symbol(op)))
    }
}

/// `a` to the power `n`, by multiplying `n` times; `None` when a step
/// leaves the range of `i32`.
pub open spec fn int_pow(a: int, n: nat) -> Option<int>
    decreases n,
{
    if n == 0 {
        Some(1)
    } else {
        match int_pow(a, (n - 1) as nat) {
            Some(p) => if fits_i32(p * a) {
                Some(p * a)
            } else {
                None
            },
            None => None,
        }
    }
}

/// The units of the decimal `u` to the power `n`, by multiplying `n`
/// times, each product cut to six digits; `None` when a step leaves the
/// range.
pub open spec fn decimal_pow(u: int, n: nat) -> Option<int>
    decreases n,
{
    if n == 0 {
        Some(SCALE as int)
    } else {
        match decimal_pow(u, (n - 1) as nat) {
            Some(p) => if fits_i64(mul_units(p, u)) {
                Some(mul_units(p, u))
            } else {
                None
            },
            None => None,
        }
    }
}

pub open spec fn numeric_compare(op: BinOp, x: int, y: int) -> bool {
    match op {
        BinOp::Gt => x > y,
        BinOp::Gte => x >= y,
        BinOp::Lt => x < y,
        _ => x <= y,
    }
}

/// An operator applied to two values that are not pointers.
pub open spec fn apply(m: ManagerView, op: BinOp, x: ValueView, y: ValueView) -> Result<ValueView, Seq<char>> {
    let fail = Err(cannot_apply(op_symbol(op), printable(m, x), printable(m, y)));
    match op {
        BinOp::Add => match (x, y) {
            (ValueView::Int(a), ValueView::Int(b)) => int_result(a + b, op),
            (ValueView::Str(s), ValueView::Str(t)) => Ok(ValueView::Str(s + t)),
            (ValueView::Str(s), _) => Ok(ValueView::Str(s + printable(m, y))),
            _ => if is_number(x) && is_number(y) {
                float_result(units_of(x) + units_of(y), op)
            } else {
                fail
            },
        },
        BinOp::Sub => match (x, y) {
            (ValueView::Int(a), ValueView::Int(b)) => int_result(a - b, op),
            _ => if is_number(x) && is_number(y) {
                float_result(units_of(x) - units_of(y), op)
            } else {
                fail
            },
        },
        BinOp::Mul => match (x, y) {
            (ValueView::Int(a), ValueView::Int(b)) => int_result(a * b, op),
            _ => if is_number(x) && is_number(y) {
                float_result(mul_units(units_of(x), units_of(y)), op)
            } else {
                fail
            },
        },
        BinOp::Div => if !(is_number(x) && is_number(y)) {
            fail
        } else if units_of(y) == 0 {
            Err(division_by_zero())
        } else {
            match (x, y) {
                (ValueView::Int(a), ValueView::Int(b)) => if abs(a as int) % abs(
                    b as int,
                ) == 0 {
                    int_result(trunc_div(a as int, b as int), op)
                } else {
                    float_result(div_units(units_of(x), units_of(y)), op)
                },
                _ => float_result(div_units(units_of(x), units_of(y)), op),
            }
        },
        BinOp::Pow => match (x, y) {
            (ValueView::Int(a), ValueView::Int(b)) if b >= 0 => match int_pow(a as int, b as nat) {
                Some(p) => Ok(ValueView::Int(p as i32)),
                None => Err(overflow(op_symbol(op))),
            },
            _ => if !(is_number(x) && is_number(y)) {
                fail
            } else if abs(units_of(y)) % (SCALE as nat) != 0 {
                Err(fractional_exponent())
            } else {
                let n = trunc_div(units_of(y), SCALE as int);
                if !fits_i32(n) {
                    Err(overflow(op_symbol(op)))
                } else {
                    match decimal_pow(units_of(x), abs(n)) {
                        // A power beyond the range has a reciprocal below one
                        // millionth, which is zero in six digits.
                        None => if n >= 0 {
                            Err(overflow(op_symbol(op)))
                        } else {
                            Ok(ValueView::Float(Decimal { units: 0 }))
                        },
                        Some(p) => if n >= 0 {
                            float_result(p, op)
                        } else if p == 0 {
                            Err(division_by_zero())
                        } else {
                            float_result(div_units(SCALE as int, p), op)
                        },
                    }
                }
            },
        },
        BinOp::Gt | BinOp::Gte | BinOp::Lt | BinOp::Lte => match (x, y) {
            (ValueView::Int(a), ValueView::Int(b)) => Ok(ValueView::Boolean(numeric_compare(op, a as int, b as int))),
            _ => if is_number(x) && is_number(y) {
                Ok(ValueView::Boolean(numeric_compare(op, units_of(x), units_of(y))))
            } else {
                fail
            },
        },
        BinOp::Eq => match (x, y) {
            (ValueView::Boolean(a), ValueView::Boolean(b)) => Ok(ValueView::Boolean(a == b)),
            (ValueView::Str(s), ValueView::Str(t)) => Ok(ValueView::Boolean(s == t)),
            (ValueView::Null, ValueView::Null) => Ok(ValueView::Boolean(true)),
            _ => if is_number(x) && is_number(y) {
                Ok(ValueView::Boolean(units_of(x) == units_of(y)))
            } else {
                Err(cannot_compare(printable(m, x), printable(m, y)))
            },
        },
        BinOp::BitAnd => match (x, y) {
            (ValueView::Int(a), ValueView::Int(b)) => Ok(ValueView::Int(a & b)),
            _ => fail,
        },
        BinOp::BitOr => match (x, y) {
            (ValueView::Int(a), ValueView::Int(b)) => Ok(ValueView::Int(a | b)),
            _ => fail,
        },
        BinOp::BitXor => match (x, y) {
            (ValueView::Int(a), ValueView::Int(b)) => Ok(ValueView::Int(a ^ b)),
            _ => fail,
        },
        BinOp::Shl => match (x, y) {
            (ValueView::Int(a), ValueView::Int(b)) => if 0 <= b < 32 {
                Ok(ValueView::Int(a << (b as u32)))
            } else {
                Err(shift_out_of_range())
            },
            _ => fail,
        },
        BinOp::Shr => match (x, y) {
            (ValueView::Int(a), ValueView::Int(b)) => if 0 <= b < 32 {
                Ok(ValueView::Int(a >> (b as u32)))
            } else {
                Err(shift_out_of_range())
            },
            _ => fail,
        },
    }
}

/// An operator applied to two values, each pointer followed first.
pub open spec fn binary(m: ManagerView, op: BinOp, a: ValueView, b: ValueView) -> Result<ValueView, Seq<char>> {
    match (deref_all(m, a), deref_all(m, b)) {
        (Some(x), Some(y)) => apply(m, op, x, y),
        _ => Err(circular_reference()),
    }
}

/// Truthiness of a value that is not a pointer.
pub open spec fn plain_truthy(v: ValueView) -> bool {
    match v {
        ValueView::Int(n) => n != 0,
        ValueView::Float(d) => d.units != 0,
        ValueView::Boolean(b) => b,
        ValueView::Str(s) => s.len() > 0,
        ValueView::List(vs) => vs.len() > 0,
        ValueView::Func(..) => true,
        _ => false,
    }
}

/// Truthiness: non-zero numbers, non-empty strings and lists, `true`, and
/// functions; a pointer goes by what it stands for.
pub open spec fn truthy(m: ManagerView, v: ValueView) -> bool {
    match deref_all(m, v) {
        Some(x) => plain_truthy(x),
        None => false,
    }
}

/// Bitwise negation, on integers alone: in two's complement the
/// complement of `n` is `-n - 1`.
pub open spec fn bit_not(m: ManagerView, v: ValueView) -> Result<ValueView, Seq<char>> {
    match deref_all(m, v) {
        Some(ValueView::Int(n)) => Ok(ValueView::Int((-1 - n) as i32)),
        Some(x) => Err(cannot_apply_unary("~"@, printable(m, x))),
        None => Err(circular_reference()),
    }
}

pub open spec fn option_view(r: Option<Value>) -> Option<ValueView> {
    match r {
        Some(v) => Some(v.view()),
        None => None,
    }
}

/// Follows pointers from `v`, at most `fuel` of them.
pub fn resolve_fuel(v: &Value, manager: &ContextManager, fuel: u64) -> (r: Option<Value>)
    ensures
        option_view(r) == resolve(manager.view(), v.view(), fuel as nat),
    decreases fuel,
{
    match v {
        Value::Pointer(h, name) => {
            if fuel == 0 {
                None
            } else {
                match manager.get_named(*h, name) {
                    Some(w) => resolve_fuel(w, manager, fuel - 1),
                    None => Some(Value::Null),
                }
            }
        },
        _ => Some(v.clone()),
    }
}

/// Appends the names joined with `, `.
fn push_joined_names(s: &mut String, names: &Vec<String>)
    ensures
        final(s)@ == old(s)@ + join(names_view(names@)),
{
    let ghost ss = names_view(names@);
    let mut i: usize = 0;
    assert(ss.take(0) =~= Seq::<Seq<char>>::empty());
    assert(s@ =~= old(s)@ + join(ss.take(0)));
    while i < names.len()
        invariant
            i <= names@.len(),
            ss == names_view(names@),
            s@ == old(s)@ + join(ss.take(i as int)),
        decreases names@.len() - i,
    {
        assert(ss.take(i + 1).drop_last() =~= ss.take(i as int));
        if i > 0 {
            push_text(s, ", ");
        }
        push_text(s, names[i].as_str());
        i = i + 1;
        assert(s@ =~= old(s)@ + join(ss.take(i as int)));
    }
    assert(ss.take(names@.len() as int) =~= ss);
}

/// The text of a binary operator.
pub fn op_str(op: BinOp) -> (r: &'static str)
    ensures
        r@ == op_symbol(op),
{
    match op {
        BinOp::Add => "+",
        BinOp::Sub => "-",
        BinOp::Mul => "*",
        BinOp::Div => "/",
        BinOp::Pow => "^",
        BinOp::Gt => ">",
        BinOp::Gte => ">=",
        BinOp::Lt => "<",
        BinOp::Lte => "<=",
        BinOp::Eq => "==",
        BinOp::BitAnd => "&",
        BinOp::BitOr => "|",
        BinOp::BitXor => "^^",
        BinOp::Shl => "<<",
        BinOp::Shr => ">>",
    }
}

fn cannot_apply_error(op: BinOp, x: &Value, y: &Value, m: &ContextManager) -> (e: RuntimeError)
    ensures
        e.msg@ == cannot_apply(op_symbol(op), printable(m.view(), x.view()), printable(m.view(), y.view())),
{
    let mut s = text("Operator '");
    push_text(&mut s, op_str(op));
    push_text(&mut s, "' cannot be applied to '");
    let a = x.to_string(m);
    push_text(&mut s, a.as_str());
    push_text(&mut s, "', '");
    let b = y.to_string(m);
    push_text(&mut s, b.as_str());
    push_text(&mut s, "'.");
    RuntimeError::new(s)
}

fn cannot_compare_error(x: &Value, y: &Value, m: &ContextManager) -> (e: RuntimeError)
    ensures
        e.msg@ == cannot_compare(printable(m.view(), x.view()), printable(m.view(), y.view())),
{
    let mut s = text("Cannot compare '");
    let a = x.to_string(m);
    push_text(&mut s, a.as_str());
    push_text(&mut s, "' with '");
    let b = y.to_string(m);
    push_text(&mut s, b.as_str());
    push_text(&mut s, "'.");
    RuntimeError::new(s)
}

fn overflow_error(op: BinOp) -> (e: RuntimeError)
    ensures
        e.msg@ == overflow(op_symbol(op)),
{
    let mut s = text("Numeric overflow in '");
    push_text(&mut s, op_str(op));
    push_text(&mut s, "'.");
    RuntimeError::new(s)
}

fn int_result_exec(x: i128, op: BinOp) -> (r: RuntimeResult)
    ensures
        result_view(r) == int_result(x as int, op),
{
    if x < i32::MIN as i128 || x > i32::MAX as i128 {
        Err(overflow_error(op))
    } else {
        Ok(Value::Int(x as i32))
    }
}

fn float_result_exec(d: Option<Decimal>, op: BinOp) -> (r: RuntimeResult)
    ensures
        match d {
            Some(d) => result_view(r) == Ok::<ValueView, Seq<char>>(ValueView::Float(d)),
            None => result_view(r) == Err::<ValueView, Seq<char>>(overflow(op_symbol(op))),
        },
{
    match d {
        Some(d) => Ok(Value::Float(d)),
        None => Err(overflow_error(op)),
    }
}

/// A number as a decimal.
fn to_decimal(v: &Value) -> (d: Decimal)
    requires
        is_number(v.view()),
    ensures
        d.units == units_of(v.view()),
{
    match v {
        Value::Int(n) => Decimal::from_int(*n),
        Value::Float(d) => *d,
        _ => Decimal { units: 0 },
    }
}

fn is_number_exec(v: &Value) -> (r: bool)
    ensures
        r == is_number(v.view()),
{
    match v {
        Value::Int(_) => true,
        Value::Float(_) => true,
        _ => false,
    }
}

/// The printable form of a list's items: `[` and `]` around the items'
/// forms joined with `, `.
pub fn list_text(vs: &Vec<Value>, manager: &ContextManager, fuel: u64) -> (r: String)
    ensures
        r@ == value_text(manager.view(), ValueView::List(values_view(vs@)), fuel as nat),
    decreases fuel, vs,
{
    let ghost x = values_view(vs@);
    let ghost m = manager.view();
    let mut s = text("[");
    let mut i: usize = 0;
    assert(s@ =~= "["@ + items_text(m, x, 0, fuel as nat));
    while i < vs.len()
        invariant
            i <= vs@.len(),
            x == values_view(vs@),
            m == manager.view(),
            s@ == "["@ + items_text(m, x, i as int, fuel as nat),
        decreases vs@.len() - i,
    {
        assert(x[i as int] == vs@[i as int].view());
        if i > 0 {
            push_text(&mut s, ", ");
        }
        let t = vs[i].text_fuel(manager, fuel);
        push_text(&mut s, t.as_str());
        i = i + 1;
        assert(s@ =~= "["@ + items_text(m, x, i as int, fuel as nat));
    }
    push_text(&mut s, "]");
    s
}

fn message_error(msg: &str) -> (e: RuntimeError)
    ensures
        e.msg@ == msg@,
{
    RuntimeError::new(text(msg))
}

pub proof fn lemma_int_pow_fails_on(a: int, k: nat, n: nat)
    requires
        k <= n,
        int_pow(a, k) is None,
    ensures
        int_pow(a, n) is None,
    decreases n,
{
    if k < n {
        lemma_int_pow_fails_on(a, k, (n - 1) as nat);
    }
}

pub proof fn lemma_decimal_pow_fails_on(u: int, k: nat, n: nat)
    requires
        k <= n,
        decimal_pow(u, k) is None,
    ensures
        decimal_pow(u, n) is None,
    decreases n,
{
    if k < n {
        lemma_decimal_pow_fails_on(u, k, (n - 1) as nat);
    }
}

/// `a` to the power `n`, or `None` when a step leaves the range of `i32`.
fn int_pow_exec(a: i32, n: i32) -> (r: Option<i32>)
    requires
        n >= 0,
    ensures
        match r {
            Some(p) => int_pow(a as int, n as nat) == Some(p as int),
            None => int_pow(a as int, n as nat) is None,
        },
{
    let mut acc: i64 = 1;
    let mut k: i32 = 0;
    while k < n
        invariant
            0 <= k <= n,
            int_pow(a as int, k as nat) == Some(acc as int),
            fits_i32(acc as int),
        decreases n - k,
    {
        assert(-0x8000_0000_0000_0000 < acc * (a as int) < 0x7fff_ffff_ffff_ffff) by (nonlinear_arith)
            requires
                i32::MIN <= acc <= i32::MAX,
                i32::MIN <= a <= i32::MAX,
        ;
        let next: i64 = acc * a as i64;
        if next < i32::MIN as i64 || next > i32::MAX as i64 {
            proof {
                lemma_int_pow_fails_on(a as int, (k + 1) as nat, n as nat);
            }
            return None;
        }
        acc = next;
        k = k + 1;
    }
    Some(acc as i32)
}

/// The units of `u` to the power `n`, or `None` when a step leaves the
/// range.
fn decimal_pow_exec(u: i64, n: u64) -> (r: Option<i64>)
    ensures
        match r {
            Some(p) => decimal_pow(u as int, n as nat) == Some(p as int),
            None => decimal_pow(u as int, n as nat) is None,
        },
{
    let mut acc = Decimal { units: SCALE };
    let base = Decimal { units: u };
    let mut k: u64 = 0;
    while k < n
        invariant
            0 <= k <= n,
            base.units == u,
            decimal_pow(u as int, k as nat) == Some(acc.units as int),
        decreases n - k,
    {
        match acc.checked_mul(&base) {
            Some(p) => {
                acc = p;
            },
            None => {
                proof {
                    lemma_decimal_pow_fails_on(u as int, (k + 1) as nat, n as nat);
                }
                return None;
            },
        }
        k = k + 1;
    }
    Some(acc.units)
}

fn compare_exec(op: BinOp, a: i64, b: i64) -> (r: bool)
    ensures
        r == numeric_compare(op, a as int, b as int),
{
    match op {
        BinOp::Gt => a > b,
        BinOp::Gte => a >= b,
        BinOp::Lt => a < b,
        _ => a <= b,
    }
}

fn magnitude(x: i64) -> (r: u64)
    ensures
        r as int == abs(x as int),
{
    if x < 0 {
        (-(x as i128)) as u64
    } else {
        x as u64
    }
}

/// `^` on two values that are not pointers.
fn power_exec(x: &Value, y: &Value, m: &ContextManager) -> (r: RuntimeResult)
    ensures
        result_view(r) == apply(m.view(), BinOp::Pow, x.view(), y.view()),
{
    let op = BinOp::Pow;
    if let (Value::Int(a), Value::Int(b)) = (x, y) {
        if *b >= 0 {
            return match int_pow_exec(*a, *b) {
                Some(p) => Ok(Value::Int(p)),
                None => Err(overflow_error(op)),
            };
        }
    }
    if !(is_number_exec(x) && is_number_exec(y)) {
        return Err(cannot_apply_error(op, x, y, m));
    }
    let ux = to_decimal(x).units;
    let uy = to_decimal(y).units;
    if magnitude(uy) % (SCALE as u64) != 0 {
        return Err(message_error("Operator '^' needs a whole exponent"));
    }
    let n = trunc_div_i128(uy as i128, SCALE as i128);
    if n < i32::MIN as i128 || n > i32::MAX as i128 {
        return Err(overflow_error(op));
    }
    let k: u64 = magnitude(n as i64);
    match decimal_pow_exec(ux, k) {
        None => if n >= 0 {
            Err(overflow_error(op))
        } else {
            Ok(Value::Float(Decimal { units: 0 }))
        },
        Some(p) => {
            if n >= 0 {
                Ok(Value::Float(Decimal { units: p }))
            } else if p == 0 {
                Err(message_error("Division by zero"))
            } else {
                let one = Decimal { units: SCALE };
                float_result_exec(one.checked_div(&Decimal { units: p }), op)
            }
        },
    }
}

/// `/` on two values that are not pointers.
fn divide_exec(x: &Value, y: &Value, m: &ContextManager) -> (r: RuntimeResult)
    ensures
        result_view(r) == apply(m.view(), BinOp::Div, x.view(), y.view()),
{
    let op = BinOp::Div;
    if !(is_number_exec(x) && is_number_exec(y)) {
        return Err(cannot_apply_error(op, x, y, m));
    }
    let dx = to_decimal(x);
    let dy = to_decimal(y);
    if dy.units == 0 {
        return Err(message_error("Division by zero"));
    }
    if let (Value::Int(a), Value::Int(b)) = (x, y) {
        if magnitude(*a as i64) % magnitude(*b as i64) == 0 {
            return int_result_exec(trunc_div_i128(*a as i128, *b as i128), op);
        }
    }
    float_result_exec(dx.checked_div(&dy), op)
}

/// An operator applied to two values that are not pointers.
fn apply_exec(op: BinOp, x: &Value, y: &Value, m: &ContextManager) -> (r: RuntimeResult)
    ensures
        result_view(r) == apply(m.view(), op, x.view(), y.view()),
{
    match op {
        BinOp::Add => match (x, y) {
            (Value::Int(a), Value::Int(b)) => int_result_exec(*a as i128 + *b as i128, op),
            (Value::Str(s), Value::Str(t)) => {
                let mut r = s.clone();
                push_text(&mut r, t.as_str());
                Ok(Value::Str(r))
            },
            (Value::Str(s), _) => {
                let mut r = s.clone();
                let t = y.to_string(m);
                push_text(&mut r, t.as_str());
                Ok(Value::Str(r))
            },
            _ => if is_number_exec(x) && is_number_exec(y) {
                float_result_exec(to_decimal(x).checked_add(&to_decimal(y)), op)
            } else {
                Err(cannot_apply_error(op, x, y, m))
            },
        },
        BinOp::Sub => match (x, y) {
            (Value::Int(a), Value::Int(b)) => int_result_exec(*a as i128 - *b as i128, op),
            _ => if is_number_exec(x) && is_number_exec(y) {
                float_result_exec(to_decimal(x).checked_sub(&to_decimal(y)), op)
            } else {
                Err(cannot_apply_error(op, x, y, m))
            },
        },
        BinOp::Mul => match (x, y) {
            (Value::Int(a), Value::Int(b)) => {
                assert(-0x8000_0000_0000_0000 < (*a as int) * (*b as int) < 0x7fff_ffff_ffff_ffff) by (nonlinear_arith)
                    requires
                        i32::MIN <= *a <= i32::MAX,
                        i32::MIN <= *b <= i32::MAX,
                ;
                int_result_exec(*a as i128 * *b as i128, op)
            },
            _ => if is_number_exec(x) && is_number_exec(y) {
                float_result_exec(to_decimal(x).checked_mul(&to_decimal(y)), op)
            } else {
                Err(cannot_apply_error(op, x, y, m))
            },
        },
        BinOp::Div => divide_exec(x, y, m),
        BinOp::Pow => power_exec(x, y, m),
        BinOp::Gt | BinOp::Gte | BinOp::Lt | BinOp::Lte => match (x, y) {
            (Value::Int(a), Value::Int(b)) => Ok(Value::Boolean(compare_exec(op, *a as i64, *b as i64))),
            _ => if is_number_exec(x) && is_number_exec(y) {
                Ok(Value::Boolean(compare_exec(op, to_decimal(x).units, to_decimal(y).units)))
            } else {
                Err(cannot_apply_error(op, x, y, m))
            },
        },
        BinOp::Eq => match (x, y) {
            (Value::Boolean(a), Value::Boolean(b)) => Ok(Value::Boolean(*a == *b)),
            (Value::Str(s), Value::Str(t)) => Ok(Value::Boolean(*s == *t)),
            (Value::Null, Value::Null) => Ok(Value::Boolean(true)),
            _ => if is_number_exec(x) && is_number_exec(y) {
                Ok(Value::Boolean(to_decimal(x).units == to_decimal(y).units))
            } else {
                Err(cannot_compare_error(x, y, m))
            },
        },
        BinOp::BitAnd => match (x, y) {
            (Value::Int(a), Value::Int(b)) => Ok(Value::Int(*a & *b)),
            _ => Err(cannot_apply_error(op, x, y, m)),
        },
        BinOp::BitOr => match (x, y) {
            (Value::Int(a), Value::Int(b)) => Ok(Value::Int(*a | *b)),
            _ => Err(cannot_apply_error(op, x, y, m)),
        },
        BinOp::BitXor => match (x, y) {
            (Value::Int(a), Value::Int(b)) => Ok(Value::Int(*a ^ *b)),
            _ => Err(cannot_apply_error(op, x, y, m)),
        },
        BinOp::Shl => match (x, y) {
            (Value::Int(a), Value::Int(b)) => if 0 <= *b && *b < 32 {
                Ok(Value::Int(*a << (*b as u32)))
            } else {
                Err(message_error("Shift amount out of range"))
            },
            _ => Err(cannot_apply_error(op, x, y, m)),
        },
        BinOp::Shr => match (x, y) {
            (Value::Int(a), Value::Int(b)) => if 0 <= *b && *b < 32 {
                Ok(Value::Int(*a >> (*b as u32)))
            } else {
                Err(message_error("Shift amount out of range"))
            },
            _ => Err(cannot_apply_error(op, x, y, m)),
        },
    }
}

fn plain_truthy_exec(v: &Value) -> (r: bool)
    ensures
        r == plain_truthy(v.view()),
{
    match v {
        Value::Int(n) => *n != 0,
        Value::Float(d) => d.units != 0,
        Value::Boolean(b) => *b,
        Value::Str(s) => s.as_str().unicode_len() > 0,
        Value::List(vs) => {
            assert(values_view(vs@).len() == vs@.len());
            vs.len() > 0
        },
        Value::Func(..) => true,
        _ => false,
    }
}

impl Value {
    /// Follows one pointer: the value that a pointer's binding holds, or
    /// the value itself when it is no pointer.
    pub fn deref<'a>(value: &'a Value, manager: &'a ContextManager) -> (r: Option<&'a Value>)
        ensures
            match value.view() {
                ValueView::Pointer(h, name) => match r {
                    Some(w) => lookup(manager.view(), h as int, name) == Some(w.view()),
                    None => lookup(manager.view(), h as int, name) is None,
                },
                _ => r == Some(value),
            },
    {
        match value {
            Value::Pointer(h, name) => manager.get_named(*h, name),
            _ => Some(value),
        }
    }

    /// The printable form, following at most `fuel` pointers.
    pub fn text_fuel(&self, manager: &ContextManager, fuel: u64) -> (r: String)
        ensures
            r@ == value_text(manager.view(), self.view(), fuel as nat),
        decreases fuel, self,
    {
        match self {
            Value::Int(n) => {
                let mut s = String::new();
                push_int(&mut s, *n as i64);
                assert(s@ =~= int_text(*n as int));
                assert(value_text(manager.view(), self.view(), fuel as nat) == int_text(*n as int));
                s
            },
            Value::Float(d) => d.to_string(),
            Value::Str(s) => s.clone(),
            Value::Boolean(b) => if *b {
                text("true")
            } else {
                text("false")
            },
            Value::Func(name, params, _, _) => {
                let mut s = name.clone();
                push_text(&mut s, "(");
                push_joined_names(&mut s, params);
                push_text(&mut s, ")");
                s
            },
            Value::List(vs) => {
                let s = list_text(vs, manager, fuel);
                assert(self.view() == ValueView::List(values_view(vs@)));
                s
            },
            Value::Pointer(h, name) => {
                if fuel == 0 {
                    text("null")
                } else {
                    match manager.get_named(*h, name) {
                        Some(w) => w.text_fuel(manager, fuel - 1),
                        None => text("null"),
                    }
                }
            },
            Value::Null => text("null"),
        }
    }

    /// The printable form: decimal text for numbers, `true` or `false`,
    /// a string as it is, a function as `name(param, ...)`, a list as
    /// `[item, ...]`, `null`; a pointer prints what it stands for, or
    /// `null` when its binding is gone.
    pub fn to_string(&self, manager: &ContextManager) -> (r: String)
        ensures
            r@ == printable(manager.view(), self.view()),
    {
        self.text_fuel(manager, manager.bindings())
    }

    /// An operator on two values, each pointer followed first.
    pub fn binary(&self, op: BinOp, other: &Value, manager: &ContextManager) -> (r: RuntimeResult)
        ensures
            result_view(r) == binary(manager.view(), op, self.view(), other.view()),
    {
        let x = resolve_fuel(self, manager, manager.bindings());
        let y = resolve_fuel(other, manager, manager.bindings());
        match (x, y) {
            (Some(x), Some(y)) => apply_exec(op, &x, &y, manager),
            _ => Err(message_error("Circular reference")),
        }
    }

    /// `+`: integer sums stay integers, a sum with a decimal is a decimal, strings join, and a string joins with the printable form of any other value.
    pub fn add(&self, other: Value, manager: &ContextManager) -> (r: RuntimeResult)
        ensures
            result_view(r) == binary(manager.view(), BinOp::Add, self.view(), other.view()),
    {
        self.binary(BinOp::Add, &other, manager)
    }

    /// `-` on numbers.
    pub fn subtract(&self, other: Value, manager: &ContextManager) -> (r: RuntimeResult)
        ensures
            result_view(r) == binary(manager.view(), BinOp::Sub, self.view(), other.view()),
    {
        self.binary(BinOp::Sub, &other, manager)
    }

    /// `*` on numbers.
    pub fn multiply(&self, other: Value, manager: &ContextManager) -> (r: RuntimeResult)
        ensures
            result_view(r) == binary(manager.view(), BinOp::Mul, self.view(), other.view()),
    {
        self.binary(BinOp::Mul, &other, manager)
    }

    /// `/` on numbers: two integers give an integer when the division is exact, else a decimal.
    pub fn divide(&self, other: Value, manager: &ContextManager) -> (r: RuntimeResult)
        ensures
            result_view(r) == binary(manager.view(), BinOp::Div, self.view(), other.view()),
    {
        self.binary(BinOp::Div, &other, manager)
    }

    /// `^`: an integer to a non-negative integer power is an integer; otherwise a decimal, and the exponent must be whole.
    pub fn raise(&self, other: Value, manager: &ContextManager) -> (r: RuntimeResult)
        ensures
            result_view(r) == binary(manager.view(), BinOp::Pow, self.view(), other.view()),
    {
        self.binary(BinOp::Pow, &other, manager)
    }

    /// `>` on numbers.
    pub fn is_greater_than(&self, other: Value, manager: &ContextManager) -> (r: RuntimeResult)
        ensures
            result_view(r) == binary(manager.view(), BinOp::Gt, self.view(), other.view()),
    {
        self.binary(BinOp::Gt, &other, manager)
    }

    /// `>=` on numbers.
    pub fn is_greater_than_or_equal_to(&self, other: Value, manager: &ContextManager) -> (r: RuntimeResult)
        ensures
            result_view(r) == binary(manager.view(), BinOp::Gte, self.view(), other.view()),
    {
        self.binary(BinOp::Gte, &other, manager)
    }

    /// `<` on numbers.
    pub fn is_less_than(&self, other: Value, manager: &ContextManager) -> (r: RuntimeResult)
        ensures
            result_view(r) == binary(manager.view(), BinOp::Lt, self.view(), other.view()),
    {
        self.binary(BinOp::Lt, &other, manager)
    }

    /// `<=` on numbers.
    pub fn is_less_than_or_equal_to(&self, other: Value, manager: &ContextManager) -> (r: RuntimeResult)
        ensures
            result_view(r) == binary(manager.view(), BinOp::Lte, self.view(), other.view()),
    {
        self.binary(BinOp::Lte, &other, manager)
    }

    /// `==`: numbers of either kind, booleans, strings, and `null` with `null`; any other pair is an error.
    pub fn equals(&self, other: Value, manager: &ContextManager) -> (r: RuntimeResult)
        ensures
            result_view(r) == binary(manager.view(), BinOp::Eq, self.view(), other.view()),
    {
        self.binary(BinOp::Eq, &other, manager)
    }

    /// `&` on integers.
    pub fn bitwise_and(&self, other: Value, manager: &ContextManager) -> (r: RuntimeResult)
        ensures
            result_view(r) == binary(manager.view(), BinOp::BitAnd, self.view(), other.view()),
    {
        self.binary(BinOp::BitAnd, &other, manager)
    }

    /// `|` on integers.
    pub fn bitwise_or(&self, other: Value, manager: &ContextManager) -> (r: RuntimeResult)
        ensures
            result_view(r) == binary(manager.view(), BinOp::BitOr, self.view(), other.view()),
    {
        self.binary(BinOp::BitOr, &other, manager)
    }

    /// `^^` on integers.
    pub fn bitwise_xor(&self, other: Value, manager: &ContextManager) -> (r: RuntimeResult)
        ensures
            result_view(r) == binary(manager.view(), BinOp::BitXor, self.view(), other.view()),
    {
        self.binary(BinOp::BitXor, &other, manager)
    }

    /// `<<` on integers, by 0 to 31 places.
    pub fn left_shift(&self, other: Value, manager: &ContextManager) -> (r: RuntimeResult)
        ensures
            result_view(r) == binary(manager.view(), BinOp::Shl, self.view(), other.view()),
    {
        self.binary(BinOp::Shl, &other, manager)
    }

    /// `>>` on integers, by 0 to 31 places.
    pub fn right_shift(&self, other: Value, manager: &ContextManager) -> (r: RuntimeResult)
        ensures
            result_view(r) == binary(manager.view(), BinOp::Shr, self.view(), other.view()),
    {
        self.binary(BinOp::Shr, &other, manager)
    }

    /// Truthiness: see `truthy`.
    pub fn is_true(&self, manager: &ContextManager) -> (r: bool)
        ensures
            r == truthy(manager.view(), self.view()),
    {
        match resolve_fuel(self, manager, manager.bindings()) {
            Some(x) => plain_truthy_exec(&x),
            None => false,
        }
    }

    /// `~` on an integer.
    pub fn bitwise_not(&self, manager: &ContextManager) -> (r: RuntimeResult)
        ensures
            result_view(r) == bit_not(manager.view(), self.view()),
    {
        let resolved = resolve_fuel(self, manager, manager.bindings());
        if resolved.is_none() {
            return Err(message_error("Circular reference"));
        }
        let x = resolved.unwrap();
        if let Value::Int(n) = x {
            return Ok(Value::Int(-1 - n));
        }
        let mut s = text("Operator '");
        push_text(&mut s, "~");
        push_text(&mut s, "' cannot be applied to '");
        let a = x.to_string(manager);
        push_text(&mut s, a.as_str());
        push_text(&mut s, "'.");
        Err(RuntimeError::new(s))
    }

    /// `||`: the left value when it is truthy, else the right one.
    pub fn logical_or(&self, other: Value, manager: &ContextManager) -> (r: RuntimeResult)
        ensures
            result_view(r) == Ok::<ValueView, Seq<char>>(
                if truthy(manager.view(), self.view()) { self.view() } else { other.view() },
            ),
    {
        if self.is_true(manager) {
            Ok(self.clone())
        } else {
            Ok(other)
        }
    }

    /// `&&`: the right value when the left one is truthy, else the left one.
    pub fn logical_and(&self, other: Value, manager: &ContextManager) -> (r: RuntimeResult)
        ensures
            result_view(r) == Ok::<ValueView, Seq<char>>(
                if truthy(manager.view(), self.view()) { other.view() } else { self.view() },
            ),
    {
        if self.is_true(manager) {
            Ok(other)
        } else {
            Ok(self.clone())
        }
    }

    /// `!`: the negated truthiness, as a boolean.
    pub fn logical_not(&self, manager: &ContextManager) -> (r: RuntimeResult)
        ensures
            result_view(r) == Ok::<ValueView, Seq<char>>(ValueView::Boolean(!truthy(manager.view(), self.view()))),
    {
        Ok(Value::Boolean(!self.is_true(manager)))
    }
}

} // verus!
