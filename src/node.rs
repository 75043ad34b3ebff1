//! The syntax tree that the parser builds and the interpreter walks.
use vstd::prelude::*;
use crate::number::Decimal;
use crate::token::{TokenType, TokenView};

verus! {

/// A node of the syntax tree. Each node owns its children.
#[derive(Debug)]
pub enum Node {
    Int(i32),
    Float(Decimal),
    Str(String),
    BinaryOp(Box<Node>, TokenType, Box<Node>),
    UnaryOp(Box<Node>, TokenType),
    VarDef(String, Box<Node>),
    VarAcc(String),
    ListDef(Vec<Box<Node>>),
    FuncDef(String, Vec<String>, Box<Node>),
    FuncCall(Box<Node>, Vec<Box<Node>>),
    /// The statements of a block, and whether the block yields the value
    /// of the last one.
    Statements(Vec<Box<Node>>, bool),
    If(Box<Node>, Box<Node>, Option<Box<Node>>),
    WhileLoop(Box<Node>, Box<Node>),
    Empty,
    EOF,
}

/// A node as the contracts see it.
pub enum NodeView {
    Int(i32),
    Float(Decimal),
    Str(Seq<char>),
    BinaryOp(Box<NodeView>, TokenView, Box<NodeView>),
    UnaryOp(Box<NodeView>, TokenView),
    VarDef(Seq<char>, Box<NodeView>),
    VarAcc(Seq<char>),
    ListDef(Seq<NodeView>),
    FuncDef(Seq<char>, Seq<Seq<char>>, Box<NodeView>),
    FuncCall(Box<NodeView>, Seq<NodeView>),
    Statements(Seq<NodeView>, bool),
    If(Box<NodeView>, Box<NodeView>, Option<Box<NodeView>>),
    WhileLoop(Box<NodeView>, Box<NodeView>),
    Empty,
    EOF,
}

pub open spec fn names_view(v: Seq<String>) -> Seq<Seq<char>> {
    v.map_values(|s: String| s@)
}

impl Node {
    pub open spec fn view(&self) -> NodeView
        decreases self,
    {
        match self {
            Node::Int(n) => NodeView::Int(*n),
            Node::Float(d) => NodeView::Float(*d),
            Node::Str(s) => NodeView::Str(s@),
            Node::BinaryOp(l, op, r) => NodeView::BinaryOp(Box::new(l.view()), op@, Box::new(r.view())),
            Node::UnaryOp(n, op) => NodeView::UnaryOp(Box::new(n.view()), op@),
            Node::VarDef(name, n) => NodeView::VarDef(name@, Box::new(n.view())),
            Node::VarAcc(name) => NodeView::VarAcc(name@),
            Node::ListDef(ns) => NodeView::ListDef(nodes_view(ns@)),
            Node::FuncDef(name, params, body) => NodeView::FuncDef(name@, names_view(params@), Box::new(body.view())),
            Node::FuncCall(f, args) => NodeView::FuncCall(Box::new(f.view()), nodes_view(args@)),
            Node::Statements(ns, last) => NodeView::Statements(nodes_view(ns@), *last),
            Node::If(c, t, e) => NodeView::If(Box::new(c.view()), Box::new(t.view()), match e {
                Some(e) => Some(Box::new(e.view())),
                None => None,
            }),
            Node::WhileLoop(c, b) => NodeView::WhileLoop(Box::new(c.view()), Box::new(b.view())),
            Node::Empty => NodeView::Empty,
            Node::EOF => NodeView::EOF,
        }
    }
}

pub open spec fn nodes_view(v: Seq<Box<Node>>) -> Seq<NodeView>
    decreases v,
{
    Seq::new(v.len(), |i: int| if 0 <= i < v.len() { v[i].view() } else { NodeView::Empty })
}

/// Copies a list of names.
pub fn clone_names(v: &Vec<String>) -> (r: Vec<String>)
    ensures
        names_view(r@) == names_view(v@),
{
    let mut r: Vec<String> = Vec::new();
    let mut i: usize = 0;
    while i < v.len()
        invariant
            i <= v@.len(),
            r@.len() == i,
            forall|j: int| 0 <= j < i ==> (#[trigger] r@[j])@ == v@[j]@,
        decreases v@.len() - i,
    {
        r.push(v[i].clone());
        i = i + 1;
    }
    assert(names_view(r@) =~= names_view(v@));
    r
}

/// Copies a list of nodes.
pub fn clone_nodes(v: &Vec<Box<Node>>) -> (r: Vec<Box<Node>>)
    ensures
        nodes_view(r@) == nodes_view(v@),
    decreases v,
{
    let mut r: Vec<Box<Node>> = Vec::new();
    let mut i: usize = 0;
    while i < v.len()
        invariant
            i <= v@.len(),
            r@.len() == i,
            forall|j: int| 0 <= j < i ==> (#[trigger] r@[j]).view() == v@[j].view(),
        decreases v@.len() - i,
    {
        let c = (*v[i]).clone();
        r.push(Box::new(c));
        i = i + 1;
    }
    assert(nodes_view(r@) =~= nodes_view(v@));
    r
}

impl Clone for Node {
    fn clone(&self) -> (r: Self)
        ensures
            r.view() == self.view(),
        decreases self,
    {
        let r = match self {
            Node::Int(n) => Node::Int(*n),
            Node::Float(d) => Node::Float(*d),
            Node::Str(s) => Node::Str(s.clone()),
            Node::BinaryOp(l, op, r) => Node::BinaryOp(
                Box::new((**l).clone()),
                op.clone(),
                Box::new((**r).clone()),
            ),
            Node::UnaryOp(n, op) => Node::UnaryOp(Box::new((**n).clone()), op.clone()),
            Node::VarDef(name, n) => Node::VarDef(name.clone(), Box::new((**n).clone())),
            Node::VarAcc(name) => Node::VarAcc(name.clone()),
            Node::ListDef(ns) => Node::ListDef(clone_nodes(ns)),
            Node::FuncDef(name, params, body) => Node::FuncDef(
                name.clone(),
                clone_names(params),
                Box::new((**body).clone()),
            ),
            Node::FuncCall(f, args) => Node::FuncCall(Box::new((**f).clone()), clone_nodes(args)),
            Node::Statements(ns, last) => Node::Statements(clone_nodes(ns), *last),
            Node::If(c, t, e) => Node::If(
                Box::new((**c).clone()),
                Box::new((**t).clone()),
                match e {
                    Some(e) => Some(Box::new((**e).clone())),
                    None => None,
                },
            ),
            Node::WhileLoop(c, b) => Node::WhileLoop(Box::new((**c).clone()), Box::new((**b).clone())),
            Node::Empty => Node::Empty,
            Node::EOF => Node::EOF,
        };
        r
    }
}

} // verus!
