//! The parser: recursive descent with a ladder of precedence levels, from
//! tokens to one syntax tree.
use vstd::prelude::*;
use crate::error::ParseError;
use crate::lexer::views;
use crate::node::{names_view, nodes_view, Node, NodeView};
use crate::text::push_text;
use crate::token::{text, token_text, Token, TokenType, TokenView};

verus! {

pub type ParseResult = Result<Node, ParseError>;

/// A parse from some position: the tree and the position after it, or the
/// message of the error.
pub type Parsed = Result<(NodeView, int), Seq<char>>;

/// The token at `i`; `EOF` out of range.
pub open spec fn tok(ts: Seq<TokenView>, i: int) -> TokenView {
    if 0 <= i < ts.len() {
        ts[i]
    } else {
        Token::EOF
    }
}

/// The position after `i`; the last position stays where it is.
pub open spec fn adv(ts: Seq<TokenView>, i: int) -> int {
    if i + 1 < ts.len() {
        i + 1
    } else {
        i
    }
}

/// What a parse that would not move forward gives. It cannot happen on a
/// token sequence that ends with `EOF`.
pub open spec fn stalled() -> Seq<char> {
    "Parser made no progress"@
}

pub open spec fn unexpected_token(t: TokenView) -> Seq<char> {
    "Unexpected token '"@ + token_text(t) + "'"@
}

/// The operators of each binary level, from the loosest: logical and
/// bitwise combination, comparison, shifts, sums, products, powers.
pub open spec fn level_op(level: nat, t: TokenView) -> bool {
    if level == 0 {
        t is BitwiseAnd || t is BitwiseOr || t is BitwiseXOr || t is And || t is Or
    } else if level == 1 {
        t is EE || t is NE || t is GT || t is GTE || t is LT || t is LTE
    } else if level == 2 {
        t is BitwiseRightShift || t is BitwiseLeftShift
    } else if level == 3 {
        t is Plus || t is Minus
    } else if level == 4 {
        t is Mul || t is Div
    } else {
        t is Pow
    }
}

/// The first position at or after `i` that holds no semicolon.
pub open spec fn skip_semis(ts: Seq<TokenView>, i: int) -> int
    decreases ts.len() - i,
{
    if 0 <= i && i + 1 < ts.len() && tok(ts, i) is Semicolon {
        skip_semis(ts, i + 1)
    } else {
        i
    }
}

/// A sequence of statements separated by semicolons; `contained` says that
/// a closing brace ends it.
pub open spec fn p_statements(ts: Seq<TokenView>, i: int, contained: bool) -> Parsed
    decreases ts.len() - i, 76nat,
{
    p_stmts_loop(ts, i, contained, Seq::empty())
}

/// The rest of a statement sequence, after the statements `nodes`.
/// Statements are separated by semicolons; a statement that ends with a
/// brace block (a function definition, a conditional or a loop) may be
/// followed by the next one directly. A block whose last statement is
/// followed by a semicolon yields `Null`: its `Statements` node says not to
/// yield the last value.
pub open spec fn p_stmts_loop(ts: Seq<TokenView>, i: int, contained: bool, nodes: Seq<NodeView>) -> Parsed
    decreases ts.len() - i, 75nat,
{
    if i < 0 || i >= ts.len() {
        Err(stalled())
    } else if contained && tok(ts, i) is RightBracket {
        Ok((if nodes.len() == 0 { NodeView::Empty } else { NodeView::Statements(nodes, false) }, i))
    } else {
        match p_expression(ts, i) {
            Err(e) => Err(e),
            Ok(p) => {
                let j = p.1;
                if j < i || j >= ts.len() {
                    Err(stalled())
                } else {
                    let nodes2 = nodes.push(p.0);
                    if tok(ts, j) is Semicolon {
                        let k = skip_semis(ts, j);
                        if tok(ts, k) is EOF {
                            Ok((NodeView::Statements(nodes2, false), k))
                        } else if k <= i || k >= ts.len() {
                            Err(stalled())
                        } else {
                            p_stmts_loop(ts, k, contained, nodes2)
                        }
                    } else if tok(ts, j - 1) is RightBracket && !(tok(ts, j) is EOF) && !(tok(ts, j) is RightBracket) {
                        if j <= i {
                            Err(stalled())
                        } else {
                            p_stmts_loop(ts, j, contained, nodes2)
                        }
                    } else {
                        Ok((NodeView::Statements(nodes2, true), j))
                    }
                }
            },
        }
    }
}

/// An expression: a definition, a conditional or a loop when a keyword
/// starts it, else an operator expression.
pub open spec fn p_expression(ts: Seq<TokenView>, i: int) -> Parsed
    decreases ts.len() - i, 70nat,
{
    match tok(ts, i) {
        Token::Keyword(s) => if s == "let"@ {
            p_var_def(ts, i)
        } else if s == "function"@ {
            p_function_def(ts, i)
        } else if s == "if"@ {
            p_if(ts, i)
        } else if s == "while"@ {
            p_while(ts, i)
        } else {
            p_binop(ts, i, 0)
        },
        _ => p_binop(ts, i, 0),
    }
}

/// `let <identifier> = <expression>`.
pub open spec fn p_var_def(ts: Seq<TokenView>, i: int) -> Parsed
    decreases ts.len() - i, 69nat,
{
    let i1 = adv(ts, i);
    match tok(ts, i1) {
        Token::Identifier(name) => {
            let i2 = adv(ts, i1);
            if !(tok(ts, i2) is Eq) {
                Err("Expected '='"@)
            } else {
                let i3 = adv(ts, i2);
                if i3 <= i {
                    Err(stalled())
                } else {
                    match p_expression(ts, i3) {
                        Ok(p) => Ok((NodeView::VarDef(name, Box::new(p.0)), p.1)),
                        Err(e) => Err(e),
                    }
                }
            }
        },
        _ => Err("Expected identifier"@),
    }
}

/// The parameter names from `i` on, after `acc`, up to the closing
/// parenthesis (which is not consumed). A comma must be followed by a
/// name.
pub open spec fn p_params(ts: Seq<TokenView>, i: int, acc: Seq<Seq<char>>) -> Result<(Seq<Seq<char>>, int), Seq<char>>
    decreases ts.len() - i, 9nat,
{
    if i < 0 || i >= ts.len() {
        Err(stalled())
    } else if acc.len() == 0 && tok(ts, i) is RightParen {
        Ok((acc, i))
    } else {
        match tok(ts, i) {
            Token::Identifier(a) => {
                let i1 = adv(ts, i);
                if !(tok(ts, i1) is Comma || tok(ts, i1) is RightParen) {
                    Err("Expected ',' or ')'"@)
                } else if tok(ts, i1) is RightParen {
                    Ok((acc.push(a), i1))
                } else {
                    let i2 = adv(ts, i1);
                    if i2 <= i {
                        Err(stalled())
                    } else {
                        p_params(ts, i2, acc.push(a))
                    }
                }
            },
            _ => Err("Identifier expected"@),
        }
    }
}

/// `function <identifier> ( <identifiers> ) { <statements> }`.
pub open spec fn p_function_def(ts: Seq<TokenView>, i: int) -> Parsed
    decreases ts.len() - i, 69nat,
{
    let i1 = adv(ts, i);
    match tok(ts, i1) {
        Token::Identifier(name) => {
            let i2 = adv(ts, i1);
            if !(tok(ts, i2) is LeftParen) {
                Err("Expected '('"@)
            } else {
                let i3 = adv(ts, i2);
                if i3 <= i {
                    Err(stalled())
                } else {
                    match p_params(ts, i3, Seq::empty()) {
                        Err(e) => Err(e),
                        Ok(p) => {
                            let k = adv(ts, p.1);
                            if k <= i || k > ts.len() {
                                Err(stalled())
                            } else {
                                match p_block(ts, k) {
                                    Err(e) => Err(e),
                                    Ok(b) => Ok((NodeView::FuncDef(name, p.0, Box::new(b.0)), b.1)),
                                }
                            }
                        },
                    }
                }
            }
        },
        _ => Err("Expected identifier"@),
    }
}

/// `{ <statements> }`.
pub open spec fn p_block(ts: Seq<TokenView>, i: int) -> Parsed
    decreases ts.len() - i, 10nat,
{
    if !(tok(ts, i) is LeftBracket) {
        Err("Expected '{'"@)
    } else {
        let i1 = adv(ts, i);
        if i1 <= i {
            Err(stalled())
        } else {
            match p_statements(ts, i1, true) {
                Err(e) => Err(e),
                Ok(p) => if !(tok(ts, p.1) is RightBracket) {
                    Err("Expected '}'"@)
                } else {
                    Ok((p.0, adv(ts, p.1)))
                },
            }
        }
    }
}

/// The body of a conditional or a loop: a block, or one expression that
/// may not be the end of input.
pub open spec fn p_body(ts: Seq<TokenView>, i: int) -> Parsed
    decreases ts.len() - i, 71nat,
{
    if tok(ts, i) is LeftBracket {
        p_block(ts, i)
    } else {
        match p_expression(ts, i) {
            Err(e) => Err(e),
            Ok(p) => if p.0 is EOF {
                Err("Unexpected end of file"@)
            } else {
                Ok(p)
            },
        }
    }
}

/// `if ( <expression> ) <body> [else <body>]`.
pub open spec fn p_if(ts: Seq<TokenView>, i: int) -> Parsed
    decreases ts.len() - i, 69nat,
{
    let i1 = adv(ts, i);
    if !(tok(ts, i1) is LeftParen) {
        Err("Expected '('"@)
    } else if i1 <= i {
        Err(stalled())
    } else {
        match p_grouping(ts, i1) {
            Err(e) => Err(e),
            Ok(c) => if c.1 <= i || c.1 > ts.len() {
                Err(stalled())
            } else {
                match p_body(ts, c.1) {
                    Err(e) => Err(e),
                    Ok(b) => {
                        let k = b.1;
                        if tok(ts, k) is Keyword && tok(ts, k)->Keyword_0 == "else"@ {
                            let k1 = adv(ts, k);
                            if k1 <= i {
                                Err(stalled())
                            } else {
                                match p_body(ts, k1) {
                                    Err(e) => Err(e),
                                    Ok(e) => Ok(
                                        (NodeView::If(Box::new(c.0), Box::new(b.0), Some(Box::new(e.0))), e.1),
                                    ),
                                }
                            }
                        } else {
                            Ok((NodeView::If(Box::new(c.0), Box::new(b.0), None), k))
                        }
                    },
                }
            },
        }
    }
}

/// `while ( <expression> ) <body>`.
pub open spec fn p_while(ts: Seq<TokenView>, i: int) -> Parsed
    decreases ts.len() - i, 69nat,
{
    let i1 = adv(ts, i);
    if !(tok(ts, i1) is LeftParen) {
        Err("Expected '('"@)
    } else if i1 <= i {
        Err(stalled())
    } else {
        match p_grouping(ts, i1) {
            Err(e) => Err(e),
            Ok(c) => if c.1 <= i || c.1 > ts.len() {
                Err(stalled())
            } else {
                match p_body(ts, c.1) {
                    Err(e) => Err(e),
                    Ok(b) => Ok((NodeView::WhileLoop(Box::new(c.0), Box::new(b.0)), b.1)),
                }
            },
        }
    }
}

pub open spec fn binop_rank(level: nat) -> nat {
    if level <= 5 { (66 - 4 * level) as nat } else { 0 }
}

/// One binary level: operands of the next level joined by this level's
/// operators, from the left; powers join from the right.
pub open spec fn p_binop(ts: Seq<TokenView>, i: int, level: nat) -> Parsed
    decreases ts.len() - i, binop_rank(level),
{
    if level > 5 {
        Err(stalled())
    } else {
        match p_operand(ts, i, level) {
            Err(e) => Err(e),
            Ok(p) => if p.1 < i || p.1 >= ts.len() {
                Err(stalled())
            } else {
                p_binop_rest(ts, p.1, level, p.0)
            },
        }
    }
}

/// The rest of a binary level after the operand `left`.
pub open spec fn p_binop_rest(ts: Seq<TokenView>, j: int, level: nat, left: NodeView) -> Parsed
    decreases ts.len() - j, (binop_rank(level) - 1) as nat,
{
    if level > 5 || j < 0 || j >= ts.len() {
        Err(stalled())
    } else if level_op(level, tok(ts, j)) {
        let j1 = adv(ts, j);
        if j1 <= j {
            Err(stalled())
        } else {
            let right = if level == 5 { p_binop(ts, j1, level) } else { p_operand(ts, j1, level) };
            match right {
                Err(e) => Err(e),
                Ok(r) => if r.1 < j1 || r.1 >= ts.len() {
                    Err(stalled())
                } else {
                    p_binop_rest(ts, r.1, level, NodeView::BinaryOp(Box::new(left), tok(ts, j), Box::new(r.0)))
                },
            }
        }
    } else {
        Ok((left, j))
    }
}

/// An operand of a binary level: the next level, or the prefix `!` and `~`
/// between shifts and sums, or a signed operand under powers.
pub open spec fn p_operand(ts: Seq<TokenView>, i: int, level: nat) -> Parsed
    decreases ts.len() - i, (binop_rank(level) - 2) as nat,
{
    if level > 5 {
        Err(stalled())
    } else if level == 2 {
        p_not(ts, i)
    } else if level == 5 {
        p_unary(ts, i)
    } else {
        p_binop(ts, i, level + 1)
    }
}

/// Prefix `!` and `~`, right-recursive.
pub open spec fn p_not(ts: Seq<TokenView>, i: int) -> Parsed
    decreases ts.len() - i, 55nat,
{
    let t = tok(ts, i);
    if t is Not || t is BitwiseNot {
        let i1 = adv(ts, i);
        if i1 <= i {
            Err(stalled())
        } else {
            match p_not(ts, i1) {
                Err(e) => Err(e),
                Ok(p) => if p.0 is Empty {
                    Err("Unexpected end of file."@)
                } else {
                    Ok((NodeView::UnaryOp(Box::new(p.0), t), p.1))
                },
            }
        }
    } else {
        p_binop(ts, i, 3)
    }
}

/// A prefix sign `+` or `-` before a call or a primary.
pub open spec fn p_unary(ts: Seq<TokenView>, i: int) -> Parsed
    decreases ts.len() - i, 43nat,
{
    let t = tok(ts, i);
    if t is Plus || t is Minus {
        let i1 = adv(ts, i);
        if i1 <= i {
            Err(stalled())
        } else {
            match p_call(ts, i1) {
                Err(e) => Err(e),
                Ok(p) => if p.0 is Empty {
                    Err("Unexpected end of file."@)
                } else {
                    Ok((NodeView::UnaryOp(Box::new(p.0), t), p.1))
                },
            }
        }
    } else {
        p_call(ts, i)
    }
}

/// A primary, then at most one parenthesised argument list.
pub open spec fn p_call(ts: Seq<TokenView>, i: int) -> Parsed
    decreases ts.len() - i, 42nat,
{
    match p_listing(ts, i) {
        Err(e) => Err(e),
        Ok(p) => if tok(ts, p.1) is LeftParen {
            let j1 = adv(ts, p.1);
            if j1 <= i {
                Err(stalled())
            } else {
                match p_items(ts, j1, Seq::empty(), false) {
                    Err(e) => Err(e),
                    Ok(a) => Ok((NodeView::FuncCall(Box::new(p.0), a.0), adv(ts, a.1))),
                }
            }
        } else {
            Ok(p)
        },
    }
}

/// Comma-separated expressions from `k` on, after `acc`, up to the closing
/// `)` of an argument list or `]` of a list (which is not consumed). A
/// comma must be followed by an expression.
pub open spec fn p_items(ts: Seq<TokenView>, k: int, acc: Seq<NodeView>, square: bool) -> Result<
    (Seq<NodeView>, int),
    Seq<char>,
>
    decreases ts.len() - k, 75nat,
{
    let closes = |t: TokenView| if square { t is RightSquare } else { t is RightParen };
    if k < 0 || k >= ts.len() {
        Err(stalled())
    } else if acc.len() == 0 && closes(tok(ts, k)) {
        Ok((acc, k))
    } else {
        match p_expression(ts, k) {
            Err(e) => Err(e),
            Ok(p) => {
                let m = p.1;
                if !(tok(ts, m) is Comma || closes(tok(ts, m))) {
                    Err(if square { "Expected ',' or ']'"@ } else { "Expected ',' or ')'"@ })
                } else if closes(tok(ts, m)) {
                    Ok((acc.push(p.0), m))
                } else {
                    let m1 = adv(ts, m);
                    if m1 <= k {
                        Err(stalled())
                    } else {
                        p_items(ts, m1, acc.push(p.0), square)
                    }
                }
            },
        }
    }
}

/// `[ <expressions> ]`, or else a grouping.
pub open spec fn p_listing(ts: Seq<TokenView>, i: int) -> Parsed
    decreases ts.len() - i, 41nat,
{
    if tok(ts, i) is LeftSquare {
        let i1 = adv(ts, i);
        if i1 <= i {
            Err(stalled())
        } else {
            match p_items(ts, i1, Seq::empty(), true) {
                Err(e) => Err(e),
                Ok(a) => Ok((NodeView::ListDef(a.0), adv(ts, a.1))),
            }
        }
    } else {
        p_grouping(ts, i)
    }
}

/// `( <expression> )`, or else an atom.
pub open spec fn p_grouping(ts: Seq<TokenView>, i: int) -> Parsed
    decreases ts.len() - i, 40nat,
{
    if tok(ts, i) is LeftParen {
        let i1 = adv(ts, i);
        if i1 <= i {
            Err(stalled())
        } else {
            match p_expression(ts, i1) {
                Err(e) => Err(e),
                Ok(p) => if !(tok(ts, p.1) is RightParen) {
                    Err("Expected ')'"@)
                } else {
                    Ok((p.0, adv(ts, p.1)))
                },
            }
        }
    } else {
        p_atom(ts, i)
    }
}

/// A literal, an identifier, or the end of input as a placeholder.
pub open spec fn p_atom(ts: Seq<TokenView>, i: int) -> Parsed
    decreases ts.len() - i, 39nat,
{
    match tok(ts, i) {
        Token::Int(n) => Ok((NodeView::Int(n), adv(ts, i))),
        Token::Float(d) => Ok((NodeView::Float(d), adv(ts, i))),
        Token::Str(s) => Ok((NodeView::Str(s), adv(ts, i))),
        Token::Identifier(s) => Ok((NodeView::VarAcc(s), adv(ts, i))),
        Token::EOF => Ok((NodeView::EOF, adv(ts, i))),
        t => Err(unexpected_token(t)),
    }
}

/// A whole program from position `i`: statements that use up every token
/// before `EOF`.
pub open spec fn p_program(ts: Seq<TokenView>, i: int) -> Result<NodeView, Seq<char>> {
    match p_statements(ts, i, false) {
        Err(e) => Err(e),
        Ok(p) => if !(tok(ts, p.1) is EOF) {
            Err(unexpected_token(tok(ts, p.1)))
        } else {
            Ok(p.0)
        },
    }
}

/// The outcome of a parse, as a `ParseResult` and the position after it
/// say it against the contract's terms.
pub open spec fn parsed(r: ParseResult, p: Parsed, idx: usize) -> bool {
    match r {
        Ok(n) => p == Ok::<(NodeView, int), Seq<char>>((n.view(), idx as int)),
        Err(e) => p == Err::<(NodeView, int), Seq<char>>(e.msg@),
    }
}

fn parse_error(msg: &str) -> (e: ParseError)
    ensures
        e.msg@ == msg@,
{
    ParseError::new(text(msg))
}

/// Which keyword a word is: 1 `let`, 2 `function`, 3 `if`, 4 `while`, else 0.
fn keyword_kind(s: &String) -> (r: u8)
    ensures
        r == (if s@ == "let"@ {
            1u8
        } else if s@ == "function"@ {
            2u8
        } else if s@ == "if"@ {
            3u8
        } else if s@ == "while"@ {
            4u8
        } else {
            0u8
        }),
{
    if *s == text("let") {
        1
    } else if *s == text("function") {
        2
    } else if *s == text("if") {
        3
    } else if *s == text("while") {
        4
    } else {
        0
    }
}

/// Reads tokens left to right and builds the syntax tree.
pub struct Parser {
    pub tokens: Vec<TokenType>,
    pub token_index: usize,
}

impl Parser {
    /// The tokens are not empty, end with `EOF`, and the position is on one.
    pub open spec fn wf(&self) -> bool {
        &&& self.tokens@.len() > 0
        &&& self.tokens@.last() is EOF
        &&& self.token_index < self.tokens@.len()
    }

    pub open spec fn ts(&self) -> Seq<TokenView> {
        views(self.tokens@)
    }

    pub fn new(tokens: Vec<TokenType>) -> (r: Parser)
        requires
            tokens@.len() > 0,
            tokens@.last() is EOF,
        ensures
            r.wf(),
            r.tokens == tokens,
            r.token_index == 0,
    {
        Parser { tokens, token_index: 0 }
    }

    /// The current token.
    pub fn current_token(&self) -> (r: TokenType)
        requires
            self.wf(),
        ensures
            r == self.tokens@[self.token_index as int],
    {
        self.tokens[self.token_index].clone()
    }

    fn cur(&self) -> (r: &TokenType)
        requires
            self.wf(),
        ensures
            *r == self.tokens@[self.token_index as int],
            r@ == tok(self.ts(), self.token_index as int),
    {
        &self.tokens[self.token_index]
    }

    /// Moves to the next token; stays on the last one.
    fn next(&mut self)
        requires
            old(self).wf(),
        ensures
            final(self).wf(),
            final(self).tokens == old(self).tokens,
            final(self).token_index as int == adv(old(self).ts(), old(self).token_index as int),
            !(old(self).tokens@[old(self).token_index as int] is EOF) ==> final(self).token_index
                == old(self).token_index + 1,
    {
        if self.token_index < self.tokens.len() - 1 {
            self.token_index = self.token_index + 1;
        }
    }

    fn at_left_paren(&self) -> (r: bool)
        requires
            self.wf(),
        ensures
            r == (tok(self.ts(), self.token_index as int) is LeftParen),
            r == (self.tokens@[self.token_index as int] is LeftParen),
    {
        match self.cur() {
            Token::LeftParen => true,
            _ => false,
        }
    }

    fn at_right_paren(&self) -> (r: bool)
        requires
            self.wf(),
        ensures
            r == (tok(self.ts(), self.token_index as int) is RightParen),
            r == (self.tokens@[self.token_index as int] is RightParen),
    {
        match self.cur() {
            Token::RightParen => true,
            _ => false,
        }
    }

    fn at_left_square(&self) -> (r: bool)
        requires
            self.wf(),
        ensures
            r == (tok(self.ts(), self.token_index as int) is LeftSquare),
            r == (self.tokens@[self.token_index as int] is LeftSquare),
    {
        match self.cur() {
            Token::LeftSquare => true,
            _ => false,
        }
    }

    fn at_left_bracket(&self) -> (r: bool)
        requires
            self.wf(),
        ensures
            r == (tok(self.ts(), self.token_index as int) is LeftBracket),
            r == (self.tokens@[self.token_index as int] is LeftBracket),
    {
        match self.cur() {
            Token::LeftBracket => true,
            _ => false,
        }
    }

    fn at_right_bracket(&self) -> (r: bool)
        requires
            self.wf(),
        ensures
            r == (tok(self.ts(), self.token_index as int) is RightBracket),
            r == (self.tokens@[self.token_index as int] is RightBracket),
    {
        match self.cur() {
            Token::RightBracket => true,
            _ => false,
        }
    }

    fn at_semicolon(&self) -> (r: bool)
        requires
            self.wf(),
        ensures
            r == (tok(self.ts(), self.token_index as int) is Semicolon),
            r == (self.tokens@[self.token_index as int] is Semicolon),
    {
        match self.cur() {
            Token::Semicolon => true,
            _ => false,
        }
    }

    fn at_comma(&self) -> (r: bool)
        requires
            self.wf(),
        ensures
            r == (tok(self.ts(), self.token_index as int) is Comma),
            r == (self.tokens@[self.token_index as int] is Comma),
    {
        match self.cur() {
            Token::Comma => true,
            _ => false,
        }
    }

    fn at_eq(&self) -> (r: bool)
        requires
            self.wf(),
        ensures
            r == (tok(self.ts(), self.token_index as int) is Eq),
            r == (self.tokens@[self.token_index as int] is Eq),
    {
        match self.cur() {
            Token::Eq => true,
            _ => false,
        }
    }

    fn at_eof(&self) -> (r: bool)
        requires
            self.wf(),
        ensures
            r == (tok(self.ts(), self.token_index as int) is EOF),
            r == (self.tokens@[self.token_index as int] is EOF),
    {
        match self.cur() {
            Token::EOF => true,
            _ => false,
        }
    }

    /// Whether the token before the current one closes a brace block.
    fn after_right_bracket(&self) -> (r: bool)
        requires
            self.wf(),
        ensures
            r == (tok(self.ts(), self.token_index - 1) is RightBracket),
    {
        if self.token_index == 0 {
            false
        } else {
            match &self.tokens[self.token_index - 1] {
                Token::RightBracket => true,
                _ => false,
            }
        }
    }

    fn at_closing(&self, square: bool) -> (r: bool)
        requires
            self.wf(),
        ensures
            r == (if square {
                tok(self.ts(), self.token_index as int) is RightSquare
            } else {
                tok(self.ts(), self.token_index as int) is RightParen
            }),
    {
        if square {
            self.at_right_square()
        } else {
            self.at_right_paren()
        }
    }

    fn at_right_square(&self) -> (r: bool)
        requires
            self.wf(),
        ensures
            r == (tok(self.ts(), self.token_index as int) is RightSquare),
    {
        match self.cur() {
            Token::RightSquare => true,
            _ => false,
        }
    }

    fn at_level_op(&self, level: u8) -> (r: bool)
        requires
            self.wf(),
        ensures
            r == level_op(level as nat, tok(self.ts(), self.token_index as int)),
    {
        match self.cur() {
            Token::BitwiseAnd | Token::BitwiseOr | Token::BitwiseXOr | Token::And | Token::Or => level == 0,
            Token::EE | Token::NE | Token::GT | Token::GTE | Token::LT | Token::LTE => level == 1,
            Token::BitwiseRightShift | Token::BitwiseLeftShift => level == 2,
            Token::Plus | Token::Minus => level == 3,
            Token::Mul | Token::Div => level == 4,
            Token::Pow => level >= 5,
            _ => false,
        }
    }

    /// A literal, an identifier, or the end of input as a placeholder.
    fn atom(&mut self) -> (r: ParseResult)
        requires
            old(self).wf(),
        ensures
            final(self).wf(),
            final(self).tokens == old(self).tokens,
            parsed(r, p_atom(old(self).ts(), old(self).token_index as int), final(self).token_index),
            r is Ok ==> old(self).token_index <= final(self).token_index,
        decreases self.tokens@.len() - self.token_index, 39nat,
    {
        let r = match self.cur() {
            Token::Int(n) => Ok(Node::Int(*n)),
            Token::Float(d) => Ok(Node::Float(*d)),
            Token::Str(s) => Ok(Node::Str(s.clone())),
            Token::Identifier(s) => Ok(Node::VarAcc(s.clone())),
            Token::EOF => Ok(Node::EOF),
            t => {
                let mut msg = text("Unexpected token '");
                let shown = t.to_string();
                push_text(&mut msg, shown.as_str());
                push_text(&mut msg, "'");
                Err(ParseError::new(msg))
            },
        };
        self.next();
        r
    }

    /// `( <expression> )`, or else an atom.
    fn grouping(&mut self) -> (r: ParseResult)
        requires
            old(self).wf(),
        ensures
            final(self).wf(),
            final(self).tokens == old(self).tokens,
            parsed(r, p_grouping(old(self).ts(), old(self).token_index as int), final(self).token_index),
            r is Ok ==> old(self).token_index <= final(self).token_index,
        decreases self.tokens@.len() - self.token_index, 40nat,
    {
        if self.at_left_paren() {
            self.next();
            let expression = match self.expression() {
                Ok(e) => e,
                Err(e) => {
                    return Err(e);
                },
            };
            if !self.at_right_paren() {
                return Err(parse_error("Expected ')'"));
            }
            self.next();
            Ok(expression)
        } else {
            self.atom()
        }
    }

    /// `[ <expressions> ]`, or else a grouping.
    fn listing(&mut self) -> (r: ParseResult)
        requires
            old(self).wf(),
        ensures
            final(self).wf(),
            final(self).tokens == old(self).tokens,
            parsed(r, p_listing(old(self).ts(), old(self).token_index as int), final(self).token_index),
            r is Ok ==> old(self).token_index <= final(self).token_index,
        decreases self.tokens@.len() - self.token_index, 41nat,
    {
        if self.at_left_square() {
            self.next();
            let items = match self.items(true) {
                Ok(v) => v,
                Err(e) => {
                    return Err(e);
                },
            };
            self.next();
            Ok(Node::ListDef(items))
        } else {
            self.grouping()
        }
    }

    /// A primary, then at most one parenthesised argument list.
    fn call(&mut self) -> (r: ParseResult)
        requires
            old(self).wf(),
        ensures
            final(self).wf(),
            final(self).tokens == old(self).tokens,
            parsed(r, p_call(old(self).ts(), old(self).token_index as int), final(self).token_index),
            r is Ok ==> old(self).token_index <= final(self).token_index,
        decreases self.tokens@.len() - self.token_index, 42nat,
    {
        let node = match self.listing() {
            Ok(n) => n,
            Err(e) => {
                return Err(e);
            },
        };
        if self.at_left_paren() {
            self.next();
            let args = match self.items(false) {
                Ok(v) => v,
                Err(e) => {
                    return Err(e);
                },
            };
            self.next();
            Ok(Node::FuncCall(Box::new(node), args))
        } else {
            Ok(node)
        }
    }

    /// A prefix sign before a call or a primary.
    fn unary(&mut self) -> (r: ParseResult)
        requires
            old(self).wf(),
        ensures
            final(self).wf(),
            final(self).tokens == old(self).tokens,
            parsed(r, p_unary(old(self).ts(), old(self).token_index as int), final(self).token_index),
            r is Ok ==> old(self).token_index <= final(self).token_index,
        decreases self.tokens@.len() - self.token_index, 43nat,
    {
        let sign = match self.cur() {
            Token::Plus => true,
            Token::Minus => true,
            _ => false,
        };
        if sign {
            let op = self.cur().clone();
            self.next();
            let node = match self.call() {
                Ok(n) => n,
                Err(e) => {
                    return Err(e);
                },
            };
            if let Node::Empty = node {
                return Err(parse_error("Unexpected end of file."));
            }
            Ok(Node::UnaryOp(Box::new(node), op))
        } else {
            self.call()
        }
    }

    /// Prefix `!` and `~`, right-recursive.
    fn not(&mut self) -> (r: ParseResult)
        requires
            old(self).wf(),
        ensures
            final(self).wf(),
            final(self).tokens == old(self).tokens,
            parsed(r, p_not(old(self).ts(), old(self).token_index as int), final(self).token_index),
            r is Ok ==> old(self).token_index <= final(self).token_index,
        decreases self.tokens@.len() - self.token_index, 55nat,
    {
        let negation = match self.cur() {
            Token::Not => true,
            Token::BitwiseNot => true,
            _ => false,
        };
        if negation {
            let op = self.cur().clone();
            self.next();
            let node = match self.not() {
                Ok(n) => n,
                Err(e) => {
                    return Err(e);
                },
            };
            if let Node::Empty = node {
                return Err(parse_error("Unexpected end of file."));
            }
            Ok(Node::UnaryOp(Box::new(node), op))
        } else {
            self.binary_operation(3)
        }
    }

    /// An operand of a binary level.
    fn operand(&mut self, level: u8) -> (r: ParseResult)
        requires
            old(self).wf(),
            level <= 5,
        ensures
            final(self).wf(),
            final(self).tokens == old(self).tokens,
            parsed(r, p_operand(old(self).ts(), old(self).token_index as int, level as nat), final(self).token_index),
            r is Ok ==> old(self).token_index <= final(self).token_index,
        decreases self.tokens@.len() - self.token_index, (binop_rank(level as nat) - 2) as nat,
    {
        if level == 2 {
            self.not()
        } else if level == 5 {
            self.unary()
        } else {
            self.binary_operation(level + 1)
        }
    }

    /// One binary level: operands of the next level joined by this level's
    /// operators, from the left; powers join from the right.
    pub fn binary_operation(&mut self, level: u8) -> (r: ParseResult)
        requires
            old(self).wf(),
            level <= 5,
        ensures
            final(self).wf(),
            final(self).tokens == old(self).tokens,
            parsed(r, p_binop(old(self).ts(), old(self).token_index as int, level as nat), final(self).token_index),
            r is Ok ==> old(self).token_index <= final(self).token_index,
        decreases self.tokens@.len() - self.token_index, binop_rank(level as nat),
    {
        let ghost i0 = self.token_index as int;
        let ghost ts = self.ts();
        let mut left = match self.operand(level) {
            Ok(n) => n,
            Err(e) => {
                return Err(e);
            },
        };
        while self.at_level_op(level)
            invariant
                self.wf(),
                self.tokens == old(self).tokens,
                ts == self.ts(),
                i0 == old(self).token_index,
                level <= 5,
                i0 <= self.token_index,
                p_binop(ts, i0, level as nat) == p_binop_rest(ts, self.token_index as int, level as nat, left.view()),
            decreases self.tokens@.len() - self.token_index,
        {
            let op = self.cur().clone();
            self.next();
            let right = if level == 5 {
                self.binary_operation(level)
            } else {
                self.operand(level)
            };
            let right = match right {
                Ok(n) => n,
                Err(e) => {
                    return Err(e);
                },
            };
            left = Node::BinaryOp(Box::new(left), op, Box::new(right));
        }
        Ok(left)
    }

    /// `{ <statements> }`.
    fn block(&mut self) -> (r: ParseResult)
        requires
            old(self).wf(),
        ensures
            final(self).wf(),
            final(self).tokens == old(self).tokens,
            parsed(r, p_block(old(self).ts(), old(self).token_index as int), final(self).token_index),
            r is Ok ==> old(self).token_index <= final(self).token_index,
        decreases self.tokens@.len() - self.token_index, 10nat,
    {
        if !self.at_left_bracket() {
            return Err(parse_error("Expected '{'"));
        }
        self.next();
        let statements = match self.statements(true) {
            Ok(n) => n,
            Err(e) => {
                return Err(e);
            },
        };
        if !self.at_right_bracket() {
            return Err(parse_error("Expected '}'"));
        }
        self.next();
        Ok(statements)
    }

    /// The body of a conditional or a loop: a block or one expression.
    fn body(&mut self) -> (r: ParseResult)
        requires
            old(self).wf(),
        ensures
            final(self).wf(),
            final(self).tokens == old(self).tokens,
            parsed(r, p_body(old(self).ts(), old(self).token_index as int), final(self).token_index),
            r is Ok ==> old(self).token_index <= final(self).token_index,
        decreases self.tokens@.len() - self.token_index, 71nat,
    {
        if self.at_left_bracket() {
            self.block()
        } else {
            let node = match self.expression() {
                Ok(n) => n,
                Err(e) => {
                    return Err(e);
                },
            };
            if let Node::EOF = node {
                return Err(parse_error("Unexpected end of file"));
            }
            Ok(node)
        }
    }

    /// `if ( <expression> ) <body> [else <body>]`.
    fn if_expression(&mut self) -> (r: ParseResult)
        requires
            old(self).wf(),
            old(self).tokens@[old(self).token_index as int] is Keyword,
        ensures
            final(self).wf(),
            final(self).tokens == old(self).tokens,
            parsed(r, p_if(old(self).ts(), old(self).token_index as int), final(self).token_index),
            r is Ok ==> old(self).token_index <= final(self).token_index,
        decreases self.tokens@.len() - self.token_index, 69nat,
    {
        self.next();
        if !self.at_left_paren() {
            return Err(parse_error("Expected '('"));
        }
        let condition = match self.grouping() {
            Ok(n) => n,
            Err(e) => {
                return Err(e);
            },
        };
        let body = match self.body() {
            Ok(n) => n,
            Err(e) => {
                return Err(e);
            },
        };
        let is_else = match self.cur() {
            Token::Keyword(s) => *s == text("else"),
            _ => false,
        };
        if is_else {
            self.next();
            let else_body = match self.body() {
                Ok(n) => n,
                Err(e) => {
                    return Err(e);
                },
            };
            Ok(Node::If(Box::new(condition), Box::new(body), Some(Box::new(else_body))))
        } else {
            Ok(Node::If(Box::new(condition), Box::new(body), None))
        }
    }

    /// `while ( <expression> ) <body>`.
    fn while_expression(&mut self) -> (r: ParseResult)
        requires
            old(self).wf(),
            old(self).tokens@[old(self).token_index as int] is Keyword,
        ensures
            final(self).wf(),
            final(self).tokens == old(self).tokens,
            parsed(r, p_while(old(self).ts(), old(self).token_index as int), final(self).token_index),
            r is Ok ==> old(self).token_index <= final(self).token_index,
        decreases self.tokens@.len() - self.token_index, 69nat,
    {
        self.next();
        if !self.at_left_paren() {
            return Err(parse_error("Expected '('"));
        }
        let condition = match self.grouping() {
            Ok(n) => n,
            Err(e) => {
                return Err(e);
            },
        };
        let body = match self.body() {
            Ok(n) => n,
            Err(e) => {
                return Err(e);
            },
        };
        Ok(Node::WhileLoop(Box::new(condition), Box::new(body)))
    }

    /// `let <identifier> = <expression>`.
    fn var_def(&mut self) -> (r: ParseResult)
        requires
            old(self).wf(),
            old(self).tokens@[old(self).token_index as int] is Keyword,
        ensures
            final(self).wf(),
            final(self).tokens == old(self).tokens,
            parsed(r, p_var_def(old(self).ts(), old(self).token_index as int), final(self).token_index),
            r is Ok ==> old(self).token_index <= final(self).token_index,
        decreases self.tokens@.len() - self.token_index, 69nat,
    {
        self.next();
        let name = match self.cur() {
            Token::Identifier(n) => n.clone(),
            _ => {
                return Err(parse_error("Expected identifier"));
            },
        };
        self.next();
        if !self.at_eq() {
            return Err(parse_error("Expected '='"));
        }
        self.next();
        match self.expression() {
            Ok(value) => Ok(Node::VarDef(name, Box::new(value))),
            Err(e) => Err(e),
        }
    }

    /// `function <identifier> ( <identifiers> ) { <statements> }`.
    fn function_def(&mut self) -> (r: ParseResult)
        requires
            old(self).wf(),
            old(self).tokens@[old(self).token_index as int] is Keyword,
        ensures
            final(self).wf(),
            final(self).tokens == old(self).tokens,
            parsed(r, p_function_def(old(self).ts(), old(self).token_index as int), final(self).token_index),
            r is Ok ==> old(self).token_index <= final(self).token_index,
        decreases self.tokens@.len() - self.token_index, 69nat,
    {
        let ghost i0 = self.token_index as int;
        let ghost ts = self.ts();
        self.next();
        let name = match self.cur() {
            Token::Identifier(n) => n.clone(),
            _ => {
                return Err(parse_error("Expected identifier"));
            },
        };
        self.next();
        if !self.at_left_paren() {
            return Err(parse_error("Expected '('"));
        }
        self.next();
        let ghost i3 = self.token_index as int;
        let mut args: Vec<String> = Vec::new();
        assert(names_view(args@) =~= Seq::<Seq<char>>::empty());
        let mut done = self.at_right_paren();
        while !done
            invariant
                self.wf(),
                self.tokens == old(self).tokens,
                ts == self.ts(),
                i0 == old(self).token_index,
                i0 < i3 <= self.token_index,
                done ==> p_params(ts, i3, Seq::empty()) == Ok::<(Seq<Seq<char>>, int), Seq<char>>(
                    (names_view(args@), self.token_index as int),
                ),
                !done ==> p_params(ts, i3, Seq::empty()) == p_params(ts, self.token_index as int, names_view(args@)),
                !done && args@.len() == 0 ==> !(tok(ts, self.token_index as int) is RightParen),
                p_params(ts, i3, Seq::empty()) is Err ==> p_function_def(ts, i0) == Err::<(NodeView, int), Seq<char>>(
                    p_params(ts, i3, Seq::empty())->Err_0,
                ),
            decreases self.tokens@.len() - self.token_index,
        {
            let arg = match self.cur() {
                Token::Identifier(a) => a.clone(),
                _ => {
                    return Err(parse_error("Identifier expected"));
                },
            };
            let ghost before = names_view(args@);
            let ghost av = arg@;
            args.push(arg);
            assert(names_view(args@) =~= before.push(av));
            self.next();
            if !self.at_comma() && !self.at_right_paren() {
                return Err(parse_error("Expected ',' or ')'"));
            }
            if self.at_right_paren() {
                done = true;
            } else {
                self.next();
            }
        }
        self.next();
        match self.block() {
            Ok(body) => Ok(Node::FuncDef(name, args, Box::new(body))),
            Err(e) => Err(e),
        }
    }

    /// An expression: a definition, a conditional or a loop when a keyword
    /// starts it, else an operator expression.
    fn expression(&mut self) -> (r: ParseResult)
        requires
            old(self).wf(),
        ensures
            final(self).wf(),
            final(self).tokens == old(self).tokens,
            parsed(r, p_expression(old(self).ts(), old(self).token_index as int), final(self).token_index),
            r is Ok ==> old(self).token_index <= final(self).token_index,
        decreases self.tokens@.len() - self.token_index, 70nat,
    {
        let kind: u8 = match self.cur() {
            Token::Keyword(s) => keyword_kind(s),
            _ => 0,
        };
        if kind == 1 {
            self.var_def()
        } else if kind == 2 {
            self.function_def()
        } else if kind == 3 {
            self.if_expression()
        } else if kind == 4 {
            self.while_expression()
        } else {
            self.binary_operation(0)
        }
    }

    /// Statements separated by semicolons; `contained` says that a closing
    /// brace ends them.
    fn statements(&mut self, contained: bool) -> (r: ParseResult)
        requires
            old(self).wf(),
        ensures
            final(self).wf(),
            final(self).tokens == old(self).tokens,
            parsed(r, p_statements(old(self).ts(), old(self).token_index as int, contained), final(self).token_index),
            r is Ok ==> old(self).token_index <= final(self).token_index,
        decreases self.tokens@.len() - self.token_index, 76nat,
    {
        let ghost i0 = self.token_index as int;
        let ghost ts = self.ts();
        let mut nodes: Vec<Box<Node>> = Vec::new();
        assert(nodes_view(nodes@) =~= Seq::<NodeView>::empty());
        loop
            invariant
                self.wf(),
                self.tokens == old(self).tokens,
                ts == self.ts(),
                i0 == old(self).token_index,
                i0 <= self.token_index,
                p_statements(ts, i0, contained) == p_stmts_loop(
                    ts,
                    self.token_index as int,
                    contained,
                    nodes_view(nodes@),
                ),
            decreases self.tokens@.len() - self.token_index,
        {
            if contained && self.at_right_bracket() {
                if nodes.len() == 0 {
                    return Ok(Node::Empty);
                } else {
                    return Ok(Node::Statements(nodes, false));
                }
            }
            let i = self.token_index;
            let node = match self.expression() {
                Ok(n) => n,
                Err(e) => {
                    return Err(e);
                },
            };
            let ghost before = nodes_view(nodes@);
            let ghost nv = node.view();
            nodes.push(Box::new(node));
            assert(nodes_view(nodes@) =~= before.push(nv));
            if self.at_semicolon() {
                let ghost j = self.token_index as int;
                while self.at_semicolon()
                    invariant
                        self.wf(),
                        self.tokens == old(self).tokens,
                        ts == self.ts(),
                        j <= self.token_index,
                        skip_semis(ts, j) == skip_semis(ts, self.token_index as int),
                    decreases self.tokens@.len() - self.token_index,
                {
                    self.next();
                }
                if self.at_eof() {
                    return Ok(Node::Statements(nodes, false));
                }
            } else if self.after_right_bracket() && !self.at_eof() && !self.at_right_bracket() {
                if self.token_index <= i {
                    return Err(parse_error("Parser made no progress"));
                }
            } else {
                return Ok(Node::Statements(nodes, true));
            }
        }
    }

    /// Comma-separated expressions up to the closing `]` (when `square`) or
    /// `)`, which is not consumed.
    fn items(&mut self, square: bool) -> (r: Result<Vec<Box<Node>>, ParseError>)
        requires
            old(self).wf(),
        ensures
            final(self).wf(),
            final(self).tokens == old(self).tokens,
            match r {
                Ok(v) => p_items(old(self).ts(), old(self).token_index as int, Seq::empty(), square) == Ok::<
                    (Seq<NodeView>, int),
                    Seq<char>,
                >((nodes_view(v@), final(self).token_index as int)),
                Err(e) => p_items(old(self).ts(), old(self).token_index as int, Seq::empty(), square) == Err::<
                    (Seq<NodeView>, int),
                    Seq<char>,
                >(e.msg@),
            },
            r is Ok ==> old(self).token_index <= final(self).token_index,
        decreases self.tokens@.len() - self.token_index, 75nat,
    {
        let ghost i0 = self.token_index as int;
        let ghost ts = self.ts();
        let mut items: Vec<Box<Node>> = Vec::new();
        assert(nodes_view(items@) =~= Seq::<NodeView>::empty());
        loop
            invariant
                self.wf(),
                self.tokens == old(self).tokens,
                ts == self.ts(),
                i0 == old(self).token_index,
                i0 <= self.token_index,
                p_items(ts, i0, Seq::empty(), square) == p_items(ts, self.token_index as int, nodes_view(items@), square),
            decreases self.tokens@.len() - self.token_index,
        {
            if items.len() == 0 && self.at_closing(square) {
                return Ok(items);
            }
            let node = match self.expression() {
                Ok(n) => n,
                Err(e) => {
                    return Err(e);
                },
            };
            if !self.at_comma() && !self.at_closing(square) {
                if square {
                    return Err(parse_error("Expected ',' or ']'"));
                } else {
                    return Err(parse_error("Expected ',' or ')'"));
                }
            }
            let ghost before = nodes_view(items@);
            let ghost nv = node.view();
            items.push(Box::new(node));
            assert(nodes_view(items@) =~= before.push(nv));
            if self.at_closing(square) {
                return Ok(items);
            }
            self.next();
        }
    }

    /// Parses a whole program from the current token: statements that use up
    /// every token before `EOF`.
    pub fn parse(&mut self) -> (r: ParseResult)
        requires
            old(self).wf(),
        ensures
            final(self).wf(),
            final(self).tokens == old(self).tokens,
            match r {
                Ok(n) => p_program(old(self).ts(), old(self).token_index as int) == Ok::<NodeView, Seq<char>>(n.view()),
                Err(e) => p_program(old(self).ts(), old(self).token_index as int) == Err::<NodeView, Seq<char>>(e.msg@),
            },
    {
        let result = match self.statements(false) {
            Ok(n) => n,
            Err(e) => {
                return Err(e);
            },
        };
        if !self.at_eof() {
            let mut msg = text("Unexpected token '");
            let shown = self.cur().to_string();
            push_text(&mut msg, shown.as_str());
            push_text(&mut msg, "'");
            return Err(ParseError::new(msg));
        }
        Ok(result)
    }
}

} // verus!
