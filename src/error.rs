use vstd::prelude::*;

verus! {

/// What every stage's error offers: a kind name and a message.
pub trait Error {
    spec fn spec_msg(&self) -> Seq<char>;

    spec fn spec_name(&self) -> Seq<char>;

    fn msg(&self) -> (r: &str)
        ensures
            r@ == self.spec_msg(),
    ;

    fn name(&self) -> (r: &str)
        ensures
            r@ == self.spec_name(),
    ;

    /// The kind name, a colon and a space, then the message.
    fn to_string(&self) -> (r: String)
        ensures
            r@ == self.spec_name() + seq![':', ' '] + self.spec_msg(),
    {
        let sep = ": ";
        proof {
            reveal_strlit(": ");
        }
        let head = String::from_str(self.name()).concat(sep);
        head.concat(self.msg())
    }
}

/// A failure of the lexer.
#[derive(Debug)]
pub struct LexError {
    pub msg: String,
}

/// The kind name of lexer errors.
pub open spec fn lex_error_name() -> Seq<char> {
    "Lex Error"@
}

impl LexError {
    pub fn new(msg: String) -> (r: Self)
        ensures
            r.msg@ == msg@,
    {
        LexError { msg }
    }
}

impl Error for LexError {
    open spec fn spec_msg(&self) -> Seq<char> {
        self.msg@
    }

    open spec fn spec_name(&self) -> Seq<char> {
        lex_error_name()
    }

    fn msg(&self) -> (r: &str) {
        self.msg.as_str()
    }

    fn name(&self) -> (r: &str) {
        "Lex Error"
    }
}

/// A failure of the parser.
#[derive(Debug)]
pub struct ParseError {
    pub msg: String,
}

/// The kind name of parser errors.
pub open spec fn parse_error_name() -> Seq<char> {
    "Syntax Error"@
}

impl ParseError {
    pub fn new(msg: String) -> (r: Self)
        ensures
            r.msg@ == msg@,
    {
        ParseError { msg }
    }
}

impl Error for ParseError {
    open spec fn spec_msg(&self) -> Seq<char> {
        self.msg@
    }

    open spec fn spec_name(&self) -> Seq<char> {
        parse_error_name()
    }

    fn msg(&self) -> (r: &str) {
        self.msg.as_str()
    }

    fn name(&self) -> (r: &str) {
        "Syntax Error"
    }
}

/// A failure while evaluating a program.
#[derive(Debug)]
pub struct RuntimeError {
    pub msg: String,
}

/// The kind name of runtime errors.
pub open spec fn runtime_error_name() -> Seq<char> {
    "Runtime Error"@
}

impl RuntimeError {
    pub fn new(msg: String) -> (r: Self)
        ensures
            r.msg@ == msg@,
    {
        RuntimeError { msg }
    }
}

impl Error for RuntimeError {
    open spec fn spec_msg(&self) -> Seq<char> {
        self.msg@
    }

    open spec fn spec_name(&self) -> Seq<char> {
        runtime_error_name()
    }

    fn msg(&self) -> (r: &str) {
        self.msg.as_str()
    }

    fn name(&self) -> (r: &str) {
        "Runtime Error"
    }
}

} // verus!
