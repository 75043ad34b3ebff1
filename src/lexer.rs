//! The lexer: source text to tokens, in one left-to-right pass.
use vstd::prelude::*;
use crate::characters::{
    escape, is_digit, is_keyword, is_space, is_word_char, spec_escape, spec_is_digit,
    spec_is_keyword, spec_is_space, spec_is_word_char,
};
use crate::error::LexError;
use crate::number::{Decimal, SCALE};
use crate::text::{push_char, push_text};
use crate::token::{text, Token, TokenType, TokenView};

verus! {

pub type LexResultAll = Result<Vec<TokenType>, LexError>;

pub type LexResult = Result<TokenType, LexError>;

/// The views of a sequence of tokens.
pub open spec fn views(ts: Seq<TokenType>) -> Seq<TokenView> {
    ts.map_values(|t: TokenType| t@)
}

/// The value of a run of decimal digits.
pub open spec fn digits_value(s: Seq<char>) -> nat
    decreases s.len(),
{
    if s.len() == 0 {
        0
    } else {
        digits_value(s.drop_last()) * 10 + (s.last() as nat - '0' as nat) as nat
    }
}

/// The value of the first `k` fractional digits of `f`, with missing digits
/// read as zeros.
pub open spec fn frac_value(f: Seq<char>, k: nat) -> nat
    decreases k,
{
    if k == 0 {
        0
    } else {
        let d: nat = if k - 1 < f.len() { (f[k - 1] as nat - '0' as nat) as nat } else { 0 };
        frac_value(f, (k - 1) as nat) * 10 + d
    }
}

pub open spec fn pow10(k: nat) -> nat
    decreases k,
{
    if k == 0 { 1 } else { 10 * pow10((k - 1) as nat) }
}

/// The first index at or after `i` whose character is not a digit.
pub open spec fn digits_end(src: Seq<char>, i: int) -> int
    decreases src.len() - i,
{
    if i < 0 || i >= src.len() || !spec_is_digit(src[i]) {
        i
    } else {
        digits_end(src, i + 1)
    }
}

/// The first index at or after `i` whose character cannot stand in an
/// identifier.
pub open spec fn word_end(src: Seq<char>, i: int) -> int
    decreases src.len() - i,
{
    if i < 0 || i >= src.len() || !spec_is_word_char(src[i]) {
        i
    } else {
        word_end(src, i + 1)
    }
}

pub open spec fn malformed_number() -> Seq<char> {
    "Malformed number"@
}

/// The token of a number whose digits run from `i` to `e1`, and, when a
/// point follows, whose fractional digits run from `e1 + 1` to `e2`.
pub open spec fn number_token(src: Seq<char>, i: int) -> (Result<Option<TokenView>, Seq<char>>, int) {
    let e1 = digits_end(src, i);
    let whole = digits_value(src.subrange(i, e1));
    if e1 < src.len() && src[e1] == '.' {
        let e2 = digits_end(src, e1 + 1);
        let units = whole * (SCALE as nat) + frac_value(src.subrange(e1 + 1, e2), 6);
        if units <= i64::MAX {
            (Ok(Some(Token::Float(Decimal { units: units as i64 }))), e2)
        } else {
            (Err(malformed_number()), e2)
        }
    } else if whole <= i32::MAX {
        (Ok(Some(Token::Int(whole as i32))), e1)
    } else {
        (Err(malformed_number()), e1)
    }
}

/// The identifier or keyword that starts at `i`.
pub open spec fn word_token(src: Seq<char>, i: int) -> TokenView {
    let w = src.subrange(i, word_end(src, i));
    if spec_is_keyword(w) {
        Token::Keyword(w)
    } else {
        Token::Identifier(w)
    }
}

/// The body of a string literal from `j` on: the characters read so far are
/// `acc`, and `special` says that a backslash came just before. The
/// character after a backslash is taken through the escape table, a quote
/// included; an unescaped quote closes the literal. Gives the text and the
/// index after the closing quote, or `None` when the input ends first.
pub open spec fn string_body(src: Seq<char>, j: int, special: bool, acc: Seq<char>) -> Option<(Seq<char>, int)>
    decreases src.len() - j,
{
    if j < 0 || j >= src.len() {
        None
    } else if special {
        string_body(src, j + 1, false, acc.push(spec_escape(src[j])))
    } else if src[j] == '"' {
        Some((acc, j + 1))
    } else if src[j] == '\\' {
        string_body(src, j + 1, true, acc)
    } else {
        string_body(src, j + 1, false, acc.push(src[j]))
    }
}

pub open spec fn unterminated_string() -> Seq<char> {
    "Expected '\"'"@
}

pub open spec fn unknown_character(c: char) -> Seq<char> {
    "Unknown character '"@ + seq![c] + "'."@
}

/// The token of a character that stands alone.
pub open spec fn single_token(c: char) -> Option<TokenView> {
    if c == '+' {
        Some(Token::Plus)
    } else if c == '-' {
        Some(Token::Minus)
    } else if c == '*' {
        Some(Token::Mul)
    } else if c == '/' {
        Some(Token::Div)
    } else if c == '^' {
        Some(Token::Pow)
    } else if c == ';' {
        Some(Token::Semicolon)
    } else if c == ',' {
        Some(Token::Comma)
    } else if c == '(' {
        Some(Token::LeftParen)
    } else if c == ')' {
        Some(Token::RightParen)
    } else if c == '{' {
        Some(Token::LeftBracket)
    } else if c == '}' {
        Some(Token::RightBracket)
    } else if c == '[' {
        Some(Token::LeftSquare)
    } else if c == ']' {
        Some(Token::RightSquare)
    } else {
        None
    }
}

/// An operator that starts with `c` and may take a second character:
/// `second` and `double` are the second character and the token that the
/// pair makes, `other` and `other_double` a further pair, `alone` the token
/// of `c` alone. The input may not end after `c`.
pub open spec fn pair_token(
    src: Seq<char>,
    i: int,
    second: char,
    double: TokenView,
    other: Option<char>,
    other_double: TokenView,
    alone: TokenView,
) -> (Result<Option<TokenView>, Seq<char>>, int) {
    if i + 1 >= src.len() {
        (Err("Expected '"@ + seq![src[i]] + "'"@), i + 1)
    } else if src[i + 1] == second {
        (Ok(Some(double)), i + 2)
    } else if other == Some(src[i + 1]) {
        (Ok(Some(other_double)), i + 2)
    } else {
        (Ok(Some(alone)), i + 1)
    }
}

/// What the character at `i` starts: a token, nothing (white space) or an
/// error, and the index where the next scan starts.
pub open spec fn scan_at(src: Seq<char>, i: int) -> (Result<Option<TokenView>, Seq<char>>, int) {
    let c = src[i];
    if spec_is_digit(c) {
        number_token(src, i)
    } else if spec_is_word_char(c) {
        (Ok(Some(word_token(src, i))), word_end(src, i))
    } else if spec_is_space(c) {
        (Ok(None), i + 1)
    } else if c == '"' {
        match string_body(src, i + 1, false, Seq::empty()) {
            Some(b) => (Ok(Some(Token::Str(b.0))), b.1),
            None => (Err(unterminated_string()), src.len() as int),
        }
    } else if c == '=' {
        pair_token(src, i, '=', Token::EE, None, Token::EOF, Token::Eq)
    } else if c == '!' {
        pair_token(src, i, '=', Token::NE, None, Token::EOF, Token::Not)
    } else if c == '>' {
        pair_token(src, i, '=', Token::GTE, Some('>'), Token::BitwiseRightShift, Token::GT)
    } else if c == '<' {
        pair_token(src, i, '=', Token::LTE, Some('<'), Token::BitwiseLeftShift, Token::LT)
    } else if c == '|' {
        pair_token(src, i, '|', Token::Or, None, Token::EOF, Token::BitwiseOr)
    } else if c == '&' {
        pair_token(src, i, '&', Token::And, None, Token::EOF, Token::BitwiseAnd)
    } else {
        match single_token(c) {
            Some(t) => (Ok(Some(t)), i + 1),
            None => (Err(unknown_character(c)), i + 1),
        }
    }
}

/// The tokens of `src` from index `i` on, ending in one `EOF`, or the
/// message of the first error.
pub open spec fn lex_from(src: Seq<char>, i: int) -> Result<Seq<TokenView>, Seq<char>>
    decreases src.len() - i,
{
    if i < 0 || i >= src.len() {
        Ok(seq![Token::EOF])
    } else {
        let s = scan_at(src, i);
        match s.0 {
            Err(m) => Err(m),
            Ok(t) => if s.1 <= i || s.1 > src.len() {
                Err(Seq::empty())
            } else {
                match lex_from(src, s.1) {
                    Err(m) => Err(m),
                    Ok(rest) => match t {
                        Some(t) => Ok(seq![t] + rest),
                        None => Ok(rest),
                    },
                }
            },
        }
    }
}

/// The tokens of a whole source text.
pub open spec fn lex(src: Seq<char>) -> Result<Seq<TokenView>, Seq<char>> {
    lex_from(src, 0)
}

/// `tokens` followed by what `rest` holds; an error stays.
pub open spec fn glue(tokens: Seq<TokenView>, rest: Result<Seq<TokenView>, Seq<char>>) -> Result<
    Seq<TokenView>,
    Seq<char>,
> {
    match rest {
        Ok(r) => Ok(tokens + r),
        Err(m) => Err(m),
    }
}

/// The outcome of a scan, as a `LexResult` says it against the contract's
/// terms.
pub open spec fn scanned(r: LexResult, s: Result<Option<TokenView>, Seq<char>>) -> bool {
    match r {
        Ok(t) => s == Ok::<Option<TokenView>, Seq<char>>(Some(t@)),
        Err(e) => s == Err::<Option<TokenView>, Seq<char>>(e.msg@),
    }
}

pub proof fn lemma_pow10_mono(a: nat, b: nat)
    requires
        a <= b,
    ensures
        pow10(a) <= pow10(b),
    decreases b,
{
    if a < b {
        lemma_pow10_mono(a, (b - 1) as nat);
    }
}

/// The value of the digits `s[lo..hi]`, or `None` when it exceeds `cap`.
fn digits_value_capped(s: &Vec<char>, lo: usize, hi: usize, cap: u64) -> (r: Option<u64>)
    requires
        lo <= hi <= s@.len(),
        forall|j: int| lo <= j < hi ==> spec_is_digit(#[trigger] s@[j]),
    ensures
        r == (if digits_value(s@.subrange(lo as int, hi as int)) <= cap {
            Some(digits_value(s@.subrange(lo as int, hi as int)) as u64)
        } else {
            None::<u64>
        }),
{
    let mut acc: u64 = 0;
    let mut over = false;
    let mut k = lo;
    assert(s@.subrange(lo as int, lo as int) =~= Seq::<char>::empty());
    while k < hi
        invariant
            lo <= k <= hi <= s@.len(),
            forall|j: int| lo <= j < hi ==> spec_is_digit(#[trigger] s@[j]),
            over ==> digits_value(s@.subrange(lo as int, k as int)) > cap,
            !over ==> acc == digits_value(s@.subrange(lo as int, k as int)) && acc <= cap,
        decreases hi - k,
    {
        let ghost prev = s@.subrange(lo as int, k as int);
        assert(s@.subrange(lo as int, k + 1).drop_last() =~= prev);
        assert(s@.subrange(lo as int, k + 1).last() == s@[k as int]);
        let d = (s[k] as u32 - '0' as u32) as u64;
        if !over {
            let next: u128 = acc as u128 * 10 + d as u128;
            if next > cap as u128 {
                over = true;
            } else {
                acc = next as u64;
            }
        }
        k = k + 1;
    }
    if over {
        None
    } else {
        Some(acc)
    }
}

/// The value of the first six fractional digits `s[lo..hi]`.
fn frac_value_exec(s: &Vec<char>, lo: usize, hi: usize) -> (r: u64)
    requires
        lo <= hi <= s@.len(),
        forall|j: int| lo <= j < hi ==> spec_is_digit(#[trigger] s@[j]),
    ensures
        r == frac_value(s@.subrange(lo as int, hi as int), 6),
        r < 1000000,
{
    let ghost f = s@.subrange(lo as int, hi as int);
    let mut acc: u64 = 0;
    let mut k: u64 = 0;
    while k < 6
        invariant
            k <= 6,
            lo <= hi <= s@.len(),
            f == s@.subrange(lo as int, hi as int),
            forall|j: int| lo <= j < hi ==> spec_is_digit(#[trigger] s@[j]),
            acc == frac_value(f, k as nat),
            acc < pow10(k as nat),
        decreases 6 - k,
    {
        proof {
            lemma_pow10_mono(k as nat, 5);
            reveal_with_fuel(pow10, 6);
        }
        let d: u64 = if (k as usize) < hi - lo {
            (s[lo + k as usize] as u32 - '0' as u32) as u64
        } else {
            0
        };
        acc = acc * 10 + d;
        k = k + 1;
    }
    proof {
        reveal_with_fuel(pow10, 7);
    }
    acc
}

pub proof fn lemma_glue_push(ts: Seq<TokenType>, t: TokenType, x: Result<Seq<TokenView>, Seq<char>>)
    ensures
        glue(views(ts), glue(seq![t@], x)) == glue(views(ts.push(t)), x),
{
    assert(views(ts.push(t)) =~= views(ts).push(t@));
    match x {
        Ok(r) => {
            assert(views(ts) + (seq![t@] + r) =~= views(ts).push(t@) + r);
        },
        Err(_) => {},
    }
}

/// The token of a character that stands alone, if it is one.
fn single(c: char) -> (r: Option<TokenType>)
    ensures
        match r {
            Some(t) => single_token(c) == Some(t@),
            None => single_token(c) is None,
        },
{
    if c == '+' {
        Some(Token::Plus)
    } else if c == '-' {
        Some(Token::Minus)
    } else if c == '*' {
        Some(Token::Mul)
    } else if c == '/' {
        Some(Token::Div)
    } else if c == '^' {
        Some(Token::Pow)
    } else if c == ';' {
        Some(Token::Semicolon)
    } else if c == ',' {
        Some(Token::Comma)
    } else if c == '(' {
        Some(Token::LeftParen)
    } else if c == ')' {
        Some(Token::RightParen)
    } else if c == '{' {
        Some(Token::LeftBracket)
    } else if c == '}' {
        Some(Token::RightBracket)
    } else if c == '[' {
        Some(Token::LeftSquare)
    } else if c == ']' {
        Some(Token::RightSquare)
    } else {
        None
    }
}

/// Turns source text into tokens. `current_char` is the character at
/// `char_index`, or `None` past the end.
pub struct Lexer {
    pub source: Vec<char>,
    pub current_char: Option<char>,
    pub char_index: usize,
}

impl Lexer {
    pub open spec fn wf(&self) -> bool {
        &&& self.char_index <= self.source@.len()
        &&& self.current_char == (if self.char_index < self.source@.len() {
            Some(self.source@[self.char_index as int])
        } else {
            None::<char>
        })
    }

    /// A lexer at the start of `source`.
    pub fn new(source: &str) -> (r: Lexer)
        ensures
            r.wf(),
            r.source@ == source@,
            r.char_index == 0,
    {
        let n = source.unicode_len();
        let mut chars: Vec<char> = Vec::new();
        let mut i: usize = 0;
        while i < n
            invariant
                n == source@.len(),
                i <= n,
                chars@ == source@.subrange(0, i as int),
            decreases n - i,
        {
            chars.push(source.get_char(i));
            i = i + 1;
            assert(chars@ =~= source@.subrange(0, i as int));
        }
        assert(chars@ =~= source@);
        let current_char = if 0 < chars.len() {
            Some(chars[0])
        } else {
            None
        };
        Lexer { source: chars, current_char, char_index: 0 }
    }

    /// Moves to the next character; stays at the end once there.
    pub fn next(&mut self)
        requires
            old(self).wf(),
        ensures
            final(self).wf(),
            final(self).source == old(self).source,
            final(self).char_index == (if old(self).char_index < old(self).source@.len() {
                old(self).char_index + 1
            } else {
                old(self).char_index as int
            }),
    {
        if self.char_index < self.source.len() {
            self.char_index = self.char_index + 1;
        }
        self.current_char = if self.char_index < self.source.len() {
            Some(self.source[self.char_index])
        } else {
            None
        };
    }

    /// Moves past a run of digits.
    fn skip_digits(&mut self)
        requires
            old(self).wf(),
        ensures
            final(self).wf(),
            final(self).source == old(self).source,
            final(self).char_index == digits_end(old(self).source@, old(self).char_index as int),
            old(self).char_index <= final(self).char_index,
            forall|j: int|
                old(self).char_index <= j < final(self).char_index ==> spec_is_digit(
                    #[trigger] final(self).source@[j],
                ),
            (old(self).current_char is Some && spec_is_digit(old(self).current_char->Some_0))
                ==> old(self).char_index < final(self).char_index,
    {
        let ghost start = self.char_index as int;
        while self.current_char.is_some() && is_digit(self.current_char.unwrap())
            invariant
                self.wf(),
                self.source == old(self).source,
                start <= self.char_index,
                digits_end(self.source@, start) == digits_end(self.source@, self.char_index as int),
                forall|j: int| start <= j < self.char_index ==> spec_is_digit(#[trigger] self.source@[j]),
            decreases self.source@.len() - self.char_index,
        {
            self.next();
        }
    }

    /// Reads a number: digits, then at most one point and more digits.
    fn make_number(&mut self) -> (r: LexResult)
        requires
            old(self).wf(),
            old(self).char_index < old(self).source@.len(),
            old(self).current_char is Some,
            spec_is_digit(old(self).current_char->Some_0),
        ensures
            final(self).wf(),
            final(self).source == old(self).source,
            scanned(r, number_token(old(self).source@, old(self).char_index as int).0),
            r is Ok ==> final(self).char_index == number_token(
                old(self).source@,
                old(self).char_index as int,
            ).1,
            old(self).char_index < final(self).char_index,
    {
        let start = self.char_index;
        let ghost src = self.source@;
        self.skip_digits();
        let e1 = self.char_index;
        if self.current_char == Some('.') {
            self.next();
            let f0 = self.char_index;
            self.skip_digits();
            let e2 = self.char_index;
            let whole = digits_value_capped(&self.source, start, e1, i64::MAX as u64);
            let frac = frac_value_exec(&self.source, f0, e2);
            match whole {
                None => {
                    let ghost w = digits_value(src.subrange(start as int, e1 as int));
                    let ghost f = frac_value(src.subrange(f0 as int, e2 as int), 6);
                    assert(w * 1000000 + f > i64::MAX) by (nonlinear_arith)
                        requires w > i64::MAX, f >= 0;
                    Err(LexError::new(text("Malformed number")))
                },
                Some(w) => {
                    let units: u128 = w as u128 * 1000000 + frac as u128;
                    if units <= i64::MAX as u128 {
                        Ok(Token::Float(Decimal { units: units as i64 }))
                    } else {
                        Err(LexError::new(text("Malformed number")))
                    }
                },
            }
        } else {
            match digits_value_capped(&self.source, start, e1, i32::MAX as u64) {
                Some(v) => Ok(Token::Int(v as i32)),
                None => Err(LexError::new(text("Malformed number"))),
            }
        }
    }

    /// Reads a string literal that opens at the current quote.
    fn make_string(&mut self) -> (r: LexResult)
        requires
            old(self).wf(),
            old(self).current_char == Some('"'),
        ensures
            final(self).wf(),
            final(self).source == old(self).source,
            scanned(r, scan_at(old(self).source@, old(self).char_index as int).0),
            r is Ok ==> final(self).char_index == scan_at(
                old(self).source@,
                old(self).char_index as int,
            ).1,
            r is Ok ==> old(self).char_index < final(self).char_index,
    {
        let ghost src = self.source@;
        let ghost start = self.char_index as int;
        let mut string = String::new();
        let mut special = false;
        self.next();
        while self.current_char.is_some() && (special || self.current_char.unwrap() != '"')
            invariant
                self.wf(),
                self.source == old(self).source,
                src == self.source@,
                start == old(self).char_index,
                start < self.char_index,
                string_body(src, self.char_index as int, special, string@) == string_body(
                    src,
                    start + 1,
                    false,
                    Seq::empty(),
                ),
            decreases self.source@.len() - self.char_index,
        {
            let c = self.current_char.unwrap();
            if special {
                special = false;
                push_char(&mut string, escape(c));
            } else if c == '\\' {
                special = true;
            } else {
                push_char(&mut string, c);
            }
            self.next();
        }
        if self.current_char.is_none() {
            Err(LexError::new(text("Expected '\"'")))
        } else {
            self.next();
            Ok(Token::Str(string))
        }
    }

    /// Reads an identifier or a keyword.
    fn make_identifier(&mut self) -> (r: LexResult)
        requires
            old(self).wf(),
            old(self).char_index < old(self).source@.len(),
        ensures
            final(self).wf(),
            final(self).source == old(self).source,
            r == Ok::<TokenType, LexError>(match r { Ok(t) => t, Err(_) => Token::EOF }),
            r->Ok_0@ == word_token(old(self).source@, old(self).char_index as int),
            final(self).char_index == word_end(old(self).source@, old(self).char_index as int),
            spec_is_word_char(old(self).source@[old(self).char_index as int]) ==> old(self).char_index
                < final(self).char_index,
    {
        let ghost src = self.source@;
        let ghost start = self.char_index as int;
        let mut word = String::new();
        while self.current_char.is_some() && is_word_char(self.current_char.unwrap())
            invariant
                self.wf(),
                self.source == old(self).source,
                src == self.source@,
                start == old(self).char_index,
                start <= self.char_index,
                word@ == src.subrange(start, self.char_index as int),
                word_end(src, start) == word_end(src, self.char_index as int),
            decreases self.source@.len() - self.char_index,
        {
            let ghost i = self.char_index as int;
            let c = self.current_char.unwrap();
            assert(c == src[i]);
            push_char(&mut word, c);
            self.next();
            assert(self.char_index == i + 1);
            assert(src.subrange(start, i + 1) =~= src.subrange(start, i).push(src[i]));
        }
        if is_keyword(&word) {
            Ok(Token::Keyword(word))
        } else {
            Ok(Token::Identifier(word))
        }
    }

    /// Reads an operator that starts with the current character and may
    /// take a second one.
    fn make_pair(
        &mut self,
        second: char,
        double: TokenType,
        other: Option<char>,
        other_double: TokenType,
        alone: TokenType,
    ) -> (r: LexResult)
        requires
            old(self).wf(),
            old(self).char_index < old(self).source@.len(),
        ensures
            final(self).wf(),
            final(self).source == old(self).source,
            scanned(
                r,
                pair_token(
                    old(self).source@,
                    old(self).char_index as int,
                    second,
                    double@,
                    other,
                    other_double@,
                    alone@,
                ).0,
            ),
            r is Ok ==> final(self).char_index == pair_token(
                old(self).source@,
                old(self).char_index as int,
                second,
                double@,
                other,
                other_double@,
                alone@,
            ).1,
            r is Ok ==> old(self).char_index < final(self).char_index,
    {
        let first = self.current_char.unwrap();
        self.next();
        match self.current_char {
            None => {
                let mut msg = text("Expected '");
                push_char(&mut msg, first);
                push_text(&mut msg, "'");
                assert(msg@ =~= "Expected '"@ + seq![first] + "'"@);
                Err(LexError::new(msg))
            },
            Some(c) => {
                if c == second {
                    self.next();
                    Ok(double)
                } else if other == Some(c) {
                    self.next();
                    Ok(other_double)
                } else {
                    Ok(alone)
                }
            },
        }
    }

    /// Reads `==` or `=`.
    fn make_equals(&mut self) -> (r: LexResult)
        requires
            old(self).wf(),
            old(self).current_char == Some('='),
        ensures
            final(self).wf(),
            final(self).source == old(self).source,
            scanned(r, scan_at(old(self).source@, old(self).char_index as int).0),
            r is Ok ==> final(self).char_index == scan_at(
                old(self).source@,
                old(self).char_index as int,
            ).1,
            r is Ok ==> old(self).char_index < final(self).char_index,
    {
        self.make_pair('=', Token::EE, None, Token::EOF, Token::Eq)
    }

    /// Reads `!=` or `!`.
    fn make_not_equals(&mut self) -> (r: LexResult)
        requires
            old(self).wf(),
            old(self).current_char == Some('!'),
        ensures
            final(self).wf(),
            final(self).source == old(self).source,
            scanned(r, scan_at(old(self).source@, old(self).char_index as int).0),
            r is Ok ==> final(self).char_index == scan_at(
                old(self).source@,
                old(self).char_index as int,
            ).1,
            r is Ok ==> old(self).char_index < final(self).char_index,
    {
        self.make_pair('=', Token::NE, None, Token::EOF, Token::Not)
    }

    /// Reads `>=`, `>>` or `>`.
    fn make_greater_than(&mut self) -> (r: LexResult)
        requires
            old(self).wf(),
            old(self).current_char == Some('>'),
        ensures
            final(self).wf(),
            final(self).source == old(self).source,
            scanned(r, scan_at(old(self).source@, old(self).char_index as int).0),
            r is Ok ==> final(self).char_index == scan_at(
                old(self).source@,
                old(self).char_index as int,
            ).1,
            r is Ok ==> old(self).char_index < final(self).char_index,
    {
        self.make_pair('=', Token::GTE, Some('>'), Token::BitwiseRightShift, Token::GT)
    }

    /// Reads `<=`, `<<` or `<`.
    fn make_less_than(&mut self) -> (r: LexResult)
        requires
            old(self).wf(),
            old(self).current_char == Some('<'),
        ensures
            final(self).wf(),
            final(self).source == old(self).source,
            scanned(r, scan_at(old(self).source@, old(self).char_index as int).0),
            r is Ok ==> final(self).char_index == scan_at(
                old(self).source@,
                old(self).char_index as int,
            ).1,
            r is Ok ==> old(self).char_index < final(self).char_index,
    {
        self.make_pair('=', Token::LTE, Some('<'), Token::BitwiseLeftShift, Token::LT)
    }

    /// Reads `||` or `|`.
    fn make_or(&mut self) -> (r: LexResult)
        requires
            old(self).wf(),
            old(self).current_char == Some('|'),
        ensures
            final(self).wf(),
            final(self).source == old(self).source,
            scanned(r, scan_at(old(self).source@, old(self).char_index as int).0),
            r is Ok ==> final(self).char_index == scan_at(
                old(self).source@,
                old(self).char_index as int,
            ).1,
            r is Ok ==> old(self).char_index < final(self).char_index,
    {
        self.make_pair('|', Token::Or, None, Token::EOF, Token::BitwiseOr)
    }

    /// Reads `&&` or `&`.
    fn make_and(&mut self) -> (r: LexResult)
        requires
            old(self).wf(),
            old(self).current_char == Some('&'),
        ensures
            final(self).wf(),
            final(self).source == old(self).source,
            scanned(r, scan_at(old(self).source@, old(self).char_index as int).0),
            r is Ok ==> final(self).char_index == scan_at(
                old(self).source@,
                old(self).char_index as int,
            ).1,
            r is Ok ==> old(self).char_index < final(self).char_index,
    {
        self.make_pair('&', Token::And, None, Token::EOF, Token::BitwiseAnd)
    }

    /// Reads the whole input from the current character on, ending with one
    /// `EOF` token; stops at the first error.
    pub fn tokenize(&mut self) -> (r: LexResultAll)
        requires
            old(self).wf(),
        ensures
            final(self).source == old(self).source,
            match r {
                Ok(ts) => lex_from(old(self).source@, old(self).char_index as int) == Ok::<
                    Seq<TokenView>,
                    Seq<char>,
                >(views(ts@)),
                Err(e) => lex_from(old(self).source@, old(self).char_index as int) == Err::<
                    Seq<TokenView>,
                    Seq<char>,
                >(e.msg@),
            },
    {
        let mut tokens: Vec<TokenType> = Vec::new();
        assert(views(tokens@) =~= Seq::<TokenView>::empty());
        assert(glue(Seq::empty(), lex_from(self.source@, self.char_index as int)) =~= lex_from(
            self.source@,
            self.char_index as int,
        ));
        loop
            invariant
                self.wf(),
                self.source == old(self).source,
                lex_from(old(self).source@, old(self).char_index as int) == glue(
                    views(tokens@),
                    lex_from(self.source@, self.char_index as int),
                ),
            decreases self.source@.len() - self.char_index,
        {
            let ghost src = self.source@;
            let ghost i = self.char_index as int;
            match self.current_char {
                None => {
                    proof {
                        lemma_glue_push(tokens@, Token::EOF, Ok(Seq::empty()));
                        assert(seq![Token::<Seq<char>>::EOF] + Seq::empty() =~= seq![Token::<Seq<char>>::EOF]);
                    }
                    tokens.push(Token::EOF);
                    assert(views(tokens@) + Seq::empty() =~= views(tokens@));
                    return Ok(tokens);
                },
                Some(c) => {
                    if is_space(c) {
                        self.next();
                        continue;
                    }
                    let step: LexResult = if is_digit(c) {
                        self.make_number()
                    } else if is_word_char(c) {
                        self.make_identifier()
                    } else if c == '"' {
                        self.make_string()
                    } else if c == '=' {
                        self.make_equals()
                    } else if c == '!' {
                        self.make_not_equals()
                    } else if c == '>' {
                        self.make_greater_than()
                    } else if c == '<' {
                        self.make_less_than()
                    } else if c == '|' {
                        self.make_or()
                    } else if c == '&' {
                        self.make_and()
                    } else {
                        match single(c) {
                            Some(t) => {
                                self.next();
                                Ok(t)
                            },
                            None => {
                                let mut msg = text("Unknown character '");
                                push_char(&mut msg, c);
                                push_text(&mut msg, "'.");
                                assert(msg@ =~= unknown_character(c));
                                Err(LexError::new(msg))
                            },
                        }
                    };
                    match step {
                        Err(e) => {
                            return Err(e);
                        },
                        Ok(t) => {
                            proof {
                                lemma_glue_push(tokens@, t, lex_from(src, self.char_index as int));
                            }
                            tokens.push(t);
                        },
                    }
                },
            }
        }
    }
}

} // verus!
