//! The first, smaller ini parser: keys and values are runs of letters and
//! digits, and there is no quoting.
//!
//! The input is a slice of ASCII bytes or of characters. Everything after
//! `#` is a comment up to the end of the line. Well-formed input consists
//! of lines each of which carries a key-value pair delimited with `=`:
//!
//! ```text
//! brick_count = infinity
//! ```
//!
//! The caller calls [`Parser::parse`] until it returns an error or
//! `Ok(None)` at the end of the input.

use vstd::prelude::*;

use crate::ini_file::{alphabetic, is_alphabetic, is_numeric, numeric, Symbol};

verus! {

/// Marks the characters the parser reads: ASCII bytes and `char`s.
pub trait Char {

}

impl Char for u8 {

}

impl Char for char {

}

/// What a character is to the parser. Only [`Symbol::Letter`] (a letter)
/// and [`Symbol::KeyChar`] (a digit) make up keys and values; `_`, `.`,
/// `-` and `"` are [`Symbol::Other`] here.
pub trait CharKind: Char + Copy {
    spec fn spec_kind(&self) -> Symbol;

    fn kind(&self) -> (r: Symbol)
        ensures
            r == self.spec_kind(),
    ;
}

/// The class of an ASCII byte.
pub open spec fn byte_kind(b: u8) -> Symbol {
    if b == 0 {
        Symbol::Null
    } else if b == 10 {
        Symbol::Newline
    } else if 9 <= b <= 32 {
        Symbol::Whitespace
    } else if b == 61 {
        Symbol::Assign
    } else if b == 35 {
        Symbol::Hash
    } else if (65 <= b <= 90) || (97 <= b <= 122) {
        Symbol::Letter
    } else if 48 <= b <= 57 {
        Symbol::KeyChar
    } else {
        Symbol::Other
    }
}

/// The class of a character.
pub open spec fn char_kind(c: char) -> Symbol {
    if c == '\0' {
        Symbol::Null
    } else if c == '\n' {
        Symbol::Newline
    } else if '\t' <= c <= ' ' {
        Symbol::Whitespace
    } else if c == '=' {
        Symbol::Assign
    } else if c == '#' {
        Symbol::Hash
    } else if alphabetic(c) {
        Symbol::Letter
    } else if numeric(c) {
        Symbol::KeyChar
    } else {
        Symbol::Other
    }
}

impl CharKind for u8 {
    open spec fn spec_kind(&self) -> Symbol {
        byte_kind(*self)
    }

    fn kind(&self) -> (r: Symbol) {
        let b = *self;
        if b == 0 {
            Symbol::Null
        } else if b == 10 {
            // '\n'
            Symbol::Newline
        } else if 9 <= b && b <= 32 {
            // '\t' ..= ' '
            Symbol::Whitespace
        } else if b == 61 {
            // '='
            Symbol::Assign
        } else if b == 35 {
            // '#'
            Symbol::Hash
        } else if (65 <= b && b <= 90) || (97 <= b && b <= 122) {
            // 'A' ..= 'Z', 'a' ..= 'z'
            Symbol::Letter
        } else if 48 <= b && b <= 57 {
            // '0' ..= '9'
            Symbol::KeyChar
        } else {
            Symbol::Other
        }
    }
}

impl CharKind for char {
    open spec fn spec_kind(&self) -> Symbol {
        char_kind(*self)
    }

    fn kind(&self) -> (r: Symbol) {
        let c = *self;
        if c == '\0' {
            Symbol::Null
        } else if c == '\n' {
            Symbol::Newline
        } else if '\t' <= c && c <= ' ' {
            Symbol::Whitespace
        } else if c == '=' {
            Symbol::Assign
        } else if c == '#' {
            Symbol::Hash
        } else if is_alphabetic(c) {
            Symbol::Letter
        } else if is_numeric(c) {
            Symbol::KeyChar
        } else {
            Symbol::Other
        }
    }
}

/// A place in the input: line and column, counted from 1, and the index of
/// the character.
#[derive(Debug, Copy, Clone, PartialEq, Eq, Structural)]
pub struct Location {
    pub line: usize,
    pub col: usize,
    pub pos: usize,
}

impl Default for Location {
    fn default() -> (r: Self)
        ensures
            r == (Location { line: 1, col: 1, pos: 0 }),
    {
        Self { line: 1, col: 1, pos: 0 }
    }
}

/// The place after a newline at `l`.
pub open spec fn next_line(l: Location) -> Location {
    Location { line: (l.line + 1) as usize, col: 1, pos: (l.pos + 1) as usize }
}

/// The place `n` characters further on the same line as `l`.
pub open spec fn moved(l: Location, n: int) -> Location {
    Location { line: l.line, col: (l.col + n) as usize, pos: (l.pos + n) as usize }
}

impl Location {
    /// Steps over a newline.
    pub fn new_line(&mut self)
        requires
            old(self).line < usize::MAX,
            old(self).pos < usize::MAX,
        ensures
            *final(self) == next_line(*old(self)),
    {
        self.col = 1;
        self.line += 1;
        self.pos += 1;
    }

    /// Steps over a character other than a newline.
    pub fn advance(&mut self)
        requires
            old(self).col < usize::MAX,
            old(self).pos < usize::MAX,
        ensures
            *final(self) == moved(*old(self), 1),
    {
        self.col += 1;
        self.pos += 1;
    }
}

/// Why the input could not be parsed, and where.
#[derive(Debug, Copy, Clone, PartialEq, Eq, Structural)]
pub enum Error {
    ExpectedKey(Location),
    ExpectedValue(Location),
    ExpectedAssign(Location),
    UnexpectedToken(Location),
}

/// What the scanner finds next.
#[derive(Debug, Copy, Clone, PartialEq, Eq, Structural)]
pub enum Token {
    Unknown(Error),
    Assign,
    /// A run of letters and digits: where it starts and where it ends.
    Literal(usize, usize),
    EndOfInput,
}

/// A key and its value, both slices of the input.
#[derive(Debug, Copy, Clone, PartialEq, Eq)]
pub struct KeyValue<'a, C> where C: Char {
    pub key: &'a [C],
    pub value: &'a [C],
}

/// First index from `i` on that holds a newline, or the end.
pub open spec fn line_end<C: CharKind>(input: Seq<C>, i: int) -> int
    decreases input.len() - i,
{
    if i < 0 || i >= input.len() || input[i].spec_kind() == Symbol::Newline {
        i
    } else {
        line_end(input, i + 1)
    }
}

/// First index from `i` on that holds neither a letter nor a digit, or the
/// end.
pub open spec fn word_end<C: CharKind>(input: Seq<C>, i: int) -> int
    decreases input.len() - i,
{
    if i < 0 || i >= input.len() || !(input[i].spec_kind() == Symbol::Letter || input[i].spec_kind()
        == Symbol::KeyChar) {
        i
    } else {
        word_end(input, i + 1)
    }
}

pub proof fn lemma_line_end<C: CharKind>(input: Seq<C>, i: int)
    requires
        0 <= i <= input.len(),
    ensures
        i <= line_end(input, i) <= input.len(),
        line_end(input, i) < input.len() ==> input[line_end(input, i)].spec_kind()
            == Symbol::Newline,
        forall|j: int| i <= j < line_end(input, i) ==> input[j].spec_kind() != Symbol::Newline,
    decreases input.len() - i,
{
    if i < input.len() && input[i].spec_kind() != Symbol::Newline {
        lemma_line_end(input, i + 1);
    }
}

pub proof fn lemma_word_end<C: CharKind>(input: Seq<C>, i: int)
    requires
        0 <= i <= input.len(),
    ensures
        i <= word_end(input, i) <= input.len(),
    decreases input.len() - i,
{
    if i < input.len() && (input[i].spec_kind() == Symbol::Letter || input[i].spec_kind()
        == Symbol::KeyChar) {
        lemma_word_end(input, i + 1);
    }
}

/// The scanner, started at `start`, now at `loc` with `tok` found so far:
/// the token it returns and where it stops. Blanks, newlines and comments
/// are skipped.
pub open spec fn scan<C: CharKind>(input: Seq<C>, start: Location, loc: Location, tok: Token) -> (
    Token,
    Location,
)
    decreases input.len() - loc.pos,
    via scan_decreases::<C>
{
    let len = input.len();
    let p = loc.pos as int;
    if p >= len || len >= usize::MAX {
        (tok, loc)
    } else {
        match input[p].spec_kind() {
            Symbol::Null => (Token::EndOfInput, loc),
            Symbol::Newline => scan(input, start, next_line(loc), tok),
            Symbol::Whitespace => scan(input, start, moved(loc, 1), tok),
            Symbol::Assign => (Token::Assign, moved(loc, 1)),
            Symbol::Hash => scan(input, start, moved(loc, line_end(input, p + 1) - p), tok),
            Symbol::Letter | Symbol::KeyChar => (
                Token::Literal(p as usize, word_end(input, p + 1) as usize),
                moved(loc, word_end(input, p + 1) - p),
            ),
            _ => (Token::Unknown(Error::UnexpectedToken(start)), loc),
        }
    }
}

#[via_fn]
proof fn scan_decreases<C: CharKind>(input: Seq<C>, start: Location, loc: Location, tok: Token) {
    let len = input.len();
    let p = loc.pos as int;
    if p < len && len < usize::MAX {
        lemma_line_end(input, p + 1);
    }
}

/// The next token from `loc` and where the scanner stops.
pub open spec fn next_token<C: CharKind>(input: Seq<C>, loc: Location) -> (Token, Location) {
    if loc.pos >= input.len() {
        (Token::EndOfInput, loc)
    } else {
        scan(input, loc, loc, Token::EndOfInput)
    }
}

/// What `parse` yields from `loc`: nothing at the end of the input, the
/// positions of a key and its value, or an error; and where it stops.
pub open spec fn parse_from<C: CharKind>(input: Seq<C>, loc: Location) -> (
    Result<Option<(int, int, int, int)>, Error>,
    Location,
) {
    let (t1, l1) = next_token(input, loc);
    match t1 {
        Token::EndOfInput => (Ok(None), l1),
        Token::Literal(start_key, end_key) => {
            let (t2, l2) = next_token(input, l1);
            match t2 {
                Token::Assign => {
                    let (t3, l3) = next_token(input, l2);
                    match t3 {
                        Token::Literal(start_value, end_value) => (
                            Ok(
                                Some(
                                    (
                                        start_key as int,
                                        end_key as int,
                                        start_value as int,
                                        end_value as int,
                                    ),
                                ),
                            ),
                            l3,
                        ),
                        _ => (Err(Error::UnexpectedToken(l3)), l3),
                    }
                },
                _ => (Err(Error::ExpectedAssign(l2)), l2),
            }
        },
        _ => (Err(Error::UnexpectedToken(l1)), l1),
    }
}

/// `r` is the outcome `o` for `input`.
pub open spec fn outcome_matches<'a, C: CharKind>(
    r: Result<Option<KeyValue<'a, C>>, Error>,
    o: Result<Option<(int, int, int, int)>, Error>,
    input: Seq<C>,
) -> bool {
    match o {
        Ok(None) => r is Ok && r->Ok_0 is None,
        Ok(Some((ks, ke, vs, ve))) => r is Ok && r->Ok_0 is Some && r->Ok_0->Some_0.key@
            == input.subrange(ks, ke) && r->Ok_0->Some_0.value@ == input.subrange(vs, ve),
        Err(e) => r == Err::<Option<KeyValue<'a, C>>, Error>(e),
    }
}

/// A place the parser can be at in input of `len` characters.
pub open spec fn location_ok(l: Location, len: int) -> bool {
    &&& l.pos <= len
    &&& 1 <= l.line <= l.pos + 1
    &&& 1 <= l.col <= l.pos + 1
}

/// The positions a token holds lie in the input, in order.
pub open spec fn token_ok(t: Token, len: int) -> bool {
    match t {
        Token::Literal(s, e) => s < e <= len,
        _ => true,
    }
}

/// Reads key-value pairs from `input`, one per call of `parse`.
pub struct Parser<'a, C> where C: Char {
    location: Location,
    input: &'a [C],
}

impl<'a, C> Parser<'a, C> where C: Char + CharKind + Copy {
    pub closed spec fn wf(&self) -> bool {
        &&& self.input@.len() < usize::MAX
        &&& location_ok(self.location, self.input@.len() as int)
    }

    pub closed spec fn spec_input(&self) -> Seq<C> {
        self.input@
    }

    pub closed spec fn spec_location(&self) -> Location {
        self.location
    }

    /// A parser at the start of `input`.
    pub fn new(input: &'a [C]) -> (r: Self)
        requires
            input@.len() < usize::MAX,
        ensures
            r.wf(),
            r.spec_input() == input@,
            r.spec_location() == (Location { line: 1, col: 1, pos: 0 }),
    {
        Self { location: Location::default(), input }
    }

    /// Scans the next token and moves past it.
    fn parse_token(&mut self) -> (tok: Token)
        requires
            old(self).wf(),
        ensures
            final(self).wf(),
            final(self).input == old(self).input,
            (tok, final(self).location) == next_token(old(self).input@, old(self).location),
            token_ok(tok, old(self).input@.len() as int),
    {
        let start = self.location;
        let len = self.input.len();
        if start.pos >= len {
            return Token::EndOfInput;
        }
        let ghost input = self.input@;
        let ghost result = next_token(input, start);
        let mut tok = Token::EndOfInput;
        let mut loc = start;
        let mut done = false;
        while !done && loc.pos < len
            invariant
                self.wf(),
                self.input@ == input,
                self.location == start,
                len == input.len(),
                len < usize::MAX,
                result == next_token(input, start),
                start.pos < len,
                location_ok(loc, len as int),
                token_ok(tok, len as int),
                done ==> (tok, loc) == result,
                !done ==> scan(input, start, loc, tok) == result,
            decreases (len - loc.pos) * 2 + if done {
                0int
            } else {
                1int
            },
        {
            let p = loc.pos;
            proof {
                assert(scan(input, start, loc, tok) == result);
            }
            match self.input[p].kind() {
                Symbol::Null => {
                    tok = Token::EndOfInput;
                    done = true;
                },
                Symbol::Newline => {
                    loc.new_line();
                },
                Symbol::Whitespace => {
                    loc.advance();
                },
                Symbol::Assign => {
                    loc.advance();
                    tok = Token::Assign;
                    done = true;
                },
                Symbol::Hash => {
                    let ghost at_hash = loc;
                    proof {
                        lemma_line_end(input, p + 1);
                    }
                    let ghost e = line_end(input, p + 1);
                    loc.advance();
                    while loc.pos < len && self.input[loc.pos].kind() != Symbol::Newline
                        invariant
                            self.wf(),
                            self.input@ == input,
                            len == input.len(),
                            len < usize::MAX,
                            p + 1 <= loc.pos <= e,
                            e <= len,
                            e < len ==> input[e].spec_kind() == Symbol::Newline,
                            forall|j: int| p + 1 <= j < e ==> input[j].spec_kind() != Symbol::Newline,
                            loc == moved(at_hash, loc.pos - p),
                            location_ok(at_hash, len as int),
                            at_hash.pos == p,
                        decreases len - loc.pos,
                    {
                        loc.advance();
                    }
                },
                Symbol::Letter | Symbol::KeyChar => {
                    let start_loc = loc;
                    proof {
                        lemma_word_end(input, p + 1);
                    }
                    let ghost e = word_end(input, p + 1);
                    loc.advance();
                    while loc.pos < len && (self.input[loc.pos].kind() == Symbol::Letter
                        || self.input[loc.pos].kind() == Symbol::KeyChar)
                        invariant
                            self.wf(),
                            self.input@ == input,
                            len == input.len(),
                            len < usize::MAX,
                            p + 1 <= loc.pos <= e,
                            e <= len,
                            word_end(input, loc.pos as int) == e,
                            loc == moved(start_loc, loc.pos - p),
                            location_ok(start_loc, len as int),
                            start_loc.pos == p,
                        decreases len - loc.pos,
                    {
                        proof {
                            lemma_word_end(input, loc.pos + 1);
                        }
                        loc.advance();
                    }
                    tok = Token::Literal(start_loc.pos, loc.pos);
                    done = true;
                },
                _ => {
                    tok = Token::Unknown(Error::UnexpectedToken(start));
                    done = true;
                },
            }
        }
        self.location = loc;
        tok
    }

    /// The next key-value pair: `Ok(None)` at the end of the input, or an
    /// error where the input is not a key, `=` and a value.
    pub fn parse(&mut self) -> (r: Result<Option<KeyValue<'a, C>>, Error>)
        requires
            old(self).wf(),
        ensures
            final(self).wf(),
            final(self).spec_input() == old(self).spec_input(),
            final(self).spec_location() == parse_from(
                old(self).spec_input(),
                old(self).spec_location(),
            ).1,
            outcome_matches(
                r,
                parse_from(old(self).spec_input(), old(self).spec_location()).0,
                old(self).spec_input(),
            ),
    {
        match self.parse_token() {
            Token::EndOfInput => Ok(None),
            Token::Literal(start_key, end_key) => {
                let token = self.parse_token();
                if !matches!(token, Token::Assign) {
                    return Err(Error::ExpectedAssign(self.location));
                }
                let token = self.parse_token();
                match token {
                    Token::Literal(start_value, end_value) => Ok(
                        Some(
                            KeyValue {
                                key: vstd::slice::slice_subrange(self.input, start_key, end_key),
                                value: vstd::slice::slice_subrange(
                                    self.input,
                                    start_value,
                                    end_value,
                                ),
                            },
                        ),
                    ),
                    _ => Err(Error::UnexpectedToken(self.location)),
                }
            },
            _ => Err(Error::UnexpectedToken(self.location)),
        }
    }
}

} // verus!
