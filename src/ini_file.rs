//! The tiniest parser for the simplest form of ini files.
//!
//! Everything after `#` is a comment up to the end of the line. Well-formed
//! input consists of lines each of which carries a key-value pair delimited
//! with `=`:
//!
//! ```text
//! brick_c.o.u.n.t-0 = "infinite infinity"
//! brick_density = 1000e10
//! ```
//!
//! A key starts with a letter and goes on with letters, digits, `_`, `.`
//! and `-`; a value is either such a run or text in double quotes on one
//! line. The caller calls [`Parser::parse`] until it returns an error or
//! `Ok(None)` at the end of the input; what the keys mean is up to it.

use vstd::prelude::*;
use vstd::string::StrSliceExecFns;

verus! {

/// What the parser makes of one character of the input.
#[derive(Debug, Copy, Clone, PartialEq, Eq, Structural)]
pub enum Symbol {
    /// `\0`: the input ends here.
    Null,
    /// `\n`.
    Newline,
    /// Any other character from `\t` to ` `.
    Whitespace,
    /// `=`.
    Assign,
    /// `#`: a comment starts.
    Hash,
    /// `"`.
    Quote,
    /// A letter: may start a key and goes on one.
    Letter,
    /// A digit, `_`, `.` or `-`: goes on a key or a value.
    KeyChar,
    /// Anything else.
    Other,
}

/// Marks the kinds of text the parser reads and hands back slices of.
pub trait InputSlice {

}

impl<'a> InputSlice for &'a [u8] {

}

impl<'a> InputSlice for &'a str {

}

/// Input the parser can read: a sequence of characters, each of which has
/// a [`Symbol`], and which can be sliced.
pub trait Input: Copy + InputSlice + Sized {
    /// The input as characters.
    spec fn chars(&self) -> Seq<char>;

    /// What the character at `index` is to the parser.
    spec fn symbol_at(&self, index: int) -> Symbol;

    /// Number of characters.
    fn count(self) -> (r: usize)
        ensures
            r == self.chars().len(),
    ;

    /// The characters `start .. end`.
    fn slice(self, start: usize, end: usize) -> (r: Self)
        requires
            start <= end <= self.chars().len(),
        ensures
            r.chars() == self.chars().subrange(start as int, end as int),
    ;

    /// What the character at `index` is to the parser.
    fn symbol(self, index: usize) -> (r: Symbol)
        requires
            index < self.chars().len(),
        ensures
            r == self.symbol_at(index as int),
    ;
}

/// The class of an ASCII byte.
pub open spec fn byte_symbol(b: u8) -> Symbol {
    if b == 0 {
        Symbol::Null
    } else if b == 10 {
        Symbol::Newline
    } else if 9 <= b <= 32 {
        Symbol::Whitespace
    } else if b == 61 {
        Symbol::Assign
    } else if b == 35 {
        Symbol::Hash
    } else if b == 34 {
        Symbol::Quote
    } else if (65 <= b <= 90) || (97 <= b <= 122) {
        Symbol::Letter
    } else if (48 <= b <= 57) || b == 95 || b == 46 || b == 45 {
        Symbol::KeyChar
    } else {
        Symbol::Other
    }
}

fn classify_byte(b: u8) -> (r: Symbol)
    ensures
        r == byte_symbol(b),
{
    if b == 0 {
        Symbol::Null
    } else if b == 10 {
        // '\n'
        Symbol::Newline
    } else if 9 <= b && b <= 32 {
        // '\t' ..= ' '
        Symbol::Whitespace
    } else if b == 61 {
        // '='
        Symbol::Assign
    } else if b == 35 {
        // '#'
        Symbol::Hash
    } else if b == 34 {
        // '"'
        Symbol::Quote
    } else if (65 <= b && b <= 90) || (97 <= b && b <= 122) {
        // 'A' ..= 'Z', 'a' ..= 'z'
        Symbol::Letter
    } else if (48 <= b && b <= 57) || b == 95 || b == 46 || b == 45 {
        // '0' ..= '9', '_', '.', '-'
        Symbol::KeyChar
    } else {
        Symbol::Other
    }
}

/// `c` has the Unicode `Alphabetic` property.
pub uninterp spec fn alphabetic(c: char) -> bool;

/// `c` is in one of the Unicode numeric categories.
pub uninterp spec fn numeric(c: char) -> bool;

/// Relies on `char::is_alphabetic`: whether `c` has the Unicode
/// `Alphabetic` property, a function of `c` alone.
#[verifier::external_body]
pub(crate) fn is_alphabetic(c: char) -> (r: bool)
    ensures
        r == alphabetic(c),
{
    c.is_alphabetic()
}

/// Relies on `char::is_numeric`: whether `c` is in a Unicode numeric
/// category, a function of `c` alone.
#[verifier::external_body]
pub(crate) fn is_numeric(c: char) -> (r: bool)
    ensures
        r == numeric(c),
{
    c.is_numeric()
}

/// The class of a character.
pub open spec fn char_symbol(c: char) -> Symbol {
    if c == '\0' {
        Symbol::Null
    } else if c == '\n' {
        Symbol::Newline
    } else if '\t' <= c <= ' ' {
        Symbol::Whitespace
    } else if c == '=' {
        Symbol::Assign
    } else if c == '#' {
        Symbol::Hash
    } else if c == '"' {
        Symbol::Quote
    } else if alphabetic(c) {
        Symbol::Letter
    } else if numeric(c) || c == '_' || c == '.' || c == '-' {
        Symbol::KeyChar
    } else {
        Symbol::Other
    }
}

fn classify_char(c: char) -> (r: Symbol)
    ensures
        r == char_symbol(c),
{
    if c == '\0' {
        Symbol::Null
    } else if c == '\n' {
        Symbol::Newline
    } else if '\t' <= c && c <= ' ' {
        Symbol::Whitespace
    } else if c == '=' {
        Symbol::Assign
    } else if c == '#' {
        Symbol::Hash
    } else if c == '"' {
        Symbol::Quote
    } else if is_alphabetic(c) {
        Symbol::Letter
    } else if is_numeric(c) || c == '_' || c == '.' || c == '-' {
        Symbol::KeyChar
    } else {
        Symbol::Other
    }
}

impl<'a> Input for &'a [u8] {
    open spec fn chars(&self) -> Seq<char> {
        self@.map_values(|b: u8| b as char)
    }

    open spec fn symbol_at(&self, index: int) -> Symbol {
        byte_symbol(self@[index])
    }

    fn count(self) -> (r: usize) {
        self.len()
    }

    fn slice(self, start: usize, end: usize) -> (r: &'a [u8]) {
        let r = vstd::slice::slice_subrange(self, start, end);
        assert(r.chars() =~= self.chars().subrange(start as int, end as int));
        r
    }

    fn symbol(self, index: usize) -> (r: Symbol) {
        classify_byte(self[index])
    }
}

impl<'a> Input for &'a str {
    open spec fn chars(&self) -> Seq<char> {
        self@
    }

    open spec fn symbol_at(&self, index: int) -> Symbol {
        char_symbol(self@[index])
    }

    fn count(self) -> (r: usize) {
        self.unicode_len()
    }

    fn slice(self, start: usize, end: usize) -> (r: &'a str) {
        self.substring_char(start, end)
    }

    fn symbol(self, index: usize) -> (r: Symbol) {
        classify_char(self.get_char(index))
    }
}

/// A place in the input: line and column, counted from 1, and the index of
/// the character.
#[derive(Debug, Copy, Clone, PartialEq, Eq, Structural)]
pub struct Location {
    pub line: usize,
    pub col: usize,
    pub pos: usize,
}

impl Default for Location {
    fn default() -> (r: Self)
        ensures
            r == (Location { line: 1, col: 1, pos: 0 }),
    {
        Self { line: 1, col: 1, pos: 0 }
    }
}

/// The place after a newline at `l`.
pub open spec fn next_line(l: Location) -> Location {
    Location { line: (l.line + 1) as usize, col: 1, pos: (l.pos + 1) as usize }
}

/// The place `n` characters further on the same line as `l`.
pub open spec fn moved(l: Location, n: int) -> Location {
    Location { line: l.line, col: (l.col + n) as usize, pos: (l.pos + n) as usize }
}

impl Location {
    /// Steps over a newline.
    pub fn new_line(&mut self)
        requires
            old(self).line < usize::MAX,
            old(self).pos < usize::MAX,
        ensures
            *final(self) == next_line(*old(self)),
    {
        self.col = 1;
        self.line += 1;
        self.pos += 1;
    }

    /// Steps over a character other than a newline.
    pub fn advance(&mut self)
        requires
            old(self).col < usize::MAX,
            old(self).pos < usize::MAX,
        ensures
            *final(self) == moved(*old(self), 1),
    {
        self.col += 1;
        self.pos += 1;
    }
}

/// Why the input could not be parsed, and where.
#[derive(Debug, Copy, Clone, PartialEq, Eq, Structural)]
pub enum Error {
    ExpectedKey(Location),
    ExpectedValue(Location),
    ExpectedAssign(Location),
    UnexpectedToken(Location),
    UnmatchedQuote(Location),
    InvalidKeyName(Location),
}

/// What the scanner finds next.
#[derive(Debug, Copy, Clone, PartialEq, Eq, Structural)]
pub enum Token {
    Unknown(Error),
    Assign(Location),
    /// A run of letters, digits, `_`, `.` and `-`, from its start to just
    /// past its end.
    Literal(Location, Location),
    /// Text between double quotes, without them.
    Quoted(Location, Location),
    EndOfInput(Location),
}

/// A key and its value, both slices of the input.
#[derive(Debug, Copy, Clone, PartialEq, Eq)]
pub struct KeyValue<S> where S: InputSlice {
    pub key: S,
    pub value: S,
}

/// First index from `i` on that holds a newline, or the end.
pub open spec fn line_end<I: Input>(input: I, i: int) -> int
    decreases input.chars().len() - i,
{
    if i < 0 || i >= input.chars().len() || input.symbol_at(i) == Symbol::Newline {
        i
    } else {
        line_end(input, i + 1)
    }
}

/// First index from `i` on that holds a double quote or a newline, or the
/// end.
pub open spec fn quote_end<I: Input>(input: I, i: int) -> int
    decreases input.chars().len() - i,
{
    if i < 0 || i >= input.chars().len() || input.symbol_at(i) == Symbol::Newline
        || input.symbol_at(i) == Symbol::Quote {
        i
    } else {
        quote_end(input, i + 1)
    }
}

/// A character that goes on a key or a bare value.
pub open spec fn is_key_symbol(s: Symbol) -> bool {
    s == Symbol::Letter || s == Symbol::KeyChar
}

/// First index from `i` on that holds no key character, or the end.
pub open spec fn key_end<I: Input>(input: I, i: int) -> int
    decreases input.chars().len() - i,
{
    if i < 0 || i >= input.chars().len() || !is_key_symbol(input.symbol_at(i)) {
        i
    } else {
        key_end(input, i + 1)
    }
}

/// The scanner, started at `start`, now at `loc` with `tok` found so far:
/// the token it returns and where it stops. Blanks, newlines and comments
/// are skipped; a double quote left open at the end of its line is skipped
/// too, but is reported as the token unless a later one replaces it.
pub open spec fn scan<I: Input>(input: I, start: Location, loc: Location, tok: Token) -> (Token, Location)
    decreases input.chars().len() - loc.pos,
    via scan_decreases::<I>
{
    let len = input.chars().len();
    let p = loc.pos as int;
    if p >= len || len >= usize::MAX {
        (tok, loc)
    } else {
        match input.symbol_at(p) {
            Symbol::Null => (tok, loc),
            Symbol::Newline => scan(input, start, next_line(loc), tok),
            Symbol::Whitespace => scan(input, start, moved(loc, 1), tok),
            Symbol::Assign => (Token::Assign(start), moved(loc, 1)),
            Symbol::Hash => scan(input, start, moved(loc, line_end(input, p + 1) - p), tok),
            Symbol::Quote => {
                let q = quote_end(input, p + 1);
                if q < len && input.symbol_at(q) == Symbol::Quote {
                    (Token::Quoted(moved(loc, 1), moved(loc, q - p)), moved(loc, q - p + 1))
                } else {
                    scan(
                        input,
                        start,
                        moved(loc, q - p),
                        Token::Unknown(Error::UnmatchedQuote(start)),
                    )
                }
            },
            Symbol::Letter | Symbol::KeyChar => (
                Token::Literal(loc, moved(loc, key_end(input, p + 1) - p)),
                moved(loc, key_end(input, p + 1) - p),
            ),
            Symbol::Other => (Token::Unknown(Error::UnexpectedToken(start)), loc),
        }
    }
}

#[via_fn]
proof fn scan_decreases<I: Input>(input: I, start: Location, loc: Location, tok: Token) {
    let len = input.chars().len();
    let p = loc.pos as int;
    if p < len && len < usize::MAX {
        lemma_line_end(input, p + 1);
        lemma_quote_end(input, p + 1);
    }
}

pub proof fn lemma_line_end<I: Input>(input: I, i: int)
    requires
        0 <= i <= input.chars().len(),
    ensures
        i <= line_end(input, i) <= input.chars().len(),
        line_end(input, i) < input.chars().len() ==> input.symbol_at(line_end(input, i))
            == Symbol::Newline,
        forall|j: int| i <= j < line_end(input, i) ==> input.symbol_at(j) != Symbol::Newline,
    decreases input.chars().len() - i,
{
    if i < input.chars().len() && input.symbol_at(i) != Symbol::Newline {
        lemma_line_end(input, i + 1);
    }
}

pub proof fn lemma_quote_end<I: Input>(input: I, i: int)
    requires
        0 <= i <= input.chars().len(),
    ensures
        i <= quote_end(input, i) <= input.chars().len(),
        quote_end(input, i) < input.chars().len() ==> (input.symbol_at(quote_end(input, i))
            == Symbol::Newline || input.symbol_at(quote_end(input, i)) == Symbol::Quote),
        forall|j: int|
            i <= j < quote_end(input, i) ==> input.symbol_at(j) != Symbol::Newline
                && input.symbol_at(j) != Symbol::Quote,
    decreases input.chars().len() - i,
{
    if i < input.chars().len() && input.symbol_at(i) != Symbol::Newline && input.symbol_at(i)
        != Symbol::Quote {
        lemma_quote_end(input, i + 1);
    }
}

pub proof fn lemma_key_end<I: Input>(input: I, i: int)
    requires
        0 <= i <= input.chars().len(),
    ensures
        i <= key_end(input, i) <= input.chars().len(),
        key_end(input, i) < input.chars().len() ==> !is_key_symbol(
            input.symbol_at(key_end(input, i)),
        ),
    decreases input.chars().len() - i,
{
    if i < input.chars().len() && is_key_symbol(input.symbol_at(i)) {
        lemma_key_end(input, i + 1);
    }
}

/// The scanner never moves back, and a key or value it finds lies past
/// where it started.
pub proof fn lemma_scan_progress<I: Input>(input: I, start: Location, loc: Location, tok: Token)
    requires
        loc.pos <= input.chars().len(),
        !(tok is Literal),
    ensures
        scan(input, start, loc, tok).1.pos >= loc.pos,
        scan(input, start, loc, tok).0 is Literal ==> scan(input, start, loc, tok).1.pos > loc.pos,
    decreases input.chars().len() - loc.pos,
{
    let len = input.chars().len();
    let p = loc.pos as int;
    if p < len && len < usize::MAX {
        lemma_line_end(input, p + 1);
        lemma_quote_end(input, p + 1);
        lemma_key_end(input, p + 1);
        match input.symbol_at(p) {
            Symbol::Newline => lemma_scan_progress(input, start, next_line(loc), tok),
            Symbol::Whitespace => lemma_scan_progress(input, start, moved(loc, 1), tok),
            Symbol::Hash => lemma_scan_progress(
                input,
                start,
                moved(loc, line_end(input, p + 1) - p),
                tok,
            ),
            Symbol::Quote => {
                let q = quote_end(input, p + 1);
                if !(q < len && input.symbol_at(q) == Symbol::Quote) {
                    lemma_scan_progress(
                        input,
                        start,
                        moved(loc, q - p),
                        Token::Unknown(Error::UnmatchedQuote(start)),
                    );
                }
            },
            _ => {},
        }
    }
}

/// `parse` moves forward, and past anything it returns.
pub proof fn lemma_parse_progress<I: Input>(input: I, loc: Location)
    requires
        loc.pos <= input.chars().len(),
    ensures
        parse_from(input, loc).1.pos >= loc.pos,
        parse_from(input, loc).0 is Ok && parse_from(input, loc).0->Ok_0 is Some ==> parse_from(
            input,
            loc,
        ).1.pos > loc.pos,
{
    if loc.pos < input.chars().len() {
        lemma_scan_progress(input, loc, loc, Token::EndOfInput(loc));
    }
    let l1 = next_token(input, loc).1;
    if l1.pos <= input.chars().len() && l1.pos < input.chars().len() {
        lemma_scan_progress(input, l1, l1, Token::EndOfInput(l1));
        let l2 = next_token(input, l1).1;
        if l2.pos < input.chars().len() {
            lemma_scan_progress(input, l2, l2, Token::EndOfInput(l2));
        }
    }
}

/// The next token from `loc` and where the scanner stops.
pub open spec fn next_token<I: Input>(input: I, loc: Location) -> (Token, Location) {
    if loc.pos >= input.chars().len() {
        (Token::EndOfInput(loc), loc)
    } else {
        scan(input, loc, loc, Token::EndOfInput(loc))
    }
}

/// What `parse` yields from `loc`: nothing at the end of the input, the
/// positions of a key and its value, or an error; and where it stops.
pub open spec fn parse_from<I: Input>(input: I, loc: Location) -> (
    Result<Option<(int, int, int, int)>, Error>,
    Location,
) {
    let (t1, l1) = next_token(input, loc);
    match t1 {
        Token::EndOfInput(_) => (Ok(None), l1),
        Token::Literal(start_key, end_key) => {
            if input.symbol_at(start_key.pos as int) != Symbol::Letter {
                (Err(Error::InvalidKeyName(start_key)), l1)
            } else {
                let (t2, l2) = next_token(input, l1);
                match t2 {
                    Token::Assign(_) => {
                        let (t3, l3) = next_token(input, l2);
                        match t3 {
                            Token::Literal(start_value, end_value) => (
                                Ok(
                                    Some(
                                        (
                                            start_key.pos as int,
                                            end_key.pos as int,
                                            start_value.pos as int,
                                            end_value.pos as int,
                                        ),
                                    ),
                                ),
                                l3,
                            ),
                            Token::Quoted(start_value, end_value) => (
                                Ok(
                                    Some(
                                        (
                                            start_key.pos as int,
                                            end_key.pos as int,
                                            start_value.pos as int,
                                            end_value.pos as int,
                                        ),
                                    ),
                                ),
                                l3,
                            ),
                            _ => (Err(Error::UnexpectedToken(l3)), l3),
                        }
                    },
                    _ => (Err(Error::ExpectedAssign(l2)), l2),
                }
            }
        },
        _ => (Err(Error::UnexpectedToken(l1)), l1),
    }
}

/// `r` is the outcome `o` for `input`: the key and value it returns are
/// the characters at the positions `o` gives.
pub open spec fn outcome_matches<I: Input>(
    r: Result<Option<KeyValue<I>>, Error>,
    o: Result<Option<(int, int, int, int)>, Error>,
    input: I,
) -> bool {
    match o {
        Ok(None) => r is Ok && r->Ok_0 is None,
        Ok(Some((ks, ke, vs, ve))) => r is Ok && r->Ok_0 is Some && r->Ok_0->Some_0.key.chars()
            == input.chars().subrange(ks, ke) && r->Ok_0->Some_0.value.chars()
            == input.chars().subrange(vs, ve),
        Err(e) => r == Err::<Option<KeyValue<I>>, Error>(e),
    }
}

/// A place the parser can be at in input of `len` characters.
pub open spec fn location_ok(l: Location, len: int) -> bool {
    &&& l.pos <= len
    &&& 1 <= l.line <= l.pos + 1
    &&& 1 <= l.col <= l.pos + 1
}

/// The positions a token holds lie in the input, in order.
pub open spec fn token_ok(t: Token, len: int) -> bool {
    match t {
        Token::Literal(s, e) => s.pos < e.pos <= len,
        Token::Quoted(s, e) => s.pos <= e.pos <= len,
        _ => true,
    }
}

/// Reads key-value pairs from `input`, one per call of `parse`.
pub struct Parser<I> where I: Copy + InputSlice + Input {
    location: Location,
    input: I,
    input_len: usize,
}

impl<I> Parser<I> where I: Copy + InputSlice + Input {
    pub closed spec fn wf(&self) -> bool {
        &&& self.input_len == self.input.chars().len()
        &&& self.input_len < usize::MAX
        &&& location_ok(self.location, self.input_len as int)
    }

    pub closed spec fn spec_input(&self) -> I {
        self.input
    }

    pub closed spec fn spec_location(&self) -> Location {
        self.location
    }

    /// A parser at the start of `input`.
    pub fn new(input: I) -> (r: Self)
        requires
            input.chars().len() < usize::MAX,
        ensures
            r.wf(),
            r.spec_input() == input,
            r.spec_location() == (Location { line: 1, col: 1, pos: 0 }),
    {
        Self { location: Location::default(), input, input_len: input.count() }
    }

    /// Scans the next token and moves past it.
    fn parse_token(&mut self) -> (tok: Token)
        requires
            old(self).wf(),
        ensures
            final(self).wf(),
            final(self).input == old(self).input,
            (tok, final(self).location) == next_token(old(self).input, old(self).location),
            token_ok(tok, old(self).input_len as int),
    {
        let start = self.location;
        let len = self.input_len;
        if start.pos >= len {
            return Token::EndOfInput(start);
        }
        let ghost input = self.input;
        let ghost result = next_token(input, start);
        let mut tok = Token::EndOfInput(start);
        let mut loc = start;
        let mut done = false;
        while !done && loc.pos < len
            invariant
                self.wf(),
                self.input == input,
                self.location == start,
                len == self.input_len,
                len == input.chars().len(),
                len < usize::MAX,
                result == next_token(input, start),
                start.pos < len,
                location_ok(loc, len as int),
                token_ok(tok, len as int),
                done ==> (tok, loc) == result,
                !done ==> scan(input, start, loc, tok) == result,
            decreases (len - loc.pos) * 2 + if done {
                0int
            } else {
                1int
            },
        {
            let p = loc.pos;
            proof {
                assert(scan(input, start, loc, tok) == result);
            }
            match self.input.symbol(p) {
                Symbol::Null => {
                    done = true;
                },
                Symbol::Newline => {
                    loc.new_line();
                },
                Symbol::Whitespace => {
                    loc.advance();
                },
                Symbol::Assign => {
                    loc.advance();
                    tok = Token::Assign(start);
                    done = true;
                },
                Symbol::Hash => {
                    let ghost at_hash = loc;
                    proof {
                        lemma_line_end(input, p + 1);
                    }
                    let ghost e = line_end(input, p + 1);
                    loc.advance();
                    while loc.pos < len && self.input.symbol(loc.pos) != Symbol::Newline
                        invariant
                            self.wf(),
                            self.input == input,
                            len == self.input_len,
                            len == input.chars().len(),
                            len < usize::MAX,
                            p + 1 <= loc.pos <= e,
                            e <= len,
                            e < len ==> input.symbol_at(e) == Symbol::Newline,
                            forall|j: int| p + 1 <= j < e ==> input.symbol_at(j) != Symbol::Newline,
                            loc == moved(at_hash, loc.pos - p),
                            location_ok(at_hash, len as int),
                            at_hash.pos == p,
                        decreases len - loc.pos,
                    {
                        loc.advance();
                    }
                },
                Symbol::Quote => {
                    let ghost at_quote = loc;
                    proof {
                        lemma_quote_end(input, p + 1);
                    }
                    let ghost q = quote_end(input, p + 1);
                    tok = Token::Unknown(Error::UnmatchedQuote(start));
                    loc.advance();
                    let start_loc = loc;
                    while loc.pos < len && self.input.symbol(loc.pos) != Symbol::Quote
                        && self.input.symbol(loc.pos) != Symbol::Newline
                        invariant
                            self.wf(),
                            self.input == input,
                            len == self.input_len,
                            len == input.chars().len(),
                            len < usize::MAX,
                            p + 1 <= loc.pos <= q,
                            q <= len,
                            q < len ==> (input.symbol_at(q) == Symbol::Newline || input.symbol_at(q)
                                == Symbol::Quote),
                            forall|j: int|
                                p + 1 <= j < q ==> input.symbol_at(j) != Symbol::Newline
                                    && input.symbol_at(j) != Symbol::Quote,
                            loc == moved(at_quote, loc.pos - p),
                            start_loc == moved(at_quote, 1),
                            location_ok(at_quote, len as int),
                            at_quote.pos == p,
                        decreases len - loc.pos,
                    {
                        loc.advance();
                    }
                    if loc.pos < len && self.input.symbol(loc.pos) == Symbol::Quote {
                        tok = Token::Quoted(start_loc, loc);
                        loc.advance();
                        done = true;
                    }
                },
                Symbol::Letter | Symbol::KeyChar => {
                    let start_loc = loc;
                    proof {
                        lemma_key_end(input, p + 1);
                    }
                    let ghost e = key_end(input, p + 1);
                    loc.advance();
                    while loc.pos < len && (self.input.symbol(loc.pos) == Symbol::Letter
                        || self.input.symbol(loc.pos) == Symbol::KeyChar)
                        invariant
                            self.wf(),
                            self.input == input,
                            len == self.input_len,
                            len == input.chars().len(),
                            len < usize::MAX,
                            p + 1 <= loc.pos <= e,
                            e <= len,
                            e < len ==> !is_key_symbol(input.symbol_at(e)),
                            key_end(input, loc.pos as int) == e,
                            loc == moved(start_loc, loc.pos - p),
                            location_ok(start_loc, len as int),
                            start_loc.pos == p,
                        decreases len - loc.pos,
                    {
                        loc.advance();
                    }
                    tok = Token::Literal(start_loc, loc);
                    done = true;
                },
                Symbol::Other => {
                    tok = Token::Unknown(Error::UnexpectedToken(start));
                    done = true;
                },
            }
        }
        self.location = loc;
        tok
    }

    /// The next key-value pair: `Ok(None)` at the end of the input, or an
    /// error where the input is not a key, `=` and a value.
    pub fn parse(&mut self) -> (r: Result<Option<KeyValue<I>>, Error>)
        requires
            old(self).wf(),
        ensures
            final(self).wf(),
            final(self).spec_input() == old(self).spec_input(),
            final(self).spec_location() == parse_from(
                old(self).spec_input(),
                old(self).spec_location(),
            ).1,
            final(self).spec_location().pos <= final(self).spec_input().chars().len(),
            old(self).spec_location().pos <= old(self).spec_input().chars().len(),
            outcome_matches(
                r,
                parse_from(old(self).spec_input(), old(self).spec_location()).0,
                old(self).spec_input(),
            ),
    {
        match self.parse_token() {
            Token::EndOfInput(_) => Ok(None),
            Token::Literal(start_key, end_key) => {
                if self.input.symbol(start_key.pos) != Symbol::Letter {
                    return Err(Error::InvalidKeyName(start_key));
                }
                let token = self.parse_token();
                if !matches!(token, Token::Assign(_)) {
                    return Err(Error::ExpectedAssign(self.location));
                }
                let token = self.parse_token();
                match token {
                    Token::Literal(start_value, end_value) => Ok(
                        Some(
                            KeyValue {
                                key: self.input.slice(start_key.pos, end_key.pos),
                                value: self.input.slice(start_value.pos, end_value.pos),
                            },
                        ),
                    ),
                    Token::Quoted(start_value, end_value) => Ok(
                        Some(
                            KeyValue {
                                key: self.input.slice(start_key.pos, end_key.pos),
                                value: self.input.slice(start_value.pos, end_value.pos),
                            },
                        ),
                    ),
                    _ => Err(Error::UnexpectedToken(self.location)),
                }
            },
            _ => Err(Error::UnexpectedToken(self.location)),
        }
    }
}

} // verus!
