use vstd::prelude::*;

use crate::util::str_eq;

verus! {

/// The largest source length the lexer accepts, so that positions, lines and
/// columns can be counted in `usize` without overflow.
pub const MAX_SOURCE_LEN: usize = 0x1000_0000;

/// One token of the source language. Every token carries the one-based
/// `(line, column)` of the position just past its last character.
#[derive(Debug, PartialEq)]
pub enum TokenKind {
    LeftBrace(usize, usize),
    RightBrace(usize, usize),
    LeftParen(usize, usize),
    RightParen(usize, usize),
    LeftBracket(usize, usize),
    RightBracket(usize, usize),
    IntLiteral(String, usize, usize),
    FloatLiteral(String, usize, usize),
    StrLiteral(String, usize, usize),
    IdenLiteral(String, usize, usize),
    Func(usize, usize),
    Mod(usize, usize),
    Use(usize, usize),
    Ret(usize, usize),
    Arrow(usize, usize),
    Colon(usize, usize),
    ColonEq(usize, usize),
    Comma(usize, usize),
    Dot(usize, usize),
    Plus(usize, usize),
    Minus(usize, usize),
    Star(usize, usize),
    Slash(usize, usize),
    True(usize, usize),
    False(usize, usize),
    Bang(usize, usize),
    Greater(usize, usize),
    GreaterEq(usize, usize),
    Less(usize, usize),
    LessEq(usize, usize),
    EqualEqual(usize, usize),
    NotEqual(usize, usize),
    And(usize, usize),
    Or(usize, usize),
    Equal(usize, usize),
    For(usize, usize),
    In(usize, usize),
    If(usize, usize),
    Else(usize, usize),
    Var(usize, usize),
    ExprDelimiter(usize, usize),
    GetPtr(usize, usize),
    Eof,
}

/// The mathematical value of a token: the same variants with literal texts
/// as character sequences.
pub enum TokenV {
    LeftBrace(usize, usize),
    RightBrace(usize, usize),
    LeftParen(usize, usize),
    RightParen(usize, usize),
    LeftBracket(usize, usize),
    RightBracket(usize, usize),
    IntLiteral(Seq<char>, usize, usize),
    FloatLiteral(Seq<char>, usize, usize),
    StrLiteral(Seq<char>, usize, usize),
    IdenLiteral(Seq<char>, usize, usize),
    Func(usize, usize),
    Mod(usize, usize),
    Use(usize, usize),
    Ret(usize, usize),
    Arrow(usize, usize),
    Colon(usize, usize),
    ColonEq(usize, usize),
    Comma(usize, usize),
    Dot(usize, usize),
    Plus(usize, usize),
    Minus(usize, usize),
    Star(usize, usize),
    Slash(usize, usize),
    True(usize, usize),
    False(usize, usize),
    Bang(usize, usize),
    Greater(usize, usize),
    GreaterEq(usize, usize),
    Less(usize, usize),
    LessEq(usize, usize),
    EqualEqual(usize, usize),
    NotEqual(usize, usize),
    And(usize, usize),
    Or(usize, usize),
    Equal(usize, usize),
    For(usize, usize),
    In(usize, usize),
    If(usize, usize),
    Else(usize, usize),
    Var(usize, usize),
    ExprDelimiter(usize, usize),
    GetPtr(usize, usize),
    Eof,
}

impl View for TokenKind {
    type V = TokenV;

    open spec fn view(&self) -> TokenV {
        match self {
            TokenKind::LeftBrace(a, b) => TokenV::LeftBrace(*a, *b),
            TokenKind::RightBrace(a, b) => TokenV::RightBrace(*a, *b),
            TokenKind::LeftParen(a, b) => TokenV::LeftParen(*a, *b),
            TokenKind::RightParen(a, b) => TokenV::RightParen(*a, *b),
            TokenKind::LeftBracket(a, b) => TokenV::LeftBracket(*a, *b),
            TokenKind::RightBracket(a, b) => TokenV::RightBracket(*a, *b),
            TokenKind::IntLiteral(s, a, b) => TokenV::IntLiteral(s@, *a, *b),
            TokenKind::FloatLiteral(s, a, b) => TokenV::FloatLiteral(s@, *a, *b),
            TokenKind::StrLiteral(s, a, b) => TokenV::StrLiteral(s@, *a, *b),
            TokenKind::IdenLiteral(s, a, b) => TokenV::IdenLiteral(s@, *a, *b),
            TokenKind::Func(a, b) => TokenV::Func(*a, *b),
            TokenKind::Mod(a, b) => TokenV::Mod(*a, *b),
            TokenKind::Use(a, b) => TokenV::Use(*a, *b),
            TokenKind::Ret(a, b) => TokenV::Ret(*a, *b),
            TokenKind::Arrow(a, b) => TokenV::Arrow(*a, *b),
            TokenKind::Colon(a, b) => TokenV::Colon(*a, *b),
            TokenKind::ColonEq(a, b) => TokenV::ColonEq(*a, *b),
            TokenKind::Comma(a, b) => TokenV::Comma(*a, *b),
            TokenKind::Dot(a, b) => TokenV::Dot(*a, *b),
            TokenKind::Plus(a, b) => TokenV::Plus(*a, *b),
            TokenKind::Minus(a, b) => TokenV::Minus(*a, *b),
            TokenKind::Star(a, b) => TokenV::Star(*a, *b),
            TokenKind::Slash(a, b) => TokenV::Slash(*a, *b),
            TokenKind::True(a, b) => TokenV::True(*a, *b),
            TokenKind::False(a, b) => TokenV::False(*a, *b),
            TokenKind::Bang(a, b) => TokenV::Bang(*a, *b),
            TokenKind::Greater(a, b) => TokenV::Greater(*a, *b),
            TokenKind::GreaterEq(a, b) => TokenV::GreaterEq(*a, *b),
            TokenKind::Less(a, b) => TokenV::Less(*a, *b),
            TokenKind::LessEq(a, b) => TokenV::LessEq(*a, *b),
            TokenKind::EqualEqual(a, b) => TokenV::EqualEqual(*a, *b),
            TokenKind::NotEqual(a, b) => TokenV::NotEqual(*a, *b),
            TokenKind::And(a, b) => TokenV::And(*a, *b),
            TokenKind::Or(a, b) => TokenV::Or(*a, *b),
            TokenKind::Equal(a, b) => TokenV::Equal(*a, *b),
            TokenKind::For(a, b) => TokenV::For(*a, *b),
            TokenKind::In(a, b) => TokenV::In(*a, *b),
            TokenKind::If(a, b) => TokenV::If(*a, *b),
            TokenKind::Else(a, b) => TokenV::Else(*a, *b),
            TokenKind::Var(a, b) => TokenV::Var(*a, *b),
            TokenKind::ExprDelimiter(a, b) => TokenV::ExprDelimiter(*a, *b),
            TokenKind::GetPtr(a, b) => TokenV::GetPtr(*a, *b),
            TokenKind::Eof => TokenV::Eof,
        }
    }
}

impl TokenKind {
    /// A copy of this token.
    pub fn duplicate(&self) -> (r: TokenKind)
        ensures
            r@ == self@,
    {
        match self {
            TokenKind::LeftBrace(a, b) => TokenKind::LeftBrace(*a, *b),
            TokenKind::RightBrace(a, b) => TokenKind::RightBrace(*a, *b),
            TokenKind::LeftParen(a, b) => TokenKind::LeftParen(*a, *b),
            TokenKind::RightParen(a, b) => TokenKind::RightParen(*a, *b),
            TokenKind::LeftBracket(a, b) => TokenKind::LeftBracket(*a, *b),
            TokenKind::RightBracket(a, b) => TokenKind::RightBracket(*a, *b),
            TokenKind::IntLiteral(s, a, b) => TokenKind::IntLiteral(s.clone(), *a, *b),
            TokenKind::FloatLiteral(s, a, b) => TokenKind::FloatLiteral(s.clone(), *a, *b),
            TokenKind::StrLiteral(s, a, b) => TokenKind::StrLiteral(s.clone(), *a, *b),
            TokenKind::IdenLiteral(s, a, b) => TokenKind::IdenLiteral(s.clone(), *a, *b),
            TokenKind::Func(a, b) => TokenKind::Func(*a, *b),
            TokenKind::Mod(a, b) => TokenKind::Mod(*a, *b),
            TokenKind::Use(a, b) => TokenKind::Use(*a, *b),
            TokenKind::Ret(a, b) => TokenKind::Ret(*a, *b),
            TokenKind::Arrow(a, b) => TokenKind::Arrow(*a, *b),
            TokenKind::Colon(a, b) => TokenKind::Colon(*a, *b),
            TokenKind::ColonEq(a, b) => TokenKind::ColonEq(*a, *b),
            TokenKind::Comma(a, b) => TokenKind::Comma(*a, *b),
            TokenKind::Dot(a, b) => TokenKind::Dot(*a, *b),
            TokenKind::Plus(a, b) => TokenKind::Plus(*a, *b),
            TokenKind::Minus(a, b) => TokenKind::Minus(*a, *b),
            TokenKind::Star(a, b) => TokenKind::Star(*a, *b),
            TokenKind::Slash(a, b) => TokenKind::Slash(*a, *b),
            TokenKind::True(a, b) => TokenKind::True(*a, *b),
            TokenKind::False(a, b) => TokenKind::False(*a, *b),
            TokenKind::Bang(a, b) => TokenKind::Bang(*a, *b),
            TokenKind::Greater(a, b) => TokenKind::Greater(*a, *b),
            TokenKind::GreaterEq(a, b) => TokenKind::GreaterEq(*a, *b),
            TokenKind::Less(a, b) => TokenKind::Less(*a, *b),
            TokenKind::LessEq(a, b) => TokenKind::LessEq(*a, *b),
            TokenKind::EqualEqual(a, b) => TokenKind::EqualEqual(*a, *b),
            TokenKind::NotEqual(a, b) => TokenKind::NotEqual(*a, *b),
            TokenKind::And(a, b) => TokenKind::And(*a, *b),
            TokenKind::Or(a, b) => TokenKind::Or(*a, *b),
            TokenKind::Equal(a, b) => TokenKind::Equal(*a, *b),
            TokenKind::For(a, b) => TokenKind::For(*a, *b),
            TokenKind::In(a, b) => TokenKind::In(*a, *b),
            TokenKind::If(a, b) => TokenKind::If(*a, *b),
            TokenKind::Else(a, b) => TokenKind::Else(*a, *b),
            TokenKind::Var(a, b) => TokenKind::Var(*a, *b),
            TokenKind::ExprDelimiter(a, b) => TokenKind::ExprDelimiter(*a, *b),
            TokenKind::GetPtr(a, b) => TokenKind::GetPtr(*a, *b),
            TokenKind::Eof => TokenKind::Eof,
        }
    }
}

/// The `(line, column)` a token carries.
pub open spec fn spec_tok_loc(t: TokenV) -> (usize, usize) {
    match t {
        TokenV::LeftBrace(a, b) => (a, b),
        TokenV::RightBrace(a, b) => (a, b),
        TokenV::LeftParen(a, b) => (a, b),
        TokenV::RightParen(a, b) => (a, b),
        TokenV::LeftBracket(a, b) => (a, b),
        TokenV::RightBracket(a, b) => (a, b),
        TokenV::IntLiteral(_, a, b) => (a, b),
        TokenV::FloatLiteral(_, a, b) => (a, b),
        TokenV::StrLiteral(_, a, b) => (a, b),
        TokenV::IdenLiteral(_, a, b) => (a, b),
        TokenV::Func(a, b) => (a, b),
        TokenV::Mod(a, b) => (a, b),
        TokenV::Use(a, b) => (a, b),
        TokenV::Ret(a, b) => (a, b),
        TokenV::Arrow(a, b) => (a, b),
        TokenV::Colon(a, b) => (a, b),
        TokenV::ColonEq(a, b) => (a, b),
        TokenV::Comma(a, b) => (a, b),
        TokenV::Dot(a, b) => (a, b),
        TokenV::Plus(a, b) => (a, b),
        TokenV::Minus(a, b) => (a, b),
        TokenV::Star(a, b) => (a, b),
        TokenV::Slash(a, b) => (a, b),
        TokenV::True(a, b) => (a, b),
        TokenV::False(a, b) => (a, b),
        TokenV::Bang(a, b) => (a, b),
        TokenV::Greater(a, b) => (a, b),
        TokenV::GreaterEq(a, b) => (a, b),
        TokenV::Less(a, b) => (a, b),
        TokenV::LessEq(a, b) => (a, b),
        TokenV::EqualEqual(a, b) => (a, b),
        TokenV::NotEqual(a, b) => (a, b),
        TokenV::And(a, b) => (a, b),
        TokenV::Or(a, b) => (a, b),
        TokenV::Equal(a, b) => (a, b),
        TokenV::For(a, b) => (a, b),
        TokenV::In(a, b) => (a, b),
        TokenV::If(a, b) => (a, b),
        TokenV::Else(a, b) => (a, b),
        TokenV::Var(a, b) => (a, b),
        TokenV::ExprDelimiter(a, b) => (a, b),
        TokenV::GetPtr(a, b) => (a, b),
        TokenV::Eof => (0, 0),
    }
}

/// The `(line, column)` of the position just past a token's last character.
pub fn get_tok_loc(token: &TokenKind) -> (r: (usize, usize))
    requires
        !(token@ is Eof),
    ensures
        r == spec_tok_loc(token@),
{
    match token {
        TokenKind::LeftBrace(a, b) => (*a, *b),
        TokenKind::RightBrace(a, b) => (*a, *b),
        TokenKind::LeftParen(a, b) => (*a, *b),
        TokenKind::RightParen(a, b) => (*a, *b),
        TokenKind::LeftBracket(a, b) => (*a, *b),
        TokenKind::RightBracket(a, b) => (*a, *b),
        TokenKind::IntLiteral(_, a, b) => (*a, *b),
        TokenKind::FloatLiteral(_, a, b) => (*a, *b),
        TokenKind::StrLiteral(_, a, b) => (*a, *b),
        TokenKind::IdenLiteral(_, a, b) => (*a, *b),
        TokenKind::Func(a, b) => (*a, *b),
        TokenKind::Mod(a, b) => (*a, *b),
        TokenKind::Use(a, b) => (*a, *b),
        TokenKind::Ret(a, b) => (*a, *b),
        TokenKind::Arrow(a, b) => (*a, *b),
        TokenKind::Colon(a, b) => (*a, *b),
        TokenKind::ColonEq(a, b) => (*a, *b),
        TokenKind::Comma(a, b) => (*a, *b),
        TokenKind::Dot(a, b) => (*a, *b),
        TokenKind::Plus(a, b) => (*a, *b),
        TokenKind::Minus(a, b) => (*a, *b),
        TokenKind::Star(a, b) => (*a, *b),
        TokenKind::Slash(a, b) => (*a, *b),
        TokenKind::True(a, b) => (*a, *b),
        TokenKind::False(a, b) => (*a, *b),
        TokenKind::Bang(a, b) => (*a, *b),
        TokenKind::Greater(a, b) => (*a, *b),
        TokenKind::GreaterEq(a, b) => (*a, *b),
        TokenKind::Less(a, b) => (*a, *b),
        TokenKind::LessEq(a, b) => (*a, *b),
        TokenKind::EqualEqual(a, b) => (*a, *b),
        TokenKind::NotEqual(a, b) => (*a, *b),
        TokenKind::And(a, b) => (*a, *b),
        TokenKind::Or(a, b) => (*a, *b),
        TokenKind::Equal(a, b) => (*a, *b),
        TokenKind::For(a, b) => (*a, *b),
        TokenKind::In(a, b) => (*a, *b),
        TokenKind::If(a, b) => (*a, *b),
        TokenKind::Else(a, b) => (*a, *b),
        TokenKind::Var(a, b) => (*a, *b),
        TokenKind::ExprDelimiter(a, b) => (*a, *b),
        TokenKind::GetPtr(a, b) => (*a, *b),
        TokenKind::Eof => (0, 0),
    }
}

/// The width in source characters a token is reported with.
pub open spec fn spec_tok_len(t: TokenV) -> nat {
    match t {
        TokenV::IntLiteral(s, _, _) => s.len(),
        TokenV::FloatLiteral(s, _, _) => s.len(),
        TokenV::StrLiteral(s, _, _) => s.len() + 2,
        TokenV::IdenLiteral(s, _, _) => s.len(),
        TokenV::Func(_, _) => 4,
        TokenV::Mod(_, _) => 3,
        TokenV::Use(_, _) => 3,
        TokenV::Ret(_, _) => 3,
        TokenV::Arrow(_, _) => 2,
        TokenV::ColonEq(_, _) => 2,
        TokenV::True(_, _) => 4,
        TokenV::False(_, _) => 5,
        TokenV::GreaterEq(_, _) => 2,
        TokenV::LessEq(_, _) => 2,
        TokenV::EqualEqual(_, _) => 2,
        TokenV::NotEqual(_, _) => 2,
        TokenV::And(_, _) => 2,
        TokenV::Or(_, _) => 2,
        TokenV::For(_, _) => 3,
        TokenV::In(_, _) => 2,
        TokenV::If(_, _) => 2,
        TokenV::Else(_, _) => 4,
        TokenV::Var(_, _) => 3,
        TokenV::Eof => 0,
        _ => 1,
    }
}

/// The width in source characters a token is reported with, for diagnostics.
pub fn get_tok_len(token: &TokenKind) -> (r: usize)
    requires
        spec_tok_len(token@) <= usize::MAX,
    ensures
        r == spec_tok_len(token@),
{
    match token {
        TokenKind::IntLiteral(literal, _, _) => literal.unicode_len(),
        TokenKind::FloatLiteral(literal, _, _) => literal.unicode_len(),
        TokenKind::StrLiteral(literal, _, _) => literal.unicode_len() + 2,
        TokenKind::IdenLiteral(literal, _, _) => literal.unicode_len(),
        TokenKind::Func(_, _) => 4,
        TokenKind::Mod(_, _) => 3,
        TokenKind::Use(_, _) => 3,
        TokenKind::Ret(_, _) => 3,
        TokenKind::Arrow(_, _) => 2,
        TokenKind::ColonEq(_, _) => 2,
        TokenKind::True(_, _) => 4,
        TokenKind::False(_, _) => 5,
        TokenKind::GreaterEq(_, _) => 2,
        TokenKind::LessEq(_, _) => 2,
        TokenKind::EqualEqual(_, _) => 2,
        TokenKind::NotEqual(_, _) => 2,
        TokenKind::And(_, _) => 2,
        TokenKind::Or(_, _) => 2,
        TokenKind::For(_, _) => 3,
        TokenKind::In(_, _) => 2,
        TokenKind::If(_, _) => 2,
        TokenKind::Else(_, _) => 4,
        TokenKind::Var(_, _) => 3,
        TokenKind::Eof => 0,
        _ => 1,
    }
}

/// Decimal digits.
pub open spec fn spec_is_digit(c: char) -> bool {
    '0' <= c && c <= '9'
}

/// Letters and underscore, the characters an identifier may start with.
pub open spec fn spec_is_alpha(c: char) -> bool {
    ('a' <= c && c <= 'z') || ('A' <= c && c <= 'Z') || c == '_'
}

pub fn is_digit(c: char) -> (r: bool)
    ensures
        r == spec_is_digit(c),
{
    c >= '0' && c <= '9'
}

pub fn is_alpha(c: char) -> (r: bool)
    ensures
        r == spec_is_alpha(c),
{
    (c >= 'a' && c <= 'z') || (c >= 'A' && c <= 'Z') || c == '_'
}

pub fn is_digit_opt(c: Option<char>) -> (r: bool)
    ensures
        r == match c {
            Some(c) => spec_is_digit(c),
            None => false,
        },
{
    if let Some(c) = c {
        c >= '0' && c <= '9'
    } else {
        false
    }
}

pub fn is_alpha_opt(c: Option<char>) -> (r: bool)
    ensures
        r == match c {
            Some(c) => spec_is_alpha(c),
            None => false,
        },
{
    if let Some(c) = c {
        (c >= 'a' && c <= 'z') || (c >= 'A' && c <= 'Z') || c == '_'
    } else {
        false
    }
}

/// The position after the whitespace (and `//` comments) that starts at `i`.
/// Newlines are not whitespace: they stop the scan.
pub open spec fn spec_skip_ws(s: Seq<char>, i: nat) -> nat
    decreases s.len() - i,
{
    if i >= s.len() {
        i
    } else if s[i as int] == ' ' || s[i as int] == '\r' || s[i as int] == '\t' {
        spec_skip_ws(s, i + 1)
    } else if s[i as int] == '/' && i + 1 < s.len() && s[i + 1 as int] == '/' {
        spec_line_end(s, (i + 2) as nat)
    } else {
        i
    }
}

/// The position of the first newline at or after `i`, or the end.
pub open spec fn spec_line_end(s: Seq<char>, i: nat) -> nat
    decreases s.len() - i,
{
    if i >= s.len() {
        i
    } else if s[i as int] == '\n' {
        i
    } else {
        spec_line_end(s, i + 1)
    }
}

/// The end of a run of identifier characters starting at `i`.
pub open spec fn spec_ident_end(s: Seq<char>, i: nat) -> nat
    decreases s.len() - i,
{
    if i >= s.len() {
        i
    } else if spec_is_alpha(s[i as int]) || spec_is_digit(s[i as int]) {
        spec_ident_end(s, i + 1)
    } else {
        i
    }
}

/// The end of a run of digits starting at `i`.
pub open spec fn spec_digit_end(s: Seq<char>, i: nat) -> nat
    decreases s.len() - i,
{
    if i >= s.len() {
        i
    } else if spec_is_digit(s[i as int]) {
        spec_digit_end(s, i + 1)
    } else {
        i
    }
}

/// The position of the first `"` at or after `i`, or the end.
pub open spec fn spec_quote_end(s: Seq<char>, i: nat) -> nat
    decreases s.len() - i,
{
    if i >= s.len() {
        i
    } else if s[i as int] == '"' {
        i
    } else {
        spec_quote_end(s, i + 1)
    }
}

/// How many newlines lie in `s[a..b]`.
pub open spec fn spec_nl_count(s: Seq<char>, a: nat, b: nat) -> nat
    decreases b - a,
{
    if a >= b || b > s.len() {
        0
    } else {
        spec_nl_count(s, a, (b - 1) as nat) + if s[b - 1] == '\n' {
            1nat
        } else {
            0nat
        }
    }
}

/// These bounds hold of the scanning functions.
pub proof fn lemma_scan_bounds(s: Seq<char>, i: nat)
    ensures
        i <= spec_line_end(s, i) <= s.len() || (i > s.len() && spec_line_end(s, i) == i),
        i <= spec_ident_end(s, i) <= s.len() || (i > s.len() && spec_ident_end(s, i) == i),
        i <= spec_digit_end(s, i) <= s.len() || (i > s.len() && spec_digit_end(s, i) == i),
        i <= spec_quote_end(s, i) <= s.len() || (i > s.len() && spec_quote_end(s, i) == i),
    decreases s.len() - i,
{
    if i < s.len() {
        lemma_scan_bounds(s, i + 1);
    }
}

/// The restartable lexer: a cursor over the characters of one source text.
pub struct Tokenizer {
    pub source: Vec<char>,
    pub current: usize,
    pub start: usize,
    pub line: usize,
    pub column: usize,
}

impl Tokenizer {
    /// The cursor stays within the source and the line and column counters
    /// stay small enough that they can be advanced without overflow.
    pub open spec fn wf(self) -> bool {
        &&& self.source@.len() <= MAX_SOURCE_LEN
        &&& self.current <= self.source@.len()
        &&& 1 <= self.line <= self.current + 1
        &&& 1 <= self.column <= self.current + 2
        &&& self.start <= self.source@.len()
    }

    /// A fresh lexer over the given source text.
    pub fn new(source: &str) -> (r: Tokenizer)
        requires
            source@.len() <= MAX_SOURCE_LEN,
        ensures
            r.wf(),
            r.source@ == source@,
            r.current == 0,
            r.start == 0,
            r.line == 1,
            r.column == 1,
    {
        let n = source.unicode_len();
        let mut chars: Vec<char> = Vec::new();
        let mut i: usize = 0;
        while i < n
            invariant
                n == source@.len(),
                i <= n,
                chars@ == source@.subrange(0, i as int),
            decreases n - i,
        {
            chars.push(source.get_char(i));
            proof {
                assert(chars@ =~= source@.subrange(0, i as int + 1));
            }
            i = i + 1;
        }
        proof {
            assert(chars@ =~= source@);
        }
        Tokenizer { source: chars, current: 0, start: 0, line: 1, column: 1 }
    }

    /// Whether the cursor has passed the last character.
    pub fn is_at_end(&self) -> (r: bool)
        ensures
            r == (self.current == self.source@.len()),
    {
        self.current == self.source.len()
    }

    /// The character under the cursor.
    pub fn peek(&self) -> (r: Option<char>)
        ensures
            r == if self.current < self.source@.len() {
                Some(self.source@[self.current as int])
            } else {
                Option::<char>::None
            },
    {
        if self.current < self.source.len() {
            Some(self.source[self.current])
        } else {
            None
        }
    }

    /// The character after the one under the cursor; `None` at the end.
    pub fn peek_next(&self) -> (r: Option<char>)
        requires
            self.wf(),
        ensures
            r == if self.current < self.source@.len() && self.current + 1 < self.source@.len() {
                Some(self.source@[self.current as int + 1])
            } else {
                Option::<char>::None
            },
    {
        if self.current == self.source.len() {
            return None;
        }
        if self.current + 1 < self.source.len() {
            Some(self.source[self.current + 1])
        } else {
            None
        }
    }

    /// Step over one character, counting the column, and hand the character
    /// back.
    pub fn advance(&mut self) -> (r: Option<char>)
        requires
            old(self).wf(),
            old(self).current < old(self).source@.len(),
        ensures
            final(self).wf(),
            final(self).source == old(self).source,
            final(self).current == old(self).current + 1,
            final(self).start == old(self).start,
            final(self).line == old(self).line,
            final(self).column == old(self).column + 1,
            r == Some(old(self).source@[old(self).current as int]),
    {
        self.current = self.current + 1;
        self.column = self.column + 1;
        Some(self.source[self.current - 1])
    }

    /// Step over the next character when it equals `expected`.
    pub fn matches(&mut self, expected: char) -> (r: bool)
        requires
            old(self).wf(),
        ensures
            final(self).wf(),
            final(self).source == old(self).source,
            final(self).start == old(self).start,
            final(self).line == old(self).line,
            r == (old(self).current < old(self).source@.len() && old(self).source@[old(
                self,
            ).current as int] == expected),
            r ==> final(self).current == old(self).current + 1 && final(self).column == old(
                self,
            ).column + 1,
            !r ==> final(self).current == old(self).current && final(self).column == old(
                self,
            ).column,
    {
        if self.current == self.source.len() {
            return false;
        }
        if self.source[self.current] != expected {
            return false;
        }
        self.current = self.current + 1;
        self.column = self.column + 1;
        true
    }

    /// Step over spaces, carriage returns, tabs and `//` comments.
    fn skip_whitespace(&mut self)
        requires
            old(self).wf(),
        ensures
            final(self).wf(),
            final(self).source == old(self).source,
            final(self).start == old(self).start,
            final(self).line == old(self).line,
            final(self).current == spec_skip_ws(old(self).source@, old(self).current as nat),
            final(self).column == old(self).column + (final(self).current - old(self).current),
    {
        loop
            invariant
                self.wf(),
                self.source == old(self).source,
                self.start == old(self).start,
                self.line == old(self).line,
                spec_skip_ws(self.source@, self.current as nat) == spec_skip_ws(
                    old(self).source@,
                    old(self).current as nat,
                ),
                self.current >= old(self).current,
                self.column == old(self).column + (self.current - old(self).current),
            decreases self.source@.len() - self.current,
        {
            let c = match self.peek() {
                Some(c) => c,
                Option::<char>::None => {
                    return ;
                },
            };
            match c {
                ' ' | '\r' | '\t' => {
                    proof {
                        let cu = self.current as nat;
                        assert(spec_skip_ws(self.source@, cu) == spec_skip_ws(
                            self.source@,
                            cu + 1,
                        ));
                    }
                    self.advance();
                },
                '/' => {
                    if self.peek_next() == Some('/') {
                        let ghost pre = self.current as nat;
                        proof {
                            assert(spec_skip_ws(self.source@, pre) == spec_line_end(
                                self.source@,
                                pre + 2,
                            ));
                            assert(spec_line_end(self.source@, pre) == spec_line_end(
                                self.source@,
                                pre + 1,
                            ));
                            assert(spec_line_end(self.source@, pre + 1) == spec_line_end(
                                self.source@,
                                pre + 2,
                            ));
                        }
                        loop
                            invariant
                                self.wf(),
                                self.source == old(self).source,
                                self.start == old(self).start,
                                self.line == old(self).line,
                                self.current >= pre,
                                self.column == old(self).column + (self.current - old(
                                    self,
                                ).current),
                                spec_line_end(self.source@, self.current as nat) == spec_line_end(
                                    self.source@,
                                    pre,
                                ),
                            ensures
                                self.current == self.source@.len() || self.source@[self.current as int]
                                    == '\n',
                            decreases self.source@.len() - self.current,
                        {
                            let p = self.peek();
                            let stop = p == Some('\n') || self.is_at_end();
                            if stop {
                                break ;
                            }
                            proof {
                                let cu = self.current as nat;
                                assert(spec_line_end(self.source@, cu) == spec_line_end(
                                    self.source@,
                                    cu + 1,
                                ));
                            }
                            self.advance();
                        }
                        proof {
                            let cu = self.current as nat;
                            assert(cu == spec_line_end(self.source@, cu));
                            assert(self.current == spec_line_end(self.source@, pre));
                            assert(spec_skip_ws(self.source@, cu) == cu);
                        }
                    } else {
                        return ;
                    }
                },
                _ => {
                    return ;
                },
            }
        }
    }

    /// The characters of `source[a..b]` as a string.
    fn collect_range(&self, a: usize, b: usize) -> (r: String)
        requires
            a <= b <= self.source@.len(),
        ensures
            r@ == self.source@.subrange(a as int, b as int),
    {
        let mut r = String::new();
        let mut i: usize = a;
        proof {
            assert(r@ =~= self.source@.subrange(a as int, a as int));
        }
        while i < b
            invariant
                a <= i <= b <= self.source@.len(),
                r@ == self.source@.subrange(a as int, i as int),
            decreases b - i,
        {
            crate::util::push_char(&mut r, self.source[i]);
            proof {
                assert(self.source@.subrange(a as int, i as int).push(self.source@[i as int]) =~= self.source@.subrange(
                    a as int,
                    i as int + 1,
                ));
            }
            i = i + 1;
        }
        r
    }
}

/// Where one step of the lexer ends: the cursor fields after the step and
/// the token it found, if any.
pub struct TokStep {
    pub current: int,
    pub start: int,
    pub line: int,
    pub column: int,
    pub token: Option<TokenV>,
}

/// The keyword token for a known word, or an identifier token.
pub open spec fn spec_keyword_or_ident(text: Seq<char>, line: int, col: int) -> TokenV {
    let l = line as usize;
    let c = col as usize;
    if text == "func"@ {
        TokenV::Func(l, c)
    } else if text == "mod"@ {
        TokenV::Mod(l, c)
    } else if text == "use"@ {
        TokenV::Use(l, c)
    } else if text == "ret"@ {
        TokenV::Ret(l, c)
    } else if text == "true"@ {
        TokenV::True(l, c)
    } else if text == "false"@ {
        TokenV::False(l, c)
    } else if text == "for"@ {
        TokenV::For(l, c)
    } else if text == "in"@ {
        TokenV::In(l, c)
    } else if text == "if"@ {
        TokenV::If(l, c)
    } else if text == "else"@ {
        TokenV::Else(l, c)
    } else if text == "var"@ {
        TokenV::Var(l, c)
    } else {
        TokenV::IdenLiteral(text, l, c)
    }
}

/// One step of the string scanner: the position of the closing quote (or the
/// end) and the line and column counters as the scan leaves them.
pub open spec fn spec_str_scan(s: Seq<char>, i: nat, line: int, col: int) -> (nat, int, int)
    decreases s.len() - i,
{
    if i >= s.len() {
        (i, line, col)
    } else if s[i as int] == '"' {
        (i, line, col)
    } else if s[i as int] == '\n' {
        spec_str_scan(s, i + 1, line + 1, 2)
    } else {
        spec_str_scan(s, i + 1, line, col + 1)
    }
}

/// What one call of the lexer returns and where it leaves the cursor, as a
/// function of the source and the cursor fields before the call.
pub open spec fn spec_next(s: Seq<char>, cur0: int, line0: int, col0: int) -> TokStep {
    let i = spec_skip_ws(s, cur0 as nat) as int;
    let coli = col0 + (i - cur0);
    if i >= s.len() {
        TokStep { current: i, start: i, line: line0, column: coli, token: Option::<TokenV>::None }
    } else {
        let c = s[i];
        let col1 = coli + 1;
        let j = i + 1;
        if spec_is_alpha(c) {
            let end = spec_ident_end(s, j as nat) as int;
            let text = s.subrange(i, end);
            let cole = col0 + (end - cur0);
            TokStep {
                current: end,
                start: i,
                line: line0,
                column: cole,
                token: Some(spec_keyword_or_ident(text, line0, cole)),
            }
        } else if spec_is_digit(c) {
            let d1 = spec_digit_end(s, j as nat) as int;
            if d1 < s.len() && s[d1] == '.' && d1 + 1 < s.len() && spec_is_digit(s[d1 + 1]) {
                let d2 = spec_digit_end(s, (d1 + 1) as nat) as int;
                let cole = col0 + (d2 - cur0);
                TokStep {
                    current: d2,
                    start: i,
                    line: line0,
                    column: cole,
                    token: Some(
                        TokenV::FloatLiteral(s.subrange(i, d2), line0 as usize, cole as usize),
                    ),
                }
            } else {
                let cole = col0 + (d1 - cur0);
                TokStep {
                    current: d1,
                    start: i,
                    line: line0,
                    column: cole,
                    token: Some(
                        TokenV::IntLiteral(s.subrange(i, d1), line0 as usize, cole as usize),
                    ),
                }
            }
        } else if c == '"' {
            let (q, linee, cole) = spec_str_scan(s, j as nat, line0, col1);
            if q >= s.len() {
                TokStep {
                    current: q as int,
                    start: i,
                    line: linee,
                    column: cole,
                    token: Option::<TokenV>::None,
                }
            } else {
                TokStep {
                    current: q as int + 1,
                    start: i,
                    line: linee,
                    column: cole + 1,
                    token: Some(
                        TokenV::StrLiteral(
                            s.subrange(j, q as int),
                            linee as usize,
                            (cole + 1) as usize,
                        ),
                    ),
                }
            }
        } else {
            let two = j < s.len();
            let l = line0 as usize;
            let c1 = col1 as usize;
            let c2 = (col1 + 1) as usize;
            if c == '(' {
                TokStep { current: j, start: i, line: line0, column: col1, token: Some(TokenV::LeftParen(l, c1)) }
            } else if c == ')' {
                TokStep { current: j, start: i, line: line0, column: col1, token: Some(TokenV::RightParen(l, c1)) }
            } else if c == '{' {
                TokStep { current: j, start: i, line: line0, column: col1, token: Some(TokenV::LeftBrace(l, c1)) }
            } else if c == '}' {
                TokStep { current: j, start: i, line: line0, column: col1, token: Some(TokenV::RightBrace(l, c1)) }
            } else if c == '[' {
                TokStep { current: j, start: i, line: line0, column: col1, token: Some(TokenV::LeftBracket(l, c1)) }
            } else if c == ']' {
                TokStep { current: j, start: i, line: line0, column: col1, token: Some(TokenV::RightBracket(l, c1)) }
            } else if c == ':' {
                if two && s[j] == '=' {
                    TokStep { current: j + 1, start: i, line: line0, column: col1 + 1, token: Some(TokenV::ColonEq(l, c2)) }
                } else {
                    TokStep { current: j, start: i, line: line0, column: col1, token: Some(TokenV::Colon(l, c1)) }
                }
            } else if c == '.' {
                TokStep { current: j, start: i, line: line0, column: col1, token: Some(TokenV::Dot(l, c1)) }
            } else if c == ',' {
                TokStep { current: j, start: i, line: line0, column: col1, token: Some(TokenV::Comma(l, c1)) }
            } else if c == '+' {
                TokStep { current: j, start: i, line: line0, column: col1, token: Some(TokenV::Plus(l, c1)) }
            } else if c == '-' {
                if two && s[j] == '>' {
                    TokStep { current: j + 1, start: i, line: line0, column: col1 + 1, token: Some(TokenV::Arrow(l, c2)) }
                } else {
                    TokStep { current: j, start: i, line: line0, column: col1, token: Some(TokenV::Minus(l, c1)) }
                }
            } else if c == '*' {
                TokStep { current: j, start: i, line: line0, column: col1, token: Some(TokenV::Star(l, c1)) }
            } else if c == '/' {
                TokStep { current: j, start: i, line: line0, column: col1, token: Some(TokenV::Slash(l, c1)) }
            } else if c == '!' {
                if two && s[j] == '=' {
                    TokStep { current: j + 1, start: i, line: line0, column: col1 + 1, token: Some(TokenV::NotEqual(l, c2)) }
                } else {
                    TokStep { current: j, start: i, line: line0, column: col1, token: Some(TokenV::Bang(l, c1)) }
                }
            } else if c == '>' {
                if two && s[j] == '=' {
                    TokStep { current: j + 1, start: i, line: line0, column: col1 + 1, token: Some(TokenV::GreaterEq(l, c2)) }
                } else {
                    TokStep { current: j, start: i, line: line0, column: col1, token: Some(TokenV::Greater(l, c1)) }
                }
            } else if c == '<' {
                if two && s[j] == '=' {
                    TokStep { current: j + 1, start: i, line: line0, column: col1 + 1, token: Some(TokenV::LessEq(l, c2)) }
                } else {
                    TokStep { current: j, start: i, line: line0, column: col1, token: Some(TokenV::Less(l, c1)) }
                }
            } else if c == '=' {
                if two && s[j] == '=' {
                    TokStep { current: j + 1, start: i, line: line0, column: col1 + 1, token: Some(TokenV::EqualEqual(l, c2)) }
                } else {
                    TokStep { current: j, start: i, line: line0, column: col1, token: Some(TokenV::Equal(l, c1)) }
                }
            } else if c == '|' {
                if two && s[j] == '|' {
                    TokStep { current: j + 1, start: i, line: line0, column: col1 + 1, token: Some(TokenV::Or(l, c2)) }
                } else {
                    TokStep { current: j, start: i, line: line0, column: col1, token: Option::<TokenV>::None }
                }
            } else if c == '&' {
                if two && s[j] == '&' {
                    TokStep { current: j + 1, start: i, line: line0, column: col1 + 1, token: Some(TokenV::And(l, c2)) }
                } else {
                    TokStep { current: j, start: i, line: line0, column: col1, token: Some(TokenV::GetPtr(l, c1)) }
                }
            } else if c == ';' {
                TokStep { current: j, start: i, line: line0, column: col1, token: Some(TokenV::ExprDelimiter(l, c1)) }
            } else if c == '\n' {
                TokStep {
                    current: j,
                    start: i,
                    line: line0 + 1,
                    column: 1,
                    token: Some(TokenV::ExprDelimiter((line0 + 1) as usize, 1)),
                }
            } else {
                TokStep { current: j, start: i, line: line0, column: col1, token: Option::<TokenV>::None }
            }
        }
    }
}

impl Tokenizer {
    /// Scan a string literal; the opening quote was already stepped over. On
    /// an unterminated literal the scan runs to the end and no token comes
    /// back.
    fn string(&mut self) -> (r: Option<TokenKind>)
        requires
            old(self).wf(),
            old(self).current == old(self).start + 1,
            old(self).start < old(self).source@.len(),
            old(self).source@[old(self).start as int] == '"',
        ensures
            final(self).wf(),
            final(self).source == old(self).source,
            final(self).start == old(self).start,
            ({
                let (q, linee, cole) = spec_str_scan(
                    old(self).source@,
                    old(self).current as nat,
                    old(self).line as int,
                    old(self).column as int,
                );
                if q >= old(self).source@.len() {
                    &&& r is None
                    &&& final(self).current == q
                    &&& final(self).line == linee
                    &&& final(self).column == cole
                } else {
                    &&& final(self).current == q + 1
                    &&& final(self).line == linee
                    &&& final(self).column == cole + 1
                    &&& r matches Some(t) && t@ == TokenV::StrLiteral(
                        old(self).source@.subrange(old(self).current as int, q as int),
                        linee as usize,
                        (cole + 1) as usize,
                    )
                }
            }),
    {
        let ghost s = self.source@;
        let ghost c0 = self.current as nat;
        loop
            invariant
                self.wf(),
                self.source == old(self).source,
                s == self.source@,
                self.start == old(self).start,
                self.current >= c0,
                spec_str_scan(s, self.current as nat, self.line as int, self.column as int)
                    == spec_str_scan(s, c0, old(self).line as int, old(self).column as int),
            ensures
                self.current == self.source@.len() || self.source@[self.current as int] == '"',
            decreases self.source@.len() - self.current,
        {
            let p = self.peek();
            let stop = p == Some('"') || self.is_at_end();
            if stop {
                break ;
            }
            proof {
                let cu = self.current as nat;
                if s[cu as int] == '\n' {
                    assert(spec_str_scan(s, cu, self.line as int, self.column as int)
                        == spec_str_scan(s, cu + 1, self.line as int + 1, 2));
                } else {
                    assert(spec_str_scan(s, cu, self.line as int, self.column as int)
                        == spec_str_scan(s, cu + 1, self.line as int, self.column as int + 1));
                }
            }
            let nl = p == Some('\n');
            self.advance();
            if nl {
                self.line = self.line + 1;
                self.column = 2;
            }
        }
        proof {
            let cu = self.current as nat;
            assert(spec_str_scan(s, cu, self.line as int, self.column as int) == (
                cu,
                self.line as int,
                self.column as int,
            ));
        }
        if self.is_at_end() {
            return None;
        }
        self.advance();
        let text = self.collect_range(self.start + 1, self.current - 1);
        proof {
            assert(text@ == s.subrange(c0 as int, (self.current - 1) as int));
        }
        Some(TokenKind::StrLiteral(text, self.line, self.column))
    }

    /// Scan the rest of an integer or float literal; its first digit was
    /// already stepped over.
    fn number(&mut self) -> (r: TokenKind)
        requires
            old(self).wf(),
            old(self).start < old(self).current,
        ensures
            final(self).wf(),
            final(self).source == old(self).source,
            final(self).start == old(self).start,
            final(self).line == old(self).line,
            ({
                let s = old(self).source@;
                let d1 = spec_digit_end(s, old(self).current as nat) as int;
                let st = old(self).start as int;
                if d1 < s.len() && s[d1] == '.' && d1 + 1 < s.len() && spec_is_digit(s[d1 + 1]) {
                    let d2 = spec_digit_end(s, (d1 + 1) as nat) as int;
                    let cole = old(self).column + (d2 - old(self).current);
                    &&& final(self).current == d2
                    &&& final(self).column == cole
                    &&& r@ == TokenV::FloatLiteral(
                        s.subrange(st, d2),
                        final(self).line as usize,
                        cole as usize,
                    )
                } else {
                    let cole = old(self).column + (d1 - old(self).current);
                    &&& final(self).current == d1
                    &&& final(self).column == cole
                    &&& r@ == TokenV::IntLiteral(
                        s.subrange(st, d1),
                        final(self).line as usize,
                        cole as usize,
                    )
                }
            }),
    {
        let ghost s = self.source@;
        let ghost c0 = self.current as nat;
        loop
            invariant
                self.wf(),
                self.source == old(self).source,
                self.start == old(self).start,
                self.line == old(self).line,
                self.current >= c0,
                self.column == old(self).column + (self.current - c0),
                s == self.source@,
                spec_digit_end(s, self.current as nat) == spec_digit_end(s, c0),
            ensures
                self.current == self.source@.len() || !spec_is_digit(
                    self.source@[self.current as int],
                ),
            decreases self.source@.len() - self.current,
        {
            let p = self.peek();
            let d = is_digit_opt(p);
            if !d {
                break ;
            }
            proof {
                let cu = self.current as nat;
                assert(spec_digit_end(s, cu) == spec_digit_end(s, cu + 1));
            }
            self.advance();
        }
        proof {
            let cu = self.current as nat;
            assert(spec_digit_end(s, cu) == cu);
        }
        let mut is_float = false;
        if self.peek() == Some('.') && is_digit_opt(self.peek_next()) {
            self.advance();
            let ghost c1 = self.current as nat;
            loop
                invariant
                    self.wf(),
                    self.source == old(self).source,
                    self.start == old(self).start,
                    self.line == old(self).line,
                    self.current >= c1,
                    self.column == old(self).column + (self.current - c0),
                    s == self.source@,
                    spec_digit_end(s, self.current as nat) == spec_digit_end(s, c1),
                ensures
                    self.current == self.source@.len() || !spec_is_digit(
                        self.source@[self.current as int],
                    ),
                decreases self.source@.len() - self.current,
            {
                let p = self.peek();
                let d = is_digit_opt(p);
                if !d {
                    break ;
                }
                proof {
                    let cu = self.current as nat;
                    assert(spec_digit_end(s, cu) == spec_digit_end(s, cu + 1));
                }
                self.advance();
            }
            proof {
                let cu = self.current as nat;
                assert(spec_digit_end(s, cu) == cu);
            }
            is_float = true;
        }
        let raw = self.collect_range(self.start, self.current);
        if is_float {
            TokenKind::FloatLiteral(raw, self.line, self.column)
        } else {
            TokenKind::IntLiteral(raw, self.line, self.column)
        }
    }

    /// Scan the rest of an identifier or keyword; its first character was
    /// already stepped over.
    fn identifier(&mut self) -> (r: TokenKind)
        requires
            old(self).wf(),
            old(self).start < old(self).current,
        ensures
            final(self).wf(),
            final(self).source == old(self).source,
            final(self).start == old(self).start,
            final(self).line == old(self).line,
            ({
                let s = old(self).source@;
                let end = spec_ident_end(s, old(self).current as nat) as int;
                let cole = old(self).column + (end - old(self).current);
                &&& final(self).current == end
                &&& final(self).column == cole
                &&& r@ == spec_keyword_or_ident(
                    s.subrange(old(self).start as int, end),
                    final(self).line as int,
                    cole,
                )
            }),
    {
        let ghost s = self.source@;
        let ghost c0 = self.current as nat;
        loop
            invariant
                self.wf(),
                self.source == old(self).source,
                self.start == old(self).start,
                self.line == old(self).line,
                self.current >= c0,
                self.column == old(self).column + (self.current - c0),
                s == self.source@,
                spec_ident_end(s, self.current as nat) == spec_ident_end(s, c0),
            ensures
                self.current == self.source@.len() || (!spec_is_alpha(
                    self.source@[self.current as int],
                ) && !spec_is_digit(self.source@[self.current as int])),
            decreases self.source@.len() - self.current,
        {
            let p = self.peek();
            let go = is_alpha_opt(p) || is_digit_opt(p);
            if !go {
                break ;
            }
            proof {
                let cu = self.current as nat;
                assert(spec_ident_end(s, cu) == spec_ident_end(s, cu + 1));
            }
            self.advance();
        }
        proof {
            let cu = self.current as nat;
            assert(spec_ident_end(s, cu) == cu);
        }
        let identifier = self.collect_range(self.start, self.current);
        if str_eq(identifier.as_str(), "func") {
            return TokenKind::Func(self.line, self.column);
        }
        if str_eq(identifier.as_str(), "mod") {
            return TokenKind::Mod(self.line, self.column);
        }
        if str_eq(identifier.as_str(), "use") {
            return TokenKind::Use(self.line, self.column);
        }
        if str_eq(identifier.as_str(), "ret") {
            return TokenKind::Ret(self.line, self.column);
        }
        if str_eq(identifier.as_str(), "true") {
            return TokenKind::True(self.line, self.column);
        }
        if str_eq(identifier.as_str(), "false") {
            return TokenKind::False(self.line, self.column);
        }
        if str_eq(identifier.as_str(), "for") {
            return TokenKind::For(self.line, self.column);
        }
        if str_eq(identifier.as_str(), "in") {
            return TokenKind::In(self.line, self.column);
        }
        if str_eq(identifier.as_str(), "if") {
            return TokenKind::If(self.line, self.column);
        }
        if str_eq(identifier.as_str(), "else") {
            return TokenKind::Else(self.line, self.column);
        }
        if str_eq(identifier.as_str(), "var") {
            return TokenKind::Var(self.line, self.column);
        }
        TokenKind::IdenLiteral(identifier, self.line, self.column)
    }

    /// Hand out the next token, or nothing at the end of the source, after
    /// an unterminated string literal, or on a character the language does
    /// not know.
    pub fn next(&mut self) -> (r: Option<TokenKind>)
        requires
            old(self).wf(),
        ensures
            final(self).wf(),
            final(self).source == old(self).source,
            ({
                let step = spec_next(
                    old(self).source@,
                    old(self).current as int,
                    old(self).line as int,
                    old(self).column as int,
                );
                &&& final(self).current == step.current
                &&& final(self).start == step.start
                &&& final(self).line == step.line
                &&& final(self).column == step.column
                &&& match (r, step.token) {
                    (Some(t), Some(tv)) => t@ == tv,
                    (Option::<TokenKind>::None, Option::<TokenV>::None) => true,
                    _ => false,
                }
            }),
    {
        proof {
            lemma_scan_bounds(old(self).source@, old(self).current as nat);
        }
        self.skip_whitespace();
        self.start = self.current;
        if self.is_at_end() {
            return None;
        }
        let c = match self.advance() {
            Some(c) => c,
            Option::<char>::None => {
                return None;
            },
        };
        proof {
            lemma_scan_bounds(self.source@, self.current as nat);
        }
        if is_alpha(c) {
            return Some(self.identifier());
        }
        if is_digit(c) {
            return Some(self.number());
        }
        match c {
            '(' => Some(TokenKind::LeftParen(self.line, self.column)),
            ')' => Some(TokenKind::RightParen(self.line, self.column)),
            '{' => Some(TokenKind::LeftBrace(self.line, self.column)),
            '}' => Some(TokenKind::RightBrace(self.line, self.column)),
            '[' => Some(TokenKind::LeftBracket(self.line, self.column)),
            ']' => Some(TokenKind::RightBracket(self.line, self.column)),
            ':' => Some(
                if self.matches('=') {
                    TokenKind::ColonEq(self.line, self.column)
                } else {
                    TokenKind::Colon(self.line, self.column)
                },
            ),
            '.' => Some(TokenKind::Dot(self.line, self.column)),
            ',' => Some(TokenKind::Comma(self.line, self.column)),
            '+' => Some(TokenKind::Plus(self.line, self.column)),
            '-' => Some(
                if self.matches('>') {
                    TokenKind::Arrow(self.line, self.column)
                } else {
                    TokenKind::Minus(self.line, self.column)
                },
            ),
            '*' => Some(TokenKind::Star(self.line, self.column)),
            '/' => Some(TokenKind::Slash(self.line, self.column)),
            '"' => self.string(),
            '!' => Some(
                if self.matches('=') {
                    TokenKind::NotEqual(self.line, self.column)
                } else {
                    TokenKind::Bang(self.line, self.column)
                },
            ),
            '>' => Some(
                if self.matches('=') {
                    TokenKind::GreaterEq(self.line, self.column)
                } else {
                    TokenKind::Greater(self.line, self.column)
                },
            ),
            '<' => Some(
                if self.matches('=') {
                    TokenKind::LessEq(self.line, self.column)
                } else {
                    TokenKind::Less(self.line, self.column)
                },
            ),
            '=' => Some(
                if self.matches('=') {
                    TokenKind::EqualEqual(self.line, self.column)
                } else {
                    TokenKind::Equal(self.line, self.column)
                },
            ),
            '|' => {
                if self.matches('|') {
                    Some(TokenKind::Or(self.line, self.column))
                } else {
                    None
                }
            },
            '&' => Some(
                if self.matches('&') {
                    TokenKind::And(self.line, self.column)
                } else {
                    TokenKind::GetPtr(self.line, self.column)
                },
            ),
            ';' => Some(TokenKind::ExprDelimiter(self.line, self.column)),
            '\n' => {
                self.line = self.line + 1;
                self.column = 1;
                Some(TokenKind::ExprDelimiter(self.line, self.column))
            },
            _ => None,
        }
    }

    /// Saves the cursor state, scans the next token, then restores the
    /// cursor exactly.
    pub fn peek_ahead(&mut self) -> (r: Option<TokenKind>)
        requires
            old(self).wf(),
        ensures
            *final(self) == *old(self),
            ({
                let step = spec_next(
                    old(self).source@,
                    old(self).current as int,
                    old(self).line as int,
                    old(self).column as int,
                );
                match (r, step.token) {
                    (Some(t), Some(tv)) => t@ == tv,
                    (Option::<TokenKind>::None, Option::<TokenV>::None) => true,
                    _ => false,
                }
            }),
    {
        let start = self.start;
        let current = self.current;
        let line = self.line;
        let column = self.column;

        let item = self.next();
        self.start = start;
        self.current = current;
        self.line = line;
        self.column = column;
        item
    }
}

/// The whitespace scan never goes backwards and stays inside the source.
pub proof fn lemma_skip_ws_bounds(s: Seq<char>, i: nat)
    requires
        i <= s.len(),
    ensures
        i <= spec_skip_ws(s, i) <= s.len(),
    decreases s.len() - i,
{
    if i < s.len() {
        if s[i as int] == ' ' || s[i as int] == '\r' || s[i as int] == '\t' {
            lemma_skip_ws_bounds(s, i + 1);
        } else if s[i as int] == '/' && i + 1 < s.len() && s[i + 1 as int] == '/' {
            lemma_scan_bounds(s, (i + 2) as nat);
        }
    }
}

/// The string scanner never goes backwards and stays inside the source.
pub proof fn lemma_str_scan_bounds(s: Seq<char>, i: nat, line: int, col: int)
    requires
        i <= s.len(),
    ensures
        ({
            let (q, _, _) = spec_str_scan(s, i, line, col);
            i <= q <= s.len()
        }),
    decreases s.len() - i,
{
    if i < s.len() && s[i as int] != '"' {
        if s[i as int] == '\n' {
            lemma_str_scan_bounds(s, i + 1, line + 1, 2);
        } else {
            lemma_str_scan_bounds(s, i + 1, line, col + 1);
        }
    }
}

/// One lexing step never moves the cursor backwards, and moves it strictly
/// forward whenever it hands a token out.
pub proof fn lemma_next_progress(s: Seq<char>, cur: int, line: int, col: int)
    requires
        0 <= cur <= s.len(),
    ensures
        ({
            let step = spec_next(s, cur, line, col);
            &&& cur <= step.current <= s.len()
            &&& (step.token is Some ==> step.current > cur)
        }),
{
    lemma_skip_ws_bounds(s, cur as nat);
    let i = spec_skip_ws(s, cur as nat) as int;
    if i < s.len() {
        let c = s[i];
        lemma_scan_bounds(s, (i + 1) as nat);
        if spec_is_digit(c) {
            let d1 = spec_digit_end(s, (i + 1) as nat) as int;
            if d1 < s.len() && s[d1] == '.' && d1 + 1 < s.len() && spec_is_digit(s[d1 + 1]) {
                lemma_scan_bounds(s, (d1 + 1) as nat);
            }
        } else if c == '"' {
            lemma_str_scan_bounds(s, (i + 1) as nat, line, col + (i - cur) + 1);
        }
    }
}

/// Whether a token's reported width is small enough to compute with.
pub open spec fn tok_fits(t: TokenV) -> bool {
    spec_tok_len(t) <= MAX_SOURCE_LEN + 2
}

/// Every token the lexer hands out has a bounded reported width.
pub proof fn lemma_next_token_fits(s: Seq<char>, cur: int, line: int, col: int)
    requires
        0 <= cur <= s.len(),
        s.len() <= MAX_SOURCE_LEN,
    ensures
        ({
            let step = spec_next(s, cur, line, col);
            match step.token {
                Some(t) => tok_fits(t),
                None => true,
            }
        }),
{
    lemma_skip_ws_bounds(s, cur as nat);
    let i = spec_skip_ws(s, cur as nat) as int;
    if i < s.len() {
        let c = s[i];
        lemma_scan_bounds(s, (i + 1) as nat);
        if spec_is_digit(c) {
            let d1 = spec_digit_end(s, (i + 1) as nat) as int;
            if d1 < s.len() && s[d1] == '.' && d1 + 1 < s.len() && spec_is_digit(s[d1 + 1]) {
                lemma_scan_bounds(s, (d1 + 1) as nat);
            }
        } else if c == '"' {
            lemma_str_scan_bounds(s, (i + 1) as nat, line, col + (i - cur) + 1);
        }
    }
}

} // verus!
