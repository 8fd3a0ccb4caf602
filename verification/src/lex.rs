//! Tokens of the specification DSL and the lexer that produces them.
//!
//! The DSL's alphabet is small: identifiers, integer literals (which the
//! grammar only ever rejects, loudly), braces, brackets, `:`, `::` and commas,
//! separated by blanks.  `spec_lex` is the reference lexing function; the
//! executable lexer returns exactly its result.

use vstd::prelude::*;
use vstd::string::StrSliceExecFns;
use vstd::string::StringExecFns;

use crate::SpecError;

verus! {

/// One token of the DSL.
pub enum Tok {
    LBrace,
    RBrace,
    LBrack,
    RBrack,
    Colon,
    PathSep,
    Comma,
    Int,
    Ident(String),
}

/// The mathematical shape of a token.
pub ghost enum TokV {
    LBrace,
    RBrace,
    LBrack,
    RBrack,
    Colon,
    PathSep,
    Comma,
    Int,
    Ident(Seq<char>),
}

impl View for Tok {
    type V = TokV;

    open spec fn view(&self) -> TokV {
        match self {
            Tok::LBrace => TokV::LBrace,
            Tok::RBrace => TokV::RBrace,
            Tok::LBrack => TokV::LBrack,
            Tok::RBrack => TokV::RBrack,
            Tok::Colon => TokV::Colon,
            Tok::PathSep => TokV::PathSep,
            Tok::Comma => TokV::Comma,
            Tok::Int => TokV::Int,
            Tok::Ident(s) => TokV::Ident(s@),
        }
    }
}

/// The views of a token sequence, element by element.
pub open spec fn toks_views(ts: Seq<Tok>) -> Seq<TokV> {
    Seq::new(ts.len(), |i: int| ts[i]@)
}

pub open spec fn is_space(c: char) -> bool {
    c == ' ' || c == '\t' || c == '\n' || c == '\r'
}

pub open spec fn is_digit(c: char) -> bool {
    '0' <= c && c <= '9'
}

pub open spec fn is_lower(c: char) -> bool {
    'a' <= c && c <= 'z'
}

pub open spec fn is_upper(c: char) -> bool {
    'A' <= c && c <= 'Z'
}

pub open spec fn is_ident_start(c: char) -> bool {
    is_lower(c) || is_upper(c) || c == '_'
}

pub open spec fn is_ident_char(c: char) -> bool {
    is_ident_start(c) || is_digit(c)
}

/// The first position at or after `i` that does not continue an identifier.
pub open spec fn ident_end(s: Seq<char>, i: int) -> int
    decreases s.len() - i,
{
    if 0 <= i < s.len() && is_ident_char(s[i]) {
        ident_end(s, i + 1)
    } else {
        i
    }
}

/// The first position at or after `i` that is not a digit.
pub open spec fn digit_end(s: Seq<char>, i: int) -> int
    decreases s.len() - i,
{
    if 0 <= i < s.len() && is_digit(s[i]) {
        digit_end(s, i + 1)
    } else {
        i
    }
}

pub proof fn lemma_ident_end(s: Seq<char>, i: int)
    requires
        0 <= i <= s.len(),
    ensures
        i <= ident_end(s, i) <= s.len(),
        i < s.len() && is_ident_char(s[i]) ==> ident_end(s, i) >= i + 1,
    decreases s.len() - i,
{
    if i < s.len() && is_ident_char(s[i]) {
        lemma_ident_end(s, i + 1);
    }
}

pub proof fn lemma_digit_end(s: Seq<char>, i: int)
    requires
        0 <= i <= s.len(),
    ensures
        i <= digit_end(s, i) <= s.len(),
        i < s.len() && is_digit(s[i]) ==> digit_end(s, i) >= i + 1,
    decreases s.len() - i,
{
    if i < s.len() && is_digit(s[i]) {
        lemma_digit_end(s, i + 1);
    }
}

/// Prepends a token to a lexing result, keeping an error as it is.
pub open spec fn lex_cons(t: TokV, rest: Result<Seq<TokV>, SpecError>) -> Result<
    Seq<TokV>,
    SpecError,
> {
    match rest {
        Ok(ts) => Ok(seq![t] + ts),
        Err(e) => Err(e),
    }
}

/// The tokens of `s` from position `i` on, or the first lexing error.
pub open spec fn spec_lex(s: Seq<char>, i: int) -> Result<Seq<TokV>, SpecError>
    decreases s.len() - i,
    via spec_lex_dec
{
    if i < 0 || i >= s.len() {
        Ok(Seq::empty())
    } else if is_space(s[i]) {
        spec_lex(s, i + 1)
    } else if is_ident_start(s[i]) {
        lex_cons(TokV::Ident(s.subrange(i, ident_end(s, i))), spec_lex(s, ident_end(s, i)))
    } else if is_digit(s[i]) {
        lex_cons(TokV::Int, spec_lex(s, digit_end(s, i)))
    } else if s[i] == ':' {
        if i + 1 < s.len() && s[i + 1] == ':' {
            lex_cons(TokV::PathSep, spec_lex(s, i + 2))
        } else {
            lex_cons(TokV::Colon, spec_lex(s, i + 1))
        }
    } else if s[i] == '{' {
        lex_cons(TokV::LBrace, spec_lex(s, i + 1))
    } else if s[i] == '}' {
        lex_cons(TokV::RBrace, spec_lex(s, i + 1))
    } else if s[i] == '[' {
        lex_cons(TokV::LBrack, spec_lex(s, i + 1))
    } else if s[i] == ']' {
        lex_cons(TokV::RBrack, spec_lex(s, i + 1))
    } else if s[i] == ',' {
        lex_cons(TokV::Comma, spec_lex(s, i + 1))
    } else {
        Err(SpecError::BadChar)
    }
}

#[via_fn]
proof fn spec_lex_dec(s: Seq<char>, i: int) {
    if 0 <= i < s.len() {
        if is_ident_start(s[i]) {
            lemma_ident_end(s, i);
        }
        if is_digit(s[i]) {
            lemma_digit_end(s, i);
        }
    }
}

/// Whether an executable lexing result is the one `spec_lex` prescribes.
pub open spec fn lex_matches(r: Result<Vec<Tok>, SpecError>, sp: Result<Seq<TokV>, SpecError>) -> bool {
    match r {
        Ok(ts) => sp == Ok::<Seq<TokV>, SpecError>(toks_views(ts@)),
        Err(e) => sp == Err::<Seq<TokV>, SpecError>(e),
    }
}

fn is_space_x(c: char) -> (r: bool)
    ensures
        r == is_space(c),
{
    c == ' ' || c == '\t' || c == '\n' || c == '\r'
}

fn is_digit_x(c: char) -> (r: bool)
    ensures
        r == is_digit(c),
{
    '0' <= c && c <= '9'
}

fn is_ident_start_x(c: char) -> (r: bool)
    ensures
        r == is_ident_start(c),
{
    ('a' <= c && c <= 'z') || ('A' <= c && c <= 'Z') || c == '_'
}

fn is_ident_char_x(c: char) -> (r: bool)
    ensures
        r == is_ident_char(c),
{
    is_ident_start_x(c) || is_digit_x(c)
}

fn ident_end_x(s: &str, i: usize, n: usize) -> (r: usize)
    requires
        i <= s@.len(),
        n == s@.len(),
    ensures
        r == ident_end(s@, i as int),
        i <= r <= s@.len(),
    decreases s@.len() - i,
{
    if i < n && is_ident_char_x(s.get_char(i)) {
        ident_end_x(s, i + 1, n)
    } else {
        i
    }
}

fn digit_end_x(s: &str, i: usize, n: usize) -> (r: usize)
    requires
        i <= s@.len(),
        n == s@.len(),
    ensures
        r == digit_end(s@, i as int),
        i <= r <= s@.len(),
    decreases s@.len() - i,
{
    if i < n && is_digit_x(s.get_char(i)) {
        digit_end_x(s, i + 1, n)
    } else {
        i
    }
}

/// Prepends `t` to a token vector and relates the views.
fn cons_tok(t: Tok, mut ts: Vec<Tok>) -> (r: Vec<Tok>)
    ensures
        toks_views(r@) == seq![t@] + toks_views(ts@),
{
    let ghost before = ts@;
    ts.insert(0, t);
    proof {
        assert(toks_views(ts@) =~= seq![t@] + toks_views(before));
    }
    ts
}

fn lex_from(s: &str, i: usize) -> (r: Result<Vec<Tok>, SpecError>)
    requires
        i <= s@.len(),
    ensures
        lex_matches(r, spec_lex(s@, i as int)),
    decreases s@.len() - i,
{
    let n = s.unicode_len();
    if i == n {
        let r: Vec<Tok> = Vec::new();
        proof {
            assert(toks_views(r@) =~= Seq::<TokV>::empty());
        }
        return Ok(r);
    }
    let c = s.get_char(i);
    if is_space_x(c) {
        lex_from(s, i + 1)
    } else if is_ident_start_x(c) {
        let j = ident_end_x(s, i, n);
        proof {
            lemma_ident_end(s@, i as int);
        }
        let name = String::from_str(s.substring_char(i, j));
        match lex_from(s, j) {
            Ok(ts) => Ok(cons_tok(Tok::Ident(name), ts)),
            Err(e) => Err(e),
        }
    } else if is_digit_x(c) {
        let j = digit_end_x(s, i, n);
        proof {
            lemma_digit_end(s@, i as int);
        }
        match lex_from(s, j) {
            Ok(ts) => Ok(cons_tok(Tok::Int, ts)),
            Err(e) => Err(e),
        }
    } else if c == ':' {
        if i + 1 < n && s.get_char(i + 1) == ':' {
            match lex_from(s, i + 2) {
                Ok(ts) => Ok(cons_tok(Tok::PathSep, ts)),
                Err(e) => Err(e),
            }
        } else {
            match lex_from(s, i + 1) {
                Ok(ts) => Ok(cons_tok(Tok::Colon, ts)),
                Err(e) => Err(e),
            }
        }
    } else if c == '{' {
        match lex_from(s, i + 1) {
            Ok(ts) => Ok(cons_tok(Tok::LBrace, ts)),
            Err(e) => Err(e),
        }
    } else if c == '}' {
        match lex_from(s, i + 1) {
            Ok(ts) => Ok(cons_tok(Tok::RBrace, ts)),
            Err(e) => Err(e),
        }
    } else if c == '[' {
        match lex_from(s, i + 1) {
            Ok(ts) => Ok(cons_tok(Tok::LBrack, ts)),
            Err(e) => Err(e),
        }
    } else if c == ']' {
        match lex_from(s, i + 1) {
            Ok(ts) => Ok(cons_tok(Tok::RBrack, ts)),
            Err(e) => Err(e),
        }
    } else if c == ',' {
        match lex_from(s, i + 1) {
            Ok(ts) => Ok(cons_tok(Tok::Comma, ts)),
            Err(e) => Err(e),
        }
    } else {
        Err(SpecError::BadChar)
    }
}

/// Lexes a whole DSL expression.
pub fn lex(s: &str) -> (r: Result<Vec<Tok>, SpecError>)
    ensures
        lex_matches(r, spec_lex(s@, 0)),
{
    lex_from(s, 0)
}

} // verus!
