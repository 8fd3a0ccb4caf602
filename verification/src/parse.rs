//! Recursive-descent parser from tokens to a raw expression.
//!
//! Grammar of one expression:
//! `expr ::= path | path '{' fields '}' | '[' exprs ']' | integer`
//! `path ::= Ident ('::' Ident)*`
//! `fields ::= (Ident ':' expr),* ','?`
//! The `spec_parse` family is the reference; each executable function returns
//! exactly what its spec twin prescribes.

use vstd::prelude::*;
use vstd::string::StringExecFns;

use crate::SpecError;
use crate::ast::{Expr, ExprV, Field, FieldV, strs_views, exprs_views, fields_views};
use crate::lex::{Tok, TokV, toks_views};

verus! {

broadcast use vstd::std_specs::vec::group_vec_axioms, crate::ast::group_ast_views;

/// The segments of a qualified name starting at `i`, with the position after.
pub open spec fn parse_path(toks: Seq<TokV>, i: int) -> Result<(Seq<Seq<char>>, int), SpecError>
    decreases toks.len() - i,
{
    if i < 0 || i >= toks.len() {
        Err(SpecError::UnexpectedEnd)
    } else {
        match toks[i] {
            TokV::Ident(name) => if i + 1 < toks.len() && toks[i + 1] == TokV::PathSep {
                match parse_path(toks, i + 2) {
                    Ok((segs, j)) => Ok((seq![name] + segs, j)),
                    Err(e) => Err(e),
                }
            } else {
                Ok((seq![name], i + 1))
            },
            _ => Err(SpecError::ExpectedIdent),
        }
    }
}

pub proof fn lemma_parse_path_progress(toks: Seq<TokV>, i: int)
    ensures
        match parse_path(toks, i) {
            Ok((segs, j)) => i < j <= toks.len() && segs.len() >= 1,
            Err(_) => true,
        },
    decreases toks.len() - i,
{
    if 0 <= i < toks.len() {
        if i + 1 < toks.len() && toks[i + 1] == TokV::PathSep {
            lemma_parse_path_progress(toks, i + 2);
        }
    }
}

/// One expression starting at `i`, with the position after.
pub open spec fn parse_expr(toks: Seq<TokV>, i: int) -> Result<(ExprV, int), SpecError>
    decreases toks.len() - i, 0int,
    via parse_expr_dec
{
    if i < 0 || i >= toks.len() {
        Err(SpecError::UnexpectedEnd)
    } else {
        match toks[i] {
            TokV::Int => Ok((ExprV::Literal, i + 1)),
            TokV::LBrack => match parse_list(toks, i + 1) {
                Ok((es, j)) => Ok((ExprV::List(es), j)),
                Err(e) => Err(e),
            },
            TokV::Ident(_) => match parse_path(toks, i) {
                Ok((segs, j)) => if j < toks.len() && toks[j] == TokV::LBrace {
                    match parse_fields(toks, j + 1) {
                        Ok((fs, k)) => Ok((ExprV::Record(segs, fs), k)),
                        Err(e) => Err(e),
                    }
                } else {
                    Ok((ExprV::Path(segs), j))
                },
                Err(e) => Err(e),
            },
            _ => Err(SpecError::UnexpectedToken),
        }
    }
}

#[via_fn]
proof fn parse_expr_dec(toks: Seq<TokV>, i: int) {
    lemma_parse_path_progress(toks, i);
}

/// The fields of a record from `i` up to and over the closing brace.
pub open spec fn parse_fields(toks: Seq<TokV>, i: int) -> Result<(Seq<FieldV>, int), SpecError>
    decreases toks.len() - i, 1int,
{
    if i < 0 || i >= toks.len() {
        Err(SpecError::UnexpectedEnd)
    } else if toks[i] == TokV::RBrace {
        Ok((Seq::empty(), i + 1))
    } else {
        match toks[i] {
            TokV::Ident(name) => if i + 1 < toks.len() && toks[i + 1] == TokV::Colon {
                match parse_expr(toks, i + 2) {
                    Ok((v, j)) => {
                        let field = FieldV { name, value: v };
                        if j >= toks.len() {
                            Err(SpecError::UnexpectedEnd)
                        } else if toks[j] == TokV::RBrace {
                            Ok((seq![field], j + 1))
                        } else if toks[j] == TokV::Comma && i <= j {
                            match parse_fields(toks, j + 1) {
                                Ok((fs, k)) => Ok((seq![field] + fs, k)),
                                Err(e) => Err(e),
                            }
                        } else {
                            Err(SpecError::UnexpectedToken)
                        }
                    },
                    Err(e) => Err(e),
                }
            } else {
                Err(SpecError::UnexpectedToken)
            },
            _ => Err(SpecError::UnexpectedToken),
        }
    }
}

/// The elements of a bracketed list from `i` up to and over `]`.
pub open spec fn parse_list(toks: Seq<TokV>, i: int) -> Result<(Seq<ExprV>, int), SpecError>
    decreases toks.len() - i, 2int,
{
    if i < 0 || i >= toks.len() {
        Err(SpecError::UnexpectedEnd)
    } else if toks[i] == TokV::RBrack {
        Ok((Seq::empty(), i + 1))
    } else {
        match parse_expr(toks, i) {
            Ok((e, j)) => if j >= toks.len() {
                Err(SpecError::UnexpectedEnd)
            } else if toks[j] == TokV::RBrack {
                Ok((seq![e], j + 1))
            } else if toks[j] == TokV::Comma && i <= j {
                match parse_list(toks, j + 1) {
                    Ok((es, k)) => Ok((seq![e] + es, k)),
                    Err(e) => Err(e),
                }
            } else {
                Err(SpecError::UnexpectedToken)
            },
            Err(e) => Err(e),
        }
    }
}

pub proof fn lemma_parse_expr_progress(toks: Seq<TokV>, i: int)
    ensures
        match parse_expr(toks, i) {
            Ok((_, j)) => i < j <= toks.len(),
            Err(_) => true,
        },
    decreases toks.len() - i, 0int,
{
    if 0 <= i < toks.len() {
        match toks[i] {
            TokV::LBrack => {
                lemma_parse_list_progress(toks, i + 1);
            },
            TokV::Ident(_) => {
                lemma_parse_path_progress(toks, i);
                if let Ok((_, j)) = parse_path(toks, i) {
                    if j < toks.len() && toks[j] == TokV::LBrace {
                        lemma_parse_fields_progress(toks, j + 1);
                    }
                }
            },
            _ => {},
        }
    }
}

pub proof fn lemma_parse_fields_progress(toks: Seq<TokV>, i: int)
    ensures
        match parse_fields(toks, i) {
            Ok((_, j)) => i < j <= toks.len(),
            Err(_) => true,
        },
    decreases toks.len() - i, 1int,
{
    if 0 <= i < toks.len() && toks[i] != TokV::RBrace {
        if toks[i] is Ident && i + 1 < toks.len() && toks[i + 1] == TokV::Colon {
            lemma_parse_expr_progress(toks, i + 2);
            if let Ok((_, j)) = parse_expr(toks, i + 2) {
                if j < toks.len() && toks[j] == TokV::Comma {
                    lemma_parse_fields_progress(toks, j + 1);
                }
            }
        }
    }
}

pub proof fn lemma_parse_list_progress(toks: Seq<TokV>, i: int)
    ensures
        match parse_list(toks, i) {
            Ok((_, j)) => i < j <= toks.len(),
            Err(_) => true,
        },
    decreases toks.len() - i, 2int,
{
    if 0 <= i < toks.len() && toks[i] != TokV::RBrack {
        lemma_parse_expr_progress(toks, i);
        if let Ok((_, j)) = parse_expr(toks, i) {
            if j < toks.len() && toks[j] == TokV::Comma {
                lemma_parse_list_progress(toks, j + 1);
            }
        }
    }
}

/// The whole token stream as one expression, with nothing after it.
pub open spec fn spec_parse(toks: Seq<TokV>) -> Result<ExprV, SpecError> {
    match parse_expr(toks, 0) {
        Ok((e, j)) => if j == toks.len() {
            Ok(e)
        } else {
            Err(SpecError::UnexpectedToken)
        },
        Err(e) => Err(e),
    }
}

fn cons_str(s: String, v: Vec<String>) -> (r: Vec<String>)
    ensures
        strs_views(r@) == seq![s@] + strs_views(v@),
{
    let ghost before = v@;
    let mut v = v;
    v.insert(0, s);
    proof {
        assert(strs_views(v@) =~= seq![s@] + strs_views(before));
    }
    v
}

fn clone_str(s: &String) -> (r: String)
    ensures
        r@ == s@,
{
    String::from_str(s.as_str())
}

fn parse_path_x(toks: &Vec<Tok>, i: usize) -> (r: Result<(Vec<String>, usize), SpecError>)
    ensures
        match r {
            Ok((segs, j)) => parse_path(toks_views(toks@), i as int) == Ok::<(Seq<Seq<char>>, int), SpecError>((strs_views(segs@), j as int)) && j <= toks@.len(),
            Err(e) => parse_path(toks_views(toks@), i as int) == Err::<(Seq<Seq<char>>, int), SpecError>(e),
        },
    decreases toks@.len() - i,
{
    let ghost tv = toks_views(toks@);
    if i >= toks.len() {
        return Err(SpecError::UnexpectedEnd);
    }
    match &toks[i] {
        Tok::Ident(name) => {
            let sep = i + 1 < toks.len() && matches!(&toks[i + 1], Tok::PathSep);
            proof {
                assert(sep == (i + 1 < tv.len() && tv[i as int + 1] == TokV::PathSep));
            }
            if sep {
                match parse_path_x(toks, i + 2) {
                    Ok((segs, j)) => Ok((cons_str(clone_str(name), segs), j)),
                    Err(e) => Err(e),
                }
            } else {
                let mut segs: Vec<String> = Vec::new();
                segs.push(clone_str(name));
                proof {
                    assert(strs_views(segs@) =~= seq![name@]);
                }
                Ok((segs, i + 1))
            }
        },
        _ => Err(SpecError::ExpectedIdent),
    }
}

fn parse_expr_x(toks: &Vec<Tok>, i: usize) -> (r: Result<(Expr, usize), SpecError>)
    ensures
        match r {
            Ok((e, j)) => parse_expr(toks_views(toks@), i as int) == Ok::<(ExprV, int), SpecError>((e@, j as int)) && j <= toks@.len(),
            Err(er) => parse_expr(toks_views(toks@), i as int) == Err::<(ExprV, int), SpecError>(er),
        },
    decreases toks@.len() - i, 0int,
{
    let ghost tv = toks_views(toks@);
    if i >= toks.len() {
        return Err(SpecError::UnexpectedEnd);
    }
    match &toks[i] {
        Tok::Int => Ok((Expr::Literal, i + 1)),
        Tok::LBrack => match parse_list_x(toks, i + 1) {
            Ok((es, j)) => Ok((Expr::List(es), j)),
            Err(e) => Err(e),
        },
        Tok::Ident(_) => match parse_path_x(toks, i) {
            Ok((segs, j)) => {
                proof {
                    lemma_parse_path_progress(tv, i as int);
                }
                let brace = j < toks.len() && matches!(&toks[j], Tok::LBrace);
                proof {
                    assert(brace == (j < tv.len() && tv[j as int] == TokV::LBrace));
                }
                if brace {
                    match parse_fields_x(toks, j + 1) {
                        Ok((fs, k)) => Ok((Expr::Record(segs, fs), k)),
                        Err(e) => Err(e),
                    }
                } else {
                    Ok((Expr::Path(segs), j))
                }
            },
            Err(e) => Err(e),
        },
        _ => Err(SpecError::UnexpectedToken),
    }
}

fn parse_fields_x(toks: &Vec<Tok>, i: usize) -> (r: Result<(Vec<Field>, usize), SpecError>)
    ensures
        match r {
            Ok((fs, j)) => parse_fields(toks_views(toks@), i as int) == Ok::<(Seq<FieldV>, int), SpecError>((fields_views(fs@), j as int)) && j <= toks@.len(),
            Err(er) => parse_fields(toks_views(toks@), i as int) == Err::<(Seq<FieldV>, int), SpecError>(er),
        },
    decreases toks@.len() - i, 1int,
{
    let ghost tv = toks_views(toks@);
    if i >= toks.len() {
        return Err(SpecError::UnexpectedEnd);
    }
    if matches!(&toks[i], Tok::RBrace) {
        let fs: Vec<Field> = Vec::new();
        proof {
            assert(fields_views(fs@) =~= Seq::<FieldV>::empty());
        }
        return Ok((fs, i + 1));
    }
    match &toks[i] {
        Tok::Ident(name) => {
            let colon = i + 1 < toks.len() && matches!(&toks[i + 1], Tok::Colon);
            proof {
                assert(colon == (i + 1 < tv.len() && tv[i as int + 1] == TokV::Colon));
            }
            if colon {
                match parse_expr_x(toks, i + 2) {
                    Ok((v, j)) => {
                        proof {
                            lemma_parse_expr_progress(tv, i as int + 2);
                        }
                        let field = Field { name: clone_str(name), value: v };
                        if j >= toks.len() {
                            Err(SpecError::UnexpectedEnd)
                        } else if matches!(&toks[j], Tok::RBrace) {
                            let mut fs: Vec<Field> = Vec::new();
                            let ghost fv = field@;
                            fs.push(field);
                            proof {
                                assert(fields_views(fs@) =~= seq![fv]);
                            }
                            Ok((fs, j + 1))
                        } else if matches!(&toks[j], Tok::Comma) {
                            match parse_fields_x(toks, j + 1) {
                                Ok((fs, k)) => {
                                    let ghost fv = field@;
                                    let ghost before = fs@;
                                    let mut fs = fs;
                                    fs.insert(0, field);
                                    proof {
                                        assert(fields_views(fs@) =~= seq![fv] + fields_views(before));
                                    }
                                    Ok((fs, k))
                                },
                                Err(e) => Err(e),
                            }
                        } else {
                            Err(SpecError::UnexpectedToken)
                        }
                    },
                    Err(e) => Err(e),
                }
            } else {
                Err(SpecError::UnexpectedToken)
            }
        },
        _ => Err(SpecError::UnexpectedToken),
    }
}

fn parse_list_x(toks: &Vec<Tok>, i: usize) -> (r: Result<(Vec<Expr>, usize), SpecError>)
    ensures
        match r {
            Ok((es, j)) => parse_list(toks_views(toks@), i as int) == Ok::<(Seq<ExprV>, int), SpecError>((exprs_views(es@), j as int)) && j <= toks@.len(),
            Err(er) => parse_list(toks_views(toks@), i as int) == Err::<(Seq<ExprV>, int), SpecError>(er),
        },
    decreases toks@.len() - i, 2int,
{
    let ghost tv = toks_views(toks@);
    if i >= toks.len() {
        return Err(SpecError::UnexpectedEnd);
    }
    if matches!(&toks[i], Tok::RBrack) {
        let es: Vec<Expr> = Vec::new();
        proof {
            assert(exprs_views(es@) =~= Seq::<ExprV>::empty());
        }
        return Ok((es, i + 1));
    }
    match parse_expr_x(toks, i) {
        Ok((e, j)) => {
            proof {
                lemma_parse_expr_progress(tv, i as int);
            }
            if j >= toks.len() {
                Err(SpecError::UnexpectedEnd)
            } else if matches!(&toks[j], Tok::RBrack) {
                let mut es: Vec<Expr> = Vec::new();
                let ghost ev = e@;
                es.push(e);
                proof {
                    assert(exprs_views(es@) =~= seq![ev]);
                }
                Ok((es, j + 1))
            } else if matches!(&toks[j], Tok::Comma) {
                match parse_list_x(toks, j + 1) {
                    Ok((es, k)) => {
                        let ghost ev = e@;
                        let ghost before = es@;
                        let mut es = es;
                        es.insert(0, e);
                        proof {
                            assert(exprs_views(es@) =~= seq![ev] + exprs_views(before));
                        }
                        Ok((es, k))
                    },
                    Err(e) => Err(e),
                }
            } else {
                Err(SpecError::UnexpectedToken)
            }
        },
        Err(e) => Err(e),
    }
}

/// Parses a whole token stream into one raw expression.
pub fn parse(toks: &Vec<Tok>) -> (r: Result<Expr, SpecError>)
    ensures
        match r {
            Ok(e) => spec_parse(toks_views(toks@)) == Ok::<ExprV, SpecError>(e@),
            Err(er) => spec_parse(toks_views(toks@)) == Err::<ExprV, SpecError>(er),
        },
{
    match parse_expr_x(toks, 0) {
        Ok((e, j)) => if j == toks.len() {
            Ok(e)
        } else {
            Err(SpecError::UnexpectedToken)
        },
        Err(e) => Err(e),
    }
}

} // verus!
