//! The capability tree builder: classifies each raw field as a nested
//! sub-protocol or a hook, resolves a hook's configuration keys, and turns a
//! raw expression into a `Protocol` tree.  `spec_build` is the reference;
//! the executable builder returns exactly its result.

use vstd::prelude::*;
use vstd::string::StringExecFns;

use crate::SpecError;
use crate::ast::{
    lemma_seq_add_assoc,
    Expr,
    ExprV,
    Field,
    FieldV,
    Hook,
    HookV,
    Protocol,
    ProtocolV,
    exprs_views,
    fields_views,
    hooks_views,
    protocols_views,
    strs_views,
};

verus! {

broadcast use vstd::std_specs::vec::group_vec_axioms, crate::ast::group_ast_views;

/// The tag of a sub-protocol field.
pub open spec fn tag_struct() -> Seq<char> {
    "Struct"@
}

/// The tag of a hook field, also the default when a name has no tag.
pub open spec fn tag_method() -> Seq<char> {
    "Method"@
}

/// The configuration key that lists a hook's argument type names.
pub open spec fn key_arguments() -> Seq<char> {
    "arguments"@
}

/// The configuration key that names a hook's success type.
pub open spec fn key_success() -> Seq<char> {
    "success"@
}

/// The success type name a hook gets when `success` is not configured.
pub open spec fn default_success() -> Seq<char> {
    "Success"@
}

/// Which kind a qualified name announces: `true` for a sub-protocol.
/// A single segment defaults to a hook; more than two segments is an error.
pub open spec fn classify(segs: Seq<Seq<char>>) -> Result<(bool, Seq<char>), SpecError> {
    if segs.len() == 1 {
        Ok((false, segs[0]))
    } else if segs.len() == 2 {
        if segs[0] == tag_struct() {
            Ok((true, segs[1]))
        } else if segs[0] == tag_method() {
            Ok((false, segs[1]))
        } else {
            Err(SpecError::BadTag)
        }
    } else {
        Err(SpecError::UnexpectedPath)
    }
}

/// The single identifier a value must be (a success type name).
pub open spec fn ident_of(e: ExprV) -> Result<Seq<char>, SpecError> {
    match e {
        ExprV::Path(segs) => if segs.len() == 1 {
            Ok(segs[0])
        } else {
            Err(SpecError::ExpectedIdent)
        },
        _ => Err(SpecError::ExpectedIdent),
    }
}

pub open spec fn idents_of(es: Seq<ExprV>) -> Result<Seq<Seq<char>>, SpecError>
    decreases es,
{
    if es.len() == 0 {
        Ok(Seq::empty())
    } else {
        match ident_of(es[0]) {
            Ok(id) => match idents_of(es.skip(1)) {
                Ok(rest) => Ok(seq![id] + rest),
                Err(e) => Err(e),
            },
            Err(e) => Err(e),
        }
    }
}

/// An `arguments` value, normalized: a bare identifier and a bracketed list
/// both become the ordered sequence of argument type names.
pub open spec fn args_of(e: ExprV) -> Result<Seq<Seq<char>>, SpecError> {
    match e {
        ExprV::Path(segs) => if segs.len() == 1 {
            Ok(seq![segs[0]])
        } else {
            Err(SpecError::ExpectedIdent)
        },
        ExprV::List(es) => idents_of(es),
        _ => Err(SpecError::UnexpectedArguments),
    }
}

/// Folds a hook's configuration fields over the running (arguments, success)
/// state.  Exactly two keys are understood; any other key is a hard error.
pub open spec fn hook_config(fields: Seq<FieldV>, args: Seq<Seq<char>>, success: Seq<char>) -> Result<
    (Seq<Seq<char>>, Seq<char>),
    SpecError,
>
    decreases fields,
{
    if fields.len() == 0 {
        Ok((args, success))
    } else {
        let f0 = fields[0];
        if f0.name == key_arguments() {
            match args_of(f0.value) {
                Ok(ids) => hook_config(fields.skip(1), ids, success),
                Err(e) => Err(e),
            }
        } else if f0.name == key_success() {
            match ident_of(f0.value) {
                Ok(id) => hook_config(fields.skip(1), args, id),
                Err(e) => Err(e),
            }
        } else {
            Err(SpecError::UnexpectedField)
        }
    }
}

/// A hook from its name, owning field name, and configuration fields.
pub open spec fn build_hook(name: Seq<char>, fname: Seq<char>, fields: Seq<FieldV>) -> Result<
    HookV,
    SpecError,
> {
    match hook_config(fields, Seq::empty(), default_success()) {
        Ok((args, success)) => Ok(HookV { field: fname, name, arguments: args, success }),
        Err(e) => Err(e),
    }
}

/// The hooks and sub-protocols of a record body, in declaration order.
pub open spec fn build_fields(fields: Seq<FieldV>) -> Result<(Seq<HookV>, Seq<ProtocolV>), SpecError>
    decreases fields, 1int,
{
    if fields.len() == 0 {
        Ok((Seq::empty(), Seq::empty()))
    } else {
        let f0 = fields[0];
        match build_field(f0) {
            Ok((Some(h), None)) => match build_fields(fields.skip(1)) {
                Ok((hs, cs)) => Ok((seq![h] + hs, cs)),
                Err(e) => Err(e),
            },
            Ok((None, Some(c))) => match build_fields(fields.skip(1)) {
                Ok((hs, cs)) => Ok((hs, seq![c] + cs)),
                Err(e) => Err(e),
            },
            Ok(_) => Err(SpecError::ExpectedStruct),
            Err(e) => Err(e),
        }
    }
}

/// One record field as either a hook or a sub-protocol.
pub open spec fn build_field(f: FieldV) -> Result<(Option<HookV>, Option<ProtocolV>), SpecError>
    decreases f.value, 0int,
{
    match f.value {
        ExprV::Literal => Err(SpecError::Placeholder),
        ExprV::List(_) => Err(SpecError::ExpectedStruct),
        ExprV::Path(segs) => match classify(segs) {
            Ok((true, name)) => Ok(
                (
                    None,
                    Some(
                        ProtocolV {
                            field: Some(f.name),
                            name,
                            hooks: Seq::empty(),
                            children: Seq::empty(),
                        },
                    ),
                ),
            ),
            Ok((false, name)) => match build_hook(name, f.name, Seq::empty()) {
                Ok(h) => Ok((Some(h), None)),
                Err(e) => Err(e),
            },
            Err(e) => Err(e),
        },
        ExprV::Record(segs, subfields) => match classify(segs) {
            Ok((true, name)) => match build_fields(subfields) {
                Ok((hs, cs)) => Ok(
                    (None, Some(ProtocolV { field: Some(f.name), name, hooks: hs, children: cs })),
                ),
                Err(e) => Err(e),
            },
            Ok((false, name)) => match build_hook(name, f.name, subfields) {
                Ok(h) => Ok((Some(h), None)),
                Err(e) => Err(e),
            },
            Err(e) => Err(e),
        },
    }
}

/// The capability tree of a whole raw expression.  The root must be tagged
/// `Struct`; anything else aborts with no partial tree.
pub open spec fn spec_build(e: ExprV) -> Result<ProtocolV, SpecError> {
    match e {
        ExprV::Path(segs) => match classify(segs) {
            Ok((true, name)) => Ok(
                ProtocolV { field: None, name, hooks: Seq::empty(), children: Seq::empty() },
            ),
            Ok((false, _)) => Err(SpecError::RootNotStruct),
            Err(e) => Err(e),
        },
        ExprV::Record(segs, fields) => match classify(segs) {
            Ok((true, name)) => match build_fields(fields) {
                Ok((hs, cs)) => Ok(ProtocolV { field: None, name, hooks: hs, children: cs }),
                Err(e) => Err(e),
            },
            Ok((false, _)) => Err(SpecError::RootNotStruct),
            Err(e) => Err(e),
        },
        _ => Err(SpecError::ExpectedStruct),
    }
}

/// A single bare argument and a one-element bracketed argument list
/// normalize to the same internal representation.
pub proof fn lemma_argument_normalization(a: Seq<char>)
    ensures
        args_of(ExprV::Path(seq![a])) == args_of(ExprV::List(seq![ExprV::Path(seq![a])])),
{
    let es = seq![ExprV::Path(seq![a])];
    assert(es.skip(1) =~= Seq::<ExprV>::empty());
    assert(idents_of(es.skip(1)) == Ok::<Seq<Seq<char>>, SpecError>(Seq::<Seq<char>>::empty()));
    assert(ident_of(es[0]) == Ok::<Seq<char>, SpecError>(a));
    assert(seq![a] + Seq::<Seq<char>>::empty() =~= seq![a]);
}

fn clone_str(s: &String) -> (r: String)
    ensures
        r@ == s@,
{
    String::from_str(s.as_str())
}

fn classify_x(segs: &Vec<String>) -> (r: Result<(bool, String), SpecError>)
    ensures
        match r {
            Ok((is_sub, name)) => classify(strs_views(segs@)) == Ok::<(bool, Seq<char>), SpecError>(
                (is_sub, name@),
            ),
            Err(e) => classify(strs_views(segs@)) == Err::<(bool, Seq<char>), SpecError>(e),
        },
{
    if segs.len() == 1 {
        Ok((false, clone_str(&segs[0])))
    } else if segs.len() == 2 {
        let struct_tag = String::from_str("Struct");
        let method_tag = String::from_str("Method");
        if segs[0] == struct_tag {
            Ok((true, clone_str(&segs[1])))
        } else if segs[0] == method_tag {
            Ok((false, clone_str(&segs[1])))
        } else {
            Err(SpecError::BadTag)
        }
    } else {
        Err(SpecError::UnexpectedPath)
    }
}

fn ident_of_x(e: &Expr) -> (r: Result<String, SpecError>)
    ensures
        match r {
            Ok(id) => ident_of(e@) == Ok::<Seq<char>, SpecError>(id@),
            Err(er) => ident_of(e@) == Err::<Seq<char>, SpecError>(er),
        },
{
    match e {
        Expr::Path(segs) => if segs.len() == 1 {
            Ok(clone_str(&segs[0]))
        } else {
            Err(SpecError::ExpectedIdent)
        },
        _ => Err(SpecError::ExpectedIdent),
    }
}

fn idents_of_x(es: &Vec<Expr>, k: usize) -> (r: Result<Vec<String>, SpecError>)
    requires
        k <= es@.len(),
    ensures
        match r {
            Ok(ids) => idents_of(exprs_views(es@).skip(k as int)) == Ok::<Seq<Seq<char>>, SpecError>(
                strs_views(ids@),
            ),
            Err(er) => idents_of(exprs_views(es@).skip(k as int)) == Err::<Seq<Seq<char>>, SpecError>(er),
        },
    decreases es@.len() - k,
{
    let ghost ev = exprs_views(es@);
    if k == es.len() {
        let ids: Vec<String> = Vec::new();
        proof {
            assert(ev.skip(k as int) =~= Seq::<ExprV>::empty());
            assert(strs_views(ids@) =~= Seq::<Seq<char>>::empty());
        }
        Ok(ids)
    } else {
        proof {
            assert(ev.skip(k as int)[0] == ev[k as int]);
            assert(ev.skip(k as int).skip(1) =~= ev.skip(k as int + 1));
        }
        match ident_of_x(&es[k]) {
            Ok(id) => match idents_of_x(es, k + 1) {
                Ok(rest) => {
                    let ghost idv = id@;
                    let ghost before = rest@;
                    let mut rest = rest;
                    rest.insert(0, id);
                    proof {
                        assert(strs_views(rest@) =~= seq![idv] + strs_views(before));
                    }
                    Ok(rest)
                },
                Err(e) => Err(e),
            },
            Err(e) => Err(e),
        }
    }
}

fn args_of_x(e: &Expr) -> (r: Result<Vec<String>, SpecError>)
    ensures
        match r {
            Ok(ids) => args_of(e@) == Ok::<Seq<Seq<char>>, SpecError>(strs_views(ids@)),
            Err(er) => args_of(e@) == Err::<Seq<Seq<char>>, SpecError>(er),
        },
{
    match e {
        Expr::Path(segs) => if segs.len() == 1 {
            let mut ids: Vec<String> = Vec::new();
            ids.push(clone_str(&segs[0]));
            proof {
                assert(strs_views(ids@) =~= seq![segs@[0]@]);
            }
            Ok(ids)
        } else {
            Err(SpecError::ExpectedIdent)
        },
        Expr::List(es) => {
            let r = idents_of_x(es, 0);
            proof {
                assert(exprs_views(es@).skip(0) =~= exprs_views(es@));
            }
            r
        },
        _ => Err(SpecError::UnexpectedArguments),
    }
}

fn build_hook_x(name: String, fname: String, fields: &Vec<Field>) -> (r: Result<Hook, SpecError>)
    ensures
        match r {
            Ok(h) => build_hook(name@, fname@, fields_views(fields@)) == Ok::<HookV, SpecError>(h@),
            Err(er) => build_hook(name@, fname@, fields_views(fields@)) == Err::<HookV, SpecError>(er),
        },
{
    let ghost fv = fields_views(fields@);
    let arguments_key = String::from_str("arguments");
    let success_key = String::from_str("success");
    let mut args: Vec<String> = Vec::new();
    let mut success = String::from_str("Success");
    let mut k: usize = 0;
    proof {
        assert(fv.skip(0) =~= fv);
        assert(strs_views(args@) =~= Seq::<Seq<char>>::empty());
    }
    while k < fields.len()
        invariant
            k <= fields@.len(),
            fv == fields_views(fields@),
            arguments_key@ == key_arguments(),
            success_key@ == key_success(),
            hook_config(fv, Seq::empty(), default_success()) == hook_config(
                fv.skip(k as int),
                strs_views(args@),
                success@,
            ),
        decreases fields@.len() - k,
    {
        proof {
            assert(fv.skip(k as int)[0] == fv[k as int]);
            assert(fv.skip(k as int).skip(1) =~= fv.skip(k as int + 1));
        }
        let f = &fields[k];
        if f.name == arguments_key {
            match args_of_x(&f.value) {
                Ok(ids) => {
                    args = ids;
                },
                Err(e) => {
                    return Err(e);
                },
            }
        } else if f.name == success_key {
            match ident_of_x(&f.value) {
                Ok(id) => {
                    success = id;
                },
                Err(e) => {
                    return Err(e);
                },
            }
        } else {
            return Err(SpecError::UnexpectedField);
        }
        k += 1;
    }
    proof {
        assert(fv.skip(fields@.len() as int) =~= Seq::<FieldV>::empty());
    }
    Ok(Hook { field: fname, name, arguments: args, success })
}

fn build_fields_x(fields: &Vec<Field>) -> (r: Result<(Vec<Hook>, Vec<Protocol>), SpecError>)
    ensures
        match r {
            Ok((hs, cs)) => build_fields(fields_views(fields@)) == Ok::<
                (Seq<HookV>, Seq<ProtocolV>),
                SpecError,
            >((hooks_views(hs@), protocols_views(cs@))),
            Err(er) => build_fields(fields_views(fields@)) == Err::<
                (Seq<HookV>, Seq<ProtocolV>),
                SpecError,
            >(er),
        },
    decreases fields, 1int,
{
    let ghost fv = fields_views(fields@);
    let mut hooks: Vec<Hook> = Vec::new();
    let mut children: Vec<Protocol> = Vec::new();
    let mut k: usize = 0;
    proof {
        assert(fv.skip(0) =~= fv);
    }
    while k < fields.len()
        invariant
            k <= fields@.len(),
            fv == fields_views(fields@),
            match build_fields(fv.skip(k as int)) {
                Ok((hs, cs)) => build_fields(fv) == Ok::<(Seq<HookV>, Seq<ProtocolV>), SpecError>(
                    (hooks_views(hooks@) + hs, protocols_views(children@) + cs),
                ),
                Err(e) => build_fields(fv) == Err::<(Seq<HookV>, Seq<ProtocolV>), SpecError>(e),
            },
        decreases fields@.len() - k,
    {
        proof {
            assert(fv.skip(k as int)[0] == fv[k as int]);
            assert(fv.skip(k as int).skip(1) =~= fv.skip(k as int + 1));
        }
        let ghost hooks_before = hooks@;
        let ghost children_before = children@;
        match build_field_x(&fields[k]) {
            Ok((Some(h), None)) => {
                let ghost hv = h@;
                hooks.push(h);
                proof {
                    assert(hooks_views(hooks@) =~= hooks_views(hooks_before) + seq![hv]);
                    if let Ok((hs2, _)) = build_fields(fv.skip(k as int + 1)) {
                        lemma_seq_add_assoc(hooks_views(hooks_before), seq![hv], hs2);
                    }
                }
            },
            Ok((None, Some(c))) => {
                let ghost cv = c@;
                children.push(c);
                proof {
                    assert(protocols_views(children@) =~= protocols_views(children_before) + seq![
                        cv,
                    ]);
                    if let Ok((_, cs2)) = build_fields(fv.skip(k as int + 1)) {
                        lemma_seq_add_assoc(protocols_views(children_before), seq![cv], cs2);
                    }
                }
            },
            Ok(_) => {
                return Err(SpecError::ExpectedStruct);
            },
            Err(e) => {
                return Err(e);
            },
        }
        k += 1;
    }
    proof {
        assert(fv.skip(fields@.len() as int) =~= Seq::<FieldV>::empty());
        assert(hooks_views(hooks@) + Seq::<HookV>::empty() =~= hooks_views(hooks@));
        assert(protocols_views(children@) + Seq::<ProtocolV>::empty() =~= protocols_views(
            children@,
        ));
    }
    Ok((hooks, children))
}

fn build_field_x(f: &Field) -> (r: Result<(Option<Hook>, Option<Protocol>), SpecError>)
    ensures
        match r {
            Ok((Some(h), None)) => build_field(f@) == Ok::<
                (Option<HookV>, Option<ProtocolV>),
                SpecError,
            >((Some(h@), None)),
            Ok((None, Some(c))) => build_field(f@) == Ok::<
                (Option<HookV>, Option<ProtocolV>),
                SpecError,
            >((None, Some(c@))),
            Ok(_) => false,
            Err(er) => build_field(f@) == Err::<(Option<HookV>, Option<ProtocolV>), SpecError>(er),
        },
    decreases f, 2int,
{
    proof {
        assert(hooks_views(Seq::<Hook>::empty()) =~= Seq::<HookV>::empty());
        assert(protocols_views(Seq::<Protocol>::empty()) =~= Seq::<ProtocolV>::empty());
    }
    match &f.value {
        Expr::Literal => Err(SpecError::Placeholder),
        Expr::List(_) => Err(SpecError::ExpectedStruct),
        Expr::Path(segs) => match classify_x(segs) {
            Ok((true, name)) => Ok(
                (
                    None,
                    Some(
                        Protocol {
                            field: Some(clone_str(&f.name)),
                            name,
                            hooks: Vec::new(),
                            children: Vec::new(),
                        },
                    ),
                ),
            ),
            Ok((false, name)) => {
                let cfg: Vec<Field> = Vec::new();
                proof {
                    assert(fields_views(cfg@) =~= Seq::<FieldV>::empty());
                }
                match build_hook_x(name, clone_str(&f.name), &cfg) {
                    Ok(h) => Ok((Some(h), None)),
                    Err(e) => Err(e),
                }
            },
            Err(e) => Err(e),
        },
        Expr::Record(segs, subfields) => match classify_x(segs) {
            Ok((true, name)) => match build_fields_x(subfields) {
                Ok((hs, cs)) => Ok(
                    (
                        None,
                        Some(
                            Protocol {
                                field: Some(clone_str(&f.name)),
                                name,
                                hooks: hs,
                                children: cs,
                            },
                        ),
                    ),
                ),
                Err(e) => Err(e),
            },
            Ok((false, name)) => match build_hook_x(name, clone_str(&f.name), subfields) {
                Ok(h) => Ok((Some(h), None)),
                Err(e) => Err(e),
            },
            Err(e) => Err(e),
        },
    }
}

/// Builds the capability tree of a parsed expression.
pub fn build(e: &Expr) -> (r: Result<Protocol, SpecError>)
    ensures
        match r {
            Ok(p) => spec_build(e@) == Ok::<ProtocolV, SpecError>(p@),
            Err(er) => spec_build(e@) == Err::<ProtocolV, SpecError>(er),
        },
{
    proof {
        assert(hooks_views(Seq::<Hook>::empty()) =~= Seq::<HookV>::empty());
        assert(protocols_views(Seq::<Protocol>::empty()) =~= Seq::<ProtocolV>::empty());
    }
    match e {
        Expr::Path(segs) => match classify_x(segs) {
            Ok((true, name)) => Ok(
                Protocol { field: None, name, hooks: Vec::new(), children: Vec::new() },
            ),
            Ok((false, _)) => Err(SpecError::RootNotStruct),
            Err(e) => Err(e),
        },
        Expr::Record(segs, fields) => match classify_x(segs) {
            Ok((true, name)) => match build_fields_x(fields) {
                Ok((hs, cs)) => Ok(Protocol { field: None, name, hooks: hs, children: cs }),
                Err(e) => Err(e),
            },
            Ok((false, _)) => Err(SpecError::RootNotStruct),
            Err(e) => Err(e),
        },
        _ => Err(SpecError::ExpectedStruct),
    }
}

} // verus!
