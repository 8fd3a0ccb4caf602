//! The interface hierarchy emitter.
//!
//! For each protocol node it emits, bottom-up, one marker trait per hook
//! (declaring the hook's argument and success associated types), the nested
//! protocols, and one composite trait that inherits the enclosing protocol's
//! trait and holds one dispatch-gated method signature per hook.  A trait
//! name is the fixed prefix, the concatenated names of all ancestors from
//! the root, the node's own name, and the fixed suffix, so same-named nodes
//! at different depths cannot collide.
//!
//! `protocol_text` is the reference artifact; the executable emitter
//! produces exactly that character sequence.

use vstd::prelude::*;

use crate::SpecError;
use crate::ast::{Expr, ExprV, Hook, HookV, Protocol, ProtocolV, hooks_views, strs_views};
use crate::lex::{lex, spec_lex};
use crate::names::{
    binder_of,
    camel_ok,
    check_camel,
    children_ok,
    exposed_name,
    hook_args_ok,
    hooks_ok,
    push_binder,
    push_exposed_name,
    push_str_chars,
    tree_names_ok,
};
use crate::parse::{parse, spec_parse};
use crate::tree::{build, spec_build};

verus! {

broadcast use vstd::std_specs::vec::group_vec_axioms, crate::ast::group_ast_views;

/// The globally unique trait name: prefix, concatenated ancestor names
/// (`prefix` holds them already joined), own name, suffix.
pub open spec fn trait_text(prefix: Seq<char>, name: Seq<char>) -> Seq<char> {
    "Py"@ + prefix + name + "Protocol"@
}

/// One associated-type requirement per argument type name.
pub open spec fn assoc_types_text(args: Seq<Seq<char>>) -> Seq<char>
    decreases args,
{
    if args.len() == 0 {
        Seq::empty()
    } else {
        "    type "@ + args[0] + ": for<'a> FromPyObject<'a>;\n"@ + assoc_types_text(args.skip(1))
    }
}

/// The marker trait of one hook: it inherits the owning composite trait and
/// declares the hook's argument and success associated types, nothing more.
pub open spec fn marker_text(h: HookV, prefix: Seq<char>, owner_trait: Seq<char>) -> Seq<char> {
    "pub trait "@ + trait_text(prefix, h.name) + ": "@ + owner_trait + " {\n"@ + assoc_types_text(
        h.arguments,
    ) + "    type "@ + h.success + ": ToPyObject;\n"@ + "}\n"@
}

/// The parameter list of a hook signature after the handle parameter.
pub open spec fn params_text(args: Seq<Seq<char>>) -> Seq<char>
    decreases args,
{
    if args.len() == 0 {
        Seq::empty()
    } else {
        ", "@ + binder_of(args[0]) + ": Self::"@ + args[0] + params_text(args.skip(1))
    }
}

/// One hook signature inside its composite trait, gated on the hook's
/// marker trait so it binds only where that capability is declared.
pub open spec fn sig_text(h: HookV, prefix: Seq<char>) -> Seq<char> {
    "    fn "@ + exposed_name(h.name) + "(&self, py: Python"@ + params_text(h.arguments)
        + ") -> PyResult<Self::"@ + h.success + ">\n        where Self: "@ + trait_text(
        prefix,
        h.name,
    ) + ";\n"@
}

pub open spec fn markers_text(hs: Seq<HookV>, prefix: Seq<char>, owner_trait: Seq<char>) -> Seq<
    char,
>
    decreases hs,
{
    if hs.len() == 0 {
        Seq::empty()
    } else {
        marker_text(hs[0], prefix, owner_trait) + markers_text(hs.skip(1), prefix, owner_trait)
    }
}

pub open spec fn sigs_text(hs: Seq<HookV>, prefix: Seq<char>) -> Seq<char>
    decreases hs,
{
    if hs.len() == 0 {
        Seq::empty()
    } else {
        sig_text(hs[0], prefix) + sigs_text(hs.skip(1), prefix)
    }
}

/// The whole text of one protocol node: hook markers first, then the nested
/// protocols, then the composite trait itself — children before parents, so
/// nothing is referred to before it stands.
pub open spec fn protocol_text(p: ProtocolV, prefix: Seq<char>, parent_trait: Option<Seq<char>>) -> Seq<
    char,
>
    decreases p,
{
    markers_text(p.hooks, prefix + p.name, trait_text(prefix, p.name)) + children_text(
        p.children,
        prefix + p.name,
        trait_text(prefix, p.name),
    ) + "pub trait "@ + trait_text(prefix, p.name) + parent_clause(parent_trait) + " {\n"@
        + sigs_text(p.hooks, prefix + p.name) + "}\n"@
}

pub open spec fn children_text(ps: Seq<ProtocolV>, prefix: Seq<char>, parent_trait: Seq<char>) -> Seq<
    char,
>
    decreases ps,
{
    if ps.len() == 0 {
        Seq::empty()
    } else {
        protocol_text(ps[0], prefix, Some(parent_trait)) + children_text(
            ps.skip(1),
            prefix,
            parent_trait,
        )
    }
}

pub open spec fn parent_clause(parent_trait: Option<Seq<char>>) -> Seq<char> {
    match parent_trait {
        Some(t) => ": "@ + t,
        None => Seq::empty(),
    }
}

/// The generated artifact of a validated capability tree.
pub open spec fn spec_emit(root: ProtocolV) -> Seq<char> {
    protocol_text(root, Seq::empty(), None)
}

/// Generation from a raw expression: build the tree, insist every argument
/// name has a well-formed capitalized-words shape, then emit.
pub open spec fn spec_gen(e: ExprV) -> Result<Seq<char>, SpecError> {
    match spec_build(e) {
        Ok(t) => if tree_names_ok(t) {
            Ok(spec_emit(t))
        } else {
            Err(SpecError::BadName)
        },
        Err(er) => Err(er),
    }
}

/// The capability tree a DSL text determines: lex, parse, build.
pub open spec fn spec_text_tree(text: Seq<char>) -> Result<ProtocolV, SpecError> {
    match spec_lex(text, 0) {
        Ok(toks) => match spec_parse(toks) {
            Ok(e) => spec_build(e),
            Err(er) => Err(er),
        },
        Err(er) => Err(er),
    }
}

/// Generation from DSL text.
pub open spec fn spec_generate(text: Seq<char>) -> Result<Seq<char>, SpecError> {
    match spec_lex(text, 0) {
        Ok(toks) => match spec_parse(toks) {
            Ok(e) => spec_gen(e),
            Err(er) => Err(er),
        },
        Err(er) => Err(er),
    }
}

/// Parsing then tree-building is a function of the DSL text alone: two
/// identical texts always determine structurally identical capability
/// trees, and generation as a whole behaves the same way.
pub proof fn lemma_generation_deterministic(s1: Seq<char>, s2: Seq<char>)
    requires
        s1 == s2,
    ensures
        spec_text_tree(s1) == spec_text_tree(s2),
        spec_generate(s1) == spec_generate(s2),
{
}

fn push_chars(out: &mut Vec<char>, s: &Vec<char>)
    ensures
        final(out)@ == old(out)@ + s@,
{
    let ghost out0 = out@;
    let mut k: usize = 0;
    proof {
        assert(out@ =~= out0 + s@.take(0));
    }
    while k < s.len()
        invariant
            k <= s@.len(),
            out@ == out0 + s@.take(k as int),
        decreases s@.len() - k,
    {
        out.push(s[k]);
        proof {
            assert(out0 + s@.take(k as int) + seq![s@[k as int]] =~= out0 + s@.take(k as int + 1));
        }
        k += 1;
    }
    proof {
        assert(out0 + s@.take(s@.len() as int) =~= out0 + s@);
    }
}

fn push_trait_name(out: &mut Vec<char>, prefix: &Vec<char>, name: &str)
    ensures
        final(out)@ == old(out)@ + trait_text(prefix@, name@),
{
    push_str_chars(out, "Py");
    push_chars(out, prefix);
    push_str_chars(out, name);
    push_str_chars(out, "Protocol");
    proof {
        assert(old(out)@ + "Py"@ + prefix@ + name@ + "Protocol"@ =~= old(out)@ + ("Py"@ + prefix@
            + name@ + "Protocol"@));
    }
}

fn make_trait_name(prefix: &Vec<char>, name: &str) -> (r: Vec<char>)
    ensures
        r@ == trait_text(prefix@, name@),
{
    let mut r: Vec<char> = Vec::new();
    push_trait_name(&mut r, prefix, name);
    proof {
        assert(Seq::<char>::empty() + trait_text(prefix@, name@) =~= trait_text(prefix@, name@));
    }
    r
}

fn push_assoc_types(out: &mut Vec<char>, args: &Vec<String>)
    ensures
        final(out)@ == old(out)@ + assoc_types_text(strs_views(args@)),
{
    let ghost out0 = out@;
    let ghost av = strs_views(args@);
    let mut k: usize = 0;
    proof {
        assert(av.skip(0) =~= av);
    }
    while k < args.len()
        invariant
            k <= args@.len(),
            av == strs_views(args@),
            out@ + assoc_types_text(av.skip(k as int)) == out0 + assoc_types_text(av),
        decreases args@.len() - k,
    {
        proof {
            assert(av.skip(k as int)[0] == av[k as int]);
            assert(av.skip(k as int).skip(1) =~= av.skip(k as int + 1));
        }
        let ghost before = out@;
        push_str_chars(out, "    type ");
        push_str_chars(out, args[k].as_str());
        push_str_chars(out, ": for<'a> FromPyObject<'a>;\n");
        proof {
            assert(out@ =~= before + ("    type "@ + av[k as int]
                + ": for<'a> FromPyObject<'a>;\n"@));
            assert(before + ("    type "@ + av[k as int] + ": for<'a> FromPyObject<'a>;\n"@)
                + assoc_types_text(av.skip(k as int + 1)) =~= before + (("    type "@
                + av[k as int] + ": for<'a> FromPyObject<'a>;\n"@) + assoc_types_text(
                av.skip(k as int + 1),
            )));
        }
        k += 1;
    }
    proof {
        assert(av.skip(args@.len() as int) =~= Seq::<Seq<char>>::empty());
        assert(out@ + Seq::<char>::empty() =~= out@);
    }
}

fn push_marker(out: &mut Vec<char>, h: &Hook, prefix: &Vec<char>, owner_trait: &Vec<char>)
    ensures
        final(out)@ == old(out)@ + marker_text(h@, prefix@, owner_trait@),
{
    push_str_chars(out, "pub trait ");
    push_trait_name(out, prefix, h.name.as_str());
    push_str_chars(out, ": ");
    push_chars(out, owner_trait);
    push_str_chars(out, " {\n");
    push_assoc_types(out, &h.arguments);
    push_str_chars(out, "    type ");
    push_str_chars(out, h.success.as_str());
    push_str_chars(out, ": ToPyObject;\n");
    push_str_chars(out, "}\n");
    proof {
        assert(out@ =~= old(out)@ + ("pub trait "@ + trait_text(prefix@, h.name@) + ": "@
            + owner_trait@ + " {\n"@ + assoc_types_text(h@.arguments) + "    type "@ + h.success@
            + ": ToPyObject;\n"@ + "}\n"@));
    }
}

fn push_params(out: &mut Vec<char>, args: &Vec<String>)
    ensures
        final(out)@ == old(out)@ + params_text(strs_views(args@)),
{
    let ghost out0 = out@;
    let ghost av = strs_views(args@);
    let mut k: usize = 0;
    proof {
        assert(av.skip(0) =~= av);
    }
    while k < args.len()
        invariant
            k <= args@.len(),
            av == strs_views(args@),
            out@ + params_text(av.skip(k as int)) == out0 + params_text(av),
        decreases args@.len() - k,
    {
        proof {
            assert(av.skip(k as int)[0] == av[k as int]);
            assert(av.skip(k as int).skip(1) =~= av.skip(k as int + 1));
        }
        let ghost before = out@;
        push_str_chars(out, ", ");
        push_binder(out, args[k].as_str());
        push_str_chars(out, ": Self::");
        push_str_chars(out, args[k].as_str());
        proof {
            assert(out@ =~= before + (", "@ + binder_of(av[k as int]) + ": Self::"@
                + av[k as int]));
            assert(before + (", "@ + binder_of(av[k as int]) + ": Self::"@ + av[k as int])
                + params_text(av.skip(k as int + 1)) =~= before + ((", "@ + binder_of(av[k as int])
                + ": Self::"@ + av[k as int]) + params_text(av.skip(k as int + 1))));
        }
        k += 1;
    }
    proof {
        assert(av.skip(args@.len() as int) =~= Seq::<Seq<char>>::empty());
        assert(out@ + Seq::<char>::empty() =~= out@);
    }
}

fn push_sig(out: &mut Vec<char>, h: &Hook, prefix: &Vec<char>)
    ensures
        final(out)@ == old(out)@ + sig_text(h@, prefix@),
{
    push_str_chars(out, "    fn ");
    push_exposed_name(out, h.name.as_str());
    push_str_chars(out, "(&self, py: Python");
    push_params(out, &h.arguments);
    push_str_chars(out, ") -> PyResult<Self::");
    push_str_chars(out, h.success.as_str());
    push_str_chars(out, ">\n        where Self: ");
    push_trait_name(out, prefix, h.name.as_str());
    push_str_chars(out, ";\n");
    proof {
        assert(out@ =~= old(out)@ + ("    fn "@ + exposed_name(h.name@) + "(&self, py: Python"@
            + params_text(h@.arguments) + ") -> PyResult<Self::"@ + h.success@
            + ">\n        where Self: "@ + trait_text(prefix@, h.name@) + ";\n"@));
    }
}

/// Emits one protocol node and everything under it.
fn emit_protocol(p: &Protocol, prefix: &mut Vec<char>, parent_trait: Option<&Vec<char>>, out: &mut Vec<char>)
    ensures
        final(out)@ == old(out)@ + protocol_text(
            p@,
            old(prefix)@,
            match parent_trait {
                Some(t) => Some(t@),
                None => None,
            },
        ),
        final(prefix)@ == old(prefix)@,
    decreases p,
{
    let ghost prefix0 = prefix@;
    let ghost out0 = out@;
    let ghost pv = p@;
    let own_trait = make_trait_name(prefix, p.name.as_str());
    let base = prefix.len();
    push_str_chars(prefix, p.name.as_str());
    let ghost own = prefix@;
    let ghost hv = hooks_views(p.hooks@);
    let ghost cv = crate::ast::protocols_views(p.children@);

    let mut k: usize = 0;
    proof {
        assert(hv.skip(0) =~= hv);
    }
    while k < p.hooks.len()
        invariant
            k <= p.hooks@.len(),
            hv == hooks_views(p.hooks@),
            prefix@ == own,
            own_trait@ == trait_text(prefix0, pv.name),
            out@ + markers_text(hv.skip(k as int), own, own_trait@) == out0 + markers_text(
                hv,
                own,
                own_trait@,
            ),
        decreases p.hooks@.len() - k,
    {
        proof {
            assert(hv.skip(k as int)[0] == hv[k as int]);
            assert(hv.skip(k as int).skip(1) =~= hv.skip(k as int + 1));
        }
        let ghost before = out@;
        push_marker(out, &p.hooks[k], prefix, &own_trait);
        proof {
            assert(before + marker_text(hv[k as int], own, own_trait@) + markers_text(
                hv.skip(k as int + 1),
                own,
                own_trait@,
            ) =~= before + (marker_text(hv[k as int], own, own_trait@) + markers_text(
                hv.skip(k as int + 1),
                own,
                own_trait@,
            )));
        }
        k += 1;
    }
    proof {
        assert(hv.skip(p.hooks@.len() as int) =~= Seq::<HookV>::empty());
        assert(out@ + Seq::<char>::empty() =~= out@);
        assert(out@ == out0 + markers_text(hv, own, own_trait@));
    }
    let ghost out_markers = out@;

    let mut k: usize = 0;
    proof {
        assert(cv.skip(0) =~= cv);
    }
    while k < p.children.len()
        invariant
            k <= p.children@.len(),
            cv == crate::ast::protocols_views(p.children@),
            prefix@ == own,
            own_trait@ == trait_text(prefix0, pv.name),
            out@ + children_text(cv.skip(k as int), own, own_trait@) == out_markers
                + children_text(cv, own, own_trait@),
        decreases p.children@.len() - k,
    {
        proof {
            assert(cv.skip(k as int)[0] == cv[k as int]);
            assert(cv.skip(k as int).skip(1) =~= cv.skip(k as int + 1));
        }
        let ghost before = out@;
        emit_protocol(&p.children[k], prefix, Some(&own_trait), out);
        proof {
            assert(before + protocol_text(cv[k as int], own, Some(own_trait@)) + children_text(
                cv.skip(k as int + 1),
                own,
                own_trait@,
            ) =~= before + (protocol_text(cv[k as int], own, Some(own_trait@)) + children_text(
                cv.skip(k as int + 1),
                own,
                own_trait@,
            )));
        }
        k += 1;
    }
    proof {
        assert(cv.skip(p.children@.len() as int) =~= Seq::<ProtocolV>::empty());
        assert(out@ + Seq::<char>::empty() =~= out@);
        assert(out@ == out_markers + children_text(cv, own, own_trait@));
    }

    push_str_chars(out, "pub trait ");
    push_chars(out, &own_trait);
    match parent_trait {
        Some(t) => {
            push_str_chars(out, ": ");
            push_chars(out, t);
            proof {
                assert(out@ =~= out_markers + children_text(cv, own, own_trait@) + "pub trait "@
                    + own_trait@ + parent_clause(Some(t@)));
            }
        },
        None => {
            proof {
                assert(out@ + parent_clause(None) =~= out@);
            }
        },
    }
    push_str_chars(out, " {\n");
    let ghost out_header = out@;

    let mut k: usize = 0;
    proof {
        assert(hv.skip(0) =~= hv);
    }
    while k < p.hooks.len()
        invariant
            k <= p.hooks@.len(),
            hv == hooks_views(p.hooks@),
            prefix@ == own,
            out@ + sigs_text(hv.skip(k as int), own) == out_header + sigs_text(hv, own),
        decreases p.hooks@.len() - k,
    {
        proof {
            assert(hv.skip(k as int)[0] == hv[k as int]);
            assert(hv.skip(k as int).skip(1) =~= hv.skip(k as int + 1));
        }
        let ghost before = out@;
        push_sig(out, &p.hooks[k], prefix);
        proof {
            assert(before + sig_text(hv[k as int], own) + sigs_text(hv.skip(k as int + 1), own)
                =~= before + (sig_text(hv[k as int], own) + sigs_text(hv.skip(k as int + 1), own)));
        }
        k += 1;
    }
    proof {
        assert(hv.skip(p.hooks@.len() as int) =~= Seq::<HookV>::empty());
        assert(out@ + Seq::<char>::empty() =~= out@);
    }
    push_str_chars(out, "}\n");

    prefix.truncate(base);
    proof {
        assert(prefix@ =~= prefix0);
        assert(own =~= prefix0 + pv.name);
        let pc = match parent_trait {
            Some(t) => Some(t@),
            None => None,
        };
        assert(out@ =~= out0 + (markers_text(pv.hooks, prefix0 + pv.name, trait_text(
            prefix0,
            pv.name,
        )) + children_text(pv.children, prefix0 + pv.name, trait_text(prefix0, pv.name))
            + "pub trait "@ + trait_text(prefix0, pv.name) + parent_clause(pc) + " {\n"@
            + sigs_text(pv.hooks, prefix0 + pv.name) + "}\n"@));
    }
}

fn check_hook_args(h: &Hook) -> (r: bool)
    ensures
        r == hook_args_ok(h@),
{
    let mut k: usize = 0;
    while k < h.arguments.len()
        invariant
            k <= h.arguments@.len(),
            forall|i: int|
                0 <= i < k ==> camel_ok(#[trigger] strs_views(h.arguments@)[i]),
        decreases h.arguments@.len() - k,
    {
        if !check_camel(h.arguments[k].as_str()) {
            proof {
                assert(!camel_ok(strs_views(h.arguments@)[k as int]));
                assert(!hook_args_ok(h@)) by {
                    if hook_args_ok(h@) {
                        assert(camel_ok(h@.arguments[k as int]));
                    }
                }
            }
            return false;
        }
        k += 1;
    }
    true
}

/// Whether every argument name in the tree can get a binder name.
fn check_tree_names(p: &Protocol) -> (r: bool)
    ensures
        r == tree_names_ok(p@),
    decreases p,
{
    let mut k: usize = 0;
    while k < p.hooks.len()
        invariant
            k <= p.hooks@.len(),
            forall|i: int|
                0 <= i < k ==> hook_args_ok(#[trigger] hooks_views(p.hooks@)[i]),
        decreases p.hooks@.len() - k,
    {
        if !check_hook_args(&p.hooks[k]) {
            assert(!hook_args_ok(hooks_views(p.hooks@)[k as int]));
            assert(!hooks_ok(hooks_views(p.hooks@)));
            return false;
        }
        k += 1;
    }
    let mut k: usize = 0;
    while k < p.children.len()
        invariant
            k <= p.children@.len(),
            hooks_ok(hooks_views(p.hooks@)),
            forall|i: int|
                0 <= i < k ==> tree_names_ok(#[trigger] crate::ast::protocols_views(p.children@)[i]),
        decreases p.children@.len() - k,
    {
        if !check_tree_names(&p.children[k]) {
            assert(!tree_names_ok(crate::ast::protocols_views(p.children@)[k as int]));
            assert(!children_ok(crate::ast::protocols_views(p.children@)));
            return false;
        }
        k += 1;
    }
    proof {
        assert(children_ok(crate::ast::protocols_views(p.children@)));
        assert(tree_names_ok(p@));
    }
    true
}

/// Generates the interface hierarchy from a parsed raw expression: builds
/// the capability tree, validates every argument name, and emits the
/// artifact, or reports the first error with no partial artifact.
pub fn gen_traits_and_impls(e: &Expr) -> (r: Result<Vec<char>, SpecError>)
    ensures
        match r {
            Ok(text) => spec_gen(e@) == Ok::<Seq<char>, SpecError>(text@),
            Err(er) => spec_gen(e@) == Err::<Seq<char>, SpecError>(er),
        },
{
    match build(e) {
        Ok(tree) => {
            if !check_tree_names(&tree) {
                return Err(SpecError::BadName);
            }
            let mut prefix: Vec<char> = Vec::new();
            let mut out: Vec<char> = Vec::new();
            emit_protocol(&tree, &mut prefix, None, &mut out);
            proof {
                assert(Seq::<char>::empty() + protocol_text(tree@, Seq::<char>::empty(), None)
                    =~= protocol_text(tree@, Seq::<char>::empty(), None));
            }
            Ok(out)
        },
        Err(er) => Err(er),
    }
}

/// Generates the interface hierarchy straight from DSL text.
pub fn generate(text: &str) -> (r: Result<Vec<char>, SpecError>)
    ensures
        match r {
            Ok(v) => spec_generate(text@) == Ok::<Seq<char>, SpecError>(v@),
            Err(er) => spec_generate(text@) == Err::<Seq<char>, SpecError>(er),
        },
{
    match lex(text) {
        Ok(toks) => match parse(&toks) {
            Ok(e) => gen_traits_and_impls(&e),
            Err(er) => Err(er),
        },
        Err(er) => Err(er),
    }
}

} // verus!
