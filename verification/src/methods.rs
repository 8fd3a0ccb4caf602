//! The per-type method-table registration emitter.
//!
//! An inherent implementation block of a host-visible type becomes one
//! registration item: a hidden constant holding an implementation of the
//! method-table protocol that hands the host the block's method entries.
//! Each entry's own rendering arrives already made; this module decides
//! what kind of block is acceptable and assembles the registration text.

use vstd::prelude::*;

use crate::SpecError;
use crate::ast::strs_views;
use crate::names::push_str_chars;

verus! {

broadcast use vstd::std_specs::vec::group_vec_axioms;

/// The shape of one item handed to the method-table generator: an inherent
/// implementation block with its type name and rendered method entries, a
/// trait implementation block, or something else entirely.
pub enum ImplShape {
    Inherent { ty: String, methods: Vec<String> },
    TraitImpl,
    NotImpl,
}

pub ghost enum ImplShapeV {
    Inherent { ty: Seq<char>, methods: Seq<Seq<char>> },
    TraitImpl,
    NotImpl,
}

impl View for ImplShape {
    type V = ImplShapeV;

    open spec fn view(&self) -> ImplShapeV {
        match self {
            ImplShape::Inherent { ty, methods } => ImplShapeV::Inherent {
                ty: ty@,
                methods: strs_views(methods@),
            },
            ImplShape::TraitImpl => ImplShapeV::TraitImpl,
            ImplShape::NotImpl => ImplShapeV::NotImpl,
        }
    }
}

pub open spec fn rest_entries_text(ms: Seq<Seq<char>>) -> Seq<char>
    decreases ms,
{
    if ms.len() == 0 {
        Seq::empty()
    } else {
        ", "@ + ms[0] + rest_entries_text(ms.skip(1))
    }
}

/// The method entries joined with comma separators.
pub open spec fn entries_text(ms: Seq<Seq<char>>) -> Seq<char> {
    if ms.len() == 0 {
        Seq::empty()
    } else {
        ms[0] + rest_entries_text(ms.skip(1))
    }
}

/// The registration item of one inherent implementation block.
pub open spec fn impl_methods_text(ty: Seq<char>, ms: Seq<Seq<char>>) -> Seq<char> {
    "#[allow(non_upper_case_globals, unused_attributes, unused_qualifications)]\n"@
        + "const _IMPL_PYO3_METHODS: () = {\n"@ + "    use pyo3::ffi;\n"@
        + "    impl pyo3::class::methods::PyMethodsProtocolImpl for "@ + ty + " {\n"@
        + "        fn py_methods() -> &'static [pyo3::class::PyMethodDefType] {\n"@
        + "            static METHODS: &'static [pyo3::class::PyMethodDefType] = &["@
        + entries_text(ms) + "];\n"@ + "            METHODS\n        }\n    }\n};\n"@
}

/// What the method-table generator produces for one item: the registration
/// text for an inherent implementation block, an error for anything else.
pub open spec fn spec_build_py_methods(shape: ImplShapeV) -> Result<Seq<char>, SpecError> {
    match shape {
        ImplShapeV::Inherent { ty, methods } => Ok(impl_methods_text(ty, methods)),
        ImplShapeV::TraitImpl => Err(SpecError::TraitImplUnsupported),
        ImplShapeV::NotImpl => Err(SpecError::NotAnImpl),
    }
}

fn push_entries(out: &mut Vec<char>, ms: &Vec<String>)
    ensures
        final(out)@ == old(out)@ + entries_text(strs_views(ms@)),
{
    let ghost out0 = out@;
    let ghost mv = strs_views(ms@);
    if ms.len() == 0 {
        proof {
            assert(out@ + Seq::<char>::empty() =~= out@);
        }
        return ;
    }
    push_str_chars(out, ms[0].as_str());
    let mut k: usize = 1;
    proof {
        assert(mv.skip(0) =~= mv);
        assert(mv.skip(0).skip(1) =~= mv.skip(1));
    }
    while k < ms.len()
        invariant
            1 <= k <= ms@.len(),
            mv == strs_views(ms@),
            mv.len() > 0,
            out@ + rest_entries_text(mv.skip(k as int)) == out0 + entries_text(mv),
        decreases ms@.len() - k,
    {
        proof {
            assert(mv.skip(k as int)[0] == mv[k as int]);
            assert(mv.skip(k as int).skip(1) =~= mv.skip(k as int + 1));
        }
        let ghost before = out@;
        push_str_chars(out, ", ");
        push_str_chars(out, ms[k].as_str());
        proof {
            assert(out@ =~= before + (", "@ + mv[k as int]));
            assert(before + (", "@ + mv[k as int]) + rest_entries_text(mv.skip(k as int + 1))
                =~= before + ((", "@ + mv[k as int]) + rest_entries_text(mv.skip(k as int + 1))));
        }
        k += 1;
    }
    proof {
        assert(mv.skip(ms@.len() as int) =~= Seq::<Seq<char>>::empty());
        assert(out@ + Seq::<char>::empty() =~= out@);
    }
}

/// Builds the method-table registration text of one item, or reports why
/// the item cannot carry one.
pub fn build_py_methods(shape: &ImplShape) -> (r: Result<Vec<char>, SpecError>)
    ensures
        match r {
            Ok(text) => spec_build_py_methods(shape@) == Ok::<Seq<char>, SpecError>(text@),
            Err(er) => spec_build_py_methods(shape@) == Err::<Seq<char>, SpecError>(er),
        },
{
    match shape {
        ImplShape::Inherent { ty, methods } => {
            let mut out: Vec<char> = Vec::new();
            push_str_chars(
                &mut out,
                "#[allow(non_upper_case_globals, unused_attributes, unused_qualifications)]\n",
            );
            push_str_chars(&mut out, "const _IMPL_PYO3_METHODS: () = {\n");
            push_str_chars(&mut out, "    use pyo3::ffi;\n");
            push_str_chars(&mut out, "    impl pyo3::class::methods::PyMethodsProtocolImpl for ");
            push_str_chars(&mut out, ty.as_str());
            push_str_chars(&mut out, " {\n");
            push_str_chars(
                &mut out,
                "        fn py_methods() -> &'static [pyo3::class::PyMethodDefType] {\n",
            );
            push_str_chars(
                &mut out,
                "            static METHODS: &'static [pyo3::class::PyMethodDefType] = &[",
            );
            push_entries(&mut out, methods);
            push_str_chars(&mut out, "];\n");
            push_str_chars(&mut out, "            METHODS\n        }\n    }\n};\n");
            proof {
                assert(out@ =~= impl_methods_text(ty@, strs_views(methods@)));
            }
            Ok(out)
        },
        ImplShape::TraitImpl => Err(SpecError::TraitImplUnsupported),
        ImplShape::NotImpl => Err(SpecError::NotAnImpl),
    }
}

} // verus!
