//! A declarative generator for optional-protocol boilerplate.
//!
//! A terse nested-record expression describes a hierarchy of protocols, each
//! a family of independently optional hook methods.  The library parses that
//! expression into a capability tree, derives the exposed names of the hooks,
//! and emits the interface hierarchy and dispatch scaffolding that a host
//! object model consumes.  A companion registry resolves, per implementing
//! type, which hook slots are bound and which stay absent, and small pure
//! models capture the decision logic of the native boundary adapters.

use vstd::prelude::*;

pub mod lex;
pub mod ast;
pub mod parse;
pub mod tree;
pub mod names;
pub mod emit;
pub mod dispatch;
pub mod adapter;
pub mod methods;

verus! {

/// Everything that can make generation fail.  Generation is all-or-nothing:
/// any of these aborts it with no partial artifact.
#[derive(Clone, Copy, Debug, PartialEq, Eq, Structural)]
pub enum SpecError {
    /// A character outside the DSL's alphabet.
    BadChar,
    /// The input ended in the middle of an expression.
    UnexpectedEnd,
    /// A token that fits no production of the grammar at this point.
    UnexpectedToken,
    /// A qualified name stood where a single identifier was required.
    ExpectedIdent,
    /// A qualified name with more than two segments.
    UnexpectedPath,
    /// A tag that is neither `Struct` nor `Method`.
    BadTag,
    /// A field value that is not a sub-protocol or hook expression.
    ExpectedStruct,
    /// The outermost expression is not tagged `Struct`.
    RootNotStruct,
    /// An `arguments` value that is neither an identifier nor a bracketed list.
    UnexpectedArguments,
    /// A configuration key in a hook body other than `arguments` or `success`.
    UnexpectedField,
    /// A bare literal placeholder; the DSL gives it no meaning.
    Placeholder,
    /// An argument type name that is not in capitalized-words form.
    BadName,
    /// A trait implementation block, which carries no method table.
    TraitImplUnsupported,
    /// An item that is not an implementation block at all.
    NotAnImpl,
}

} // verus!
