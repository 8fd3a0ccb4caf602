//! The two trees of the pipeline: the raw expression a DSL text parses to,
//! and the capability tree the builder distils from it.

use vstd::prelude::*;

verus! {

broadcast use vstd::std_specs::vec::group_vec_axioms;

/// A raw DSL expression: a qualified name, a record, a bracketed list, or a
/// bare integer literal (the placeholder the grammar rejects).
pub enum Expr {
    Path(Vec<String>),
    Record(Vec<String>, Vec<Field>),
    List(Vec<Expr>),
    Literal,
}

/// One `key: value` field of a record expression.
pub struct Field {
    pub name: String,
    pub value: Expr,
}

/// The mathematical shape of a raw expression.
pub ghost enum ExprV {
    Path(Seq<Seq<char>>),
    Record(Seq<Seq<char>>, Seq<FieldV>),
    List(Seq<ExprV>),
    Literal,
}

pub ghost struct FieldV {
    pub name: Seq<char>,
    pub value: ExprV,
}

/// The views of a sequence of strings, element by element.
pub open spec fn strs_views(ss: Seq<String>) -> Seq<Seq<char>> {
    Seq::new(ss.len(), |i: int| ss[i]@)
}

pub open spec fn exprs_views(es: Seq<Expr>) -> Seq<ExprV>
    decreases es,
{
    if es.len() == 0 {
        Seq::empty()
    } else {
        seq![es[0]@] + exprs_views(es.skip(1))
    }
}

pub open spec fn fields_views(fs: Seq<Field>) -> Seq<FieldV>
    decreases fs,
{
    if fs.len() == 0 {
        Seq::empty()
    } else {
        seq![fs[0]@] + fields_views(fs.skip(1))
    }
}

impl View for Expr {
    type V = ExprV;

    open spec fn view(&self) -> ExprV
        decreases self,
    {
        match self {
            Expr::Path(segs) => ExprV::Path(strs_views(segs@)),
            Expr::Record(segs, fs) => ExprV::Record(strs_views(segs@), fields_views(fs@)),
            Expr::List(es) => ExprV::List(exprs_views(es@)),
            Expr::Literal => ExprV::Literal,
        }
    }
}

impl View for Field {
    type V = FieldV;

    open spec fn view(&self) -> FieldV
        decreases self,
    {
        FieldV { name: self.name@, value: self.value@ }
    }
}

pub broadcast proof fn lemma_exprs_views_len(es: Seq<Expr>)
    ensures
        #[trigger] exprs_views(es).len() == es.len(),
    decreases es,
{
    if es.len() > 0 {
        lemma_exprs_views_len(es.skip(1));
        assert(exprs_views(es) == seq![es[0]@] + exprs_views(es.skip(1)));
    }
}

pub broadcast proof fn lemma_exprs_views_index(es: Seq<Expr>, i: int)
    requires
        0 <= i < es.len(),
    ensures
        #[trigger] exprs_views(es)[i] == es[i]@,
    decreases es,
{
    lemma_exprs_views_len(es);
    assert(exprs_views(es) == seq![es[0]@] + exprs_views(es.skip(1)));
    if i > 0 {
        lemma_exprs_views_index(es.skip(1), i - 1);
        assert(es.skip(1)[i - 1] == es[i]);
    }
}

pub broadcast proof fn lemma_fields_views_len(fs: Seq<Field>)
    ensures
        #[trigger] fields_views(fs).len() == fs.len(),
    decreases fs,
{
    if fs.len() > 0 {
        lemma_fields_views_len(fs.skip(1));
        assert(fields_views(fs) == seq![fs[0]@] + fields_views(fs.skip(1)));
    }
}

pub broadcast proof fn lemma_fields_views_index(fs: Seq<Field>, i: int)
    requires
        0 <= i < fs.len(),
    ensures
        #[trigger] fields_views(fs)[i] == fs[i]@,
    decreases fs,
{
    lemma_fields_views_len(fs);
    assert(fields_views(fs) == seq![fs[0]@] + fields_views(fs.skip(1)));
    if i > 0 {
        lemma_fields_views_index(fs.skip(1), i - 1);
        assert(fs.skip(1)[i - 1] == fs[i]);
    }
}

/// One hook method of a protocol: its owning field, its name, the ordered
/// argument type names, and the success type name.
pub struct Hook {
    pub field: String,
    pub name: String,
    pub arguments: Vec<String>,
    pub success: String,
}

/// One composite protocol node: hooks of its own and nested sub-protocols,
/// both in declaration order.
pub struct Protocol {
    pub field: Option<String>,
    pub name: String,
    pub hooks: Vec<Hook>,
    pub children: Vec<Protocol>,
}

pub ghost struct HookV {
    pub field: Seq<char>,
    pub name: Seq<char>,
    pub arguments: Seq<Seq<char>>,
    pub success: Seq<char>,
}

pub ghost struct ProtocolV {
    pub field: Option<Seq<char>>,
    pub name: Seq<char>,
    pub hooks: Seq<HookV>,
    pub children: Seq<ProtocolV>,
}

impl View for Hook {
    type V = HookV;

    open spec fn view(&self) -> HookV {
        HookV {
            field: self.field@,
            name: self.name@,
            arguments: strs_views(self.arguments@),
            success: self.success@,
        }
    }
}

pub open spec fn hooks_views(hs: Seq<Hook>) -> Seq<HookV> {
    Seq::new(hs.len(), |i: int| hs[i]@)
}

pub open spec fn protocols_views(ps: Seq<Protocol>) -> Seq<ProtocolV>
    decreases ps,
{
    if ps.len() == 0 {
        Seq::empty()
    } else {
        seq![ps[0]@] + protocols_views(ps.skip(1))
    }
}

impl View for Protocol {
    type V = ProtocolV;

    open spec fn view(&self) -> ProtocolV
        decreases self,
    {
        ProtocolV {
            field: match self.field {
                Some(f) => Some(f@),
                None => None,
            },
            name: self.name@,
            hooks: hooks_views(self.hooks@),
            children: protocols_views(self.children@),
        }
    }
}

pub broadcast proof fn lemma_protocols_views_len(ps: Seq<Protocol>)
    ensures
        #[trigger] protocols_views(ps).len() == ps.len(),
    decreases ps,
{
    if ps.len() > 0 {
        lemma_protocols_views_len(ps.skip(1));
        assert(protocols_views(ps) == seq![ps[0]@] + protocols_views(ps.skip(1)));
    }
}

pub broadcast proof fn lemma_protocols_views_index(ps: Seq<Protocol>, i: int)
    requires
        0 <= i < ps.len(),
    ensures
        #[trigger] protocols_views(ps)[i] == ps[i]@,
    decreases ps,
{
    lemma_protocols_views_len(ps);
    assert(protocols_views(ps) == seq![ps[0]@] + protocols_views(ps.skip(1)));
    if i > 0 {
        lemma_protocols_views_index(ps.skip(1), i - 1);
        assert(ps.skip(1)[i - 1] == ps[i]);
    }
}

pub proof fn lemma_seq_add_assoc<A>(a: Seq<A>, b: Seq<A>, c: Seq<A>)
    ensures
        (a + b) + c == a + (b + c),
{
    assert((a + b) + c =~= a + (b + c));
}

pub broadcast group group_ast_views {
    lemma_exprs_views_len,
    lemma_exprs_views_index,
    lemma_fields_views_len,
    lemma_fields_views_index,
    lemma_protocols_views_len,
    lemma_protocols_views_index,
}

} // verus!
