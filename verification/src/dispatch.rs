//! The capability dispatcher, as an explicit registry keyed by hook name.
//!
//! A concrete implementing type declares, at registration time, which
//! composite protocols it takes part in and which hooks it binds to which
//! adapter.  Resolution then fills one slot per hook of a protocol:
//! bound where the hook was declared, absent otherwise — each slot decided
//! independently of every other, once, before any instance exists.

use vstd::prelude::*;

verus! {

broadcast use vstd::std_specs::vec::group_vec_axioms;

/// One resolved dispatch slot: absent, or bound to an adapter handle.
#[derive(Clone, Copy, Debug, PartialEq, Eq, Structural)]
pub enum Slot {
    Absent,
    Bound(u64),
}

pub ghost struct RegistryV {
    pub protocols: Seq<Seq<char>>,
    pub bindings: Seq<(Seq<char>, u64)>,
}

/// The opt-in declarations of one concrete implementing type.
pub struct Registry {
    protocols: Vec<String>,
    bindings: Vec<(String, u64)>,
}

pub open spec fn pairs_views(s: Seq<(String, u64)>) -> Seq<(Seq<char>, u64)> {
    Seq::new(s.len(), |i: int| (s[i].0@, s[i].1))
}

impl View for Registry {
    type V = RegistryV;

    closed spec fn view(&self) -> RegistryV {
        RegistryV {
            protocols: crate::ast::strs_views(self.protocols@),
            bindings: pairs_views(self.bindings@),
        }
    }
}

/// The adapter bound to a hook name, newest declaration first.
pub open spec fn lookup(bs: Seq<(Seq<char>, u64)>, name: Seq<char>) -> Option<u64>
    decreases bs,
{
    if bs.len() == 0 {
        None
    } else if bs[0].0 == name {
        Some(bs[0].1)
    } else {
        lookup(bs.skip(1), name)
    }
}

/// The slot a hook resolves to: bound where declared, absent otherwise.
pub open spec fn resolved(bs: Seq<(Seq<char>, u64)>, name: Seq<char>) -> Slot {
    match lookup(bs, name) {
        Some(id) => Slot::Bound(id),
        None => Slot::Absent,
    }
}

/// Whether the type takes part in the named composite protocol.
pub open spec fn declared(ps: Seq<Seq<char>>, name: Seq<char>) -> bool {
    exists|i: int| 0 <= i < ps.len() && ps[i] == name
}

/// Each hook resolves on its own: only that hook's binding decides its
/// slot, so two registries that agree on one hook give it the same slot,
/// whatever they say about every other hook.
pub proof fn lemma_slot_independent(
    bs1: Seq<(Seq<char>, u64)>,
    bs2: Seq<(Seq<char>, u64)>,
    name: Seq<char>,
)
    requires
        lookup(bs1, name) == lookup(bs2, name),
    ensures
        resolved(bs1, name) == resolved(bs2, name),
{
}

/// For any two hooks: binding only the first yields {first bound, second
/// absent}; binding both yields both bound; binding neither yields both
/// absent.  Binding one never makes the other present.
pub proof fn lemma_capability_slots(bs: Seq<(Seq<char>, u64)>, a: Seq<char>, b: Seq<char>)
    ensures
        lookup(bs, a) is Some && lookup(bs, b) is None ==> resolved(bs, a) is Bound && resolved(
            bs,
            b,
        ) is Absent,
        lookup(bs, a) is Some && lookup(bs, b) is Some ==> resolved(bs, a) is Bound && resolved(
            bs,
            b,
        ) is Bound,
        lookup(bs, a) is None && lookup(bs, b) is None ==> resolved(bs, a) is Absent && resolved(
            bs,
            b,
        ) is Absent,
{
}

/// Binding one hook leaves every other hook's slot exactly as it was.
pub proof fn lemma_binding_preserves_others(
    bs: Seq<(Seq<char>, u64)>,
    hook: Seq<char>,
    adapter: u64,
    other: Seq<char>,
)
    requires
        other != hook,
    ensures
        resolved(seq![(hook, adapter)] + bs, other) == resolved(bs, other),
        resolved(seq![(hook, adapter)] + bs, hook) == Slot::Bound(adapter),
{
    let nbs = seq![(hook, adapter)] + bs;
    assert(nbs[0] == (hook, adapter));
    assert(nbs.skip(1) =~= bs);
}

impl Registry {
    /// A type that declares nothing: no protocols, no bindings.
    pub fn new() -> (r: Registry)
        ensures
            r@.protocols == Seq::<Seq<char>>::empty(),
            r@.bindings == Seq::<(Seq<char>, u64)>::empty(),
    {
        let r = Registry { protocols: Vec::new(), bindings: Vec::new() };
        proof {
            assert(r@.protocols =~= Seq::<Seq<char>>::empty());
            assert(r@.bindings =~= Seq::<(Seq<char>, u64)>::empty());
        }
        r
    }

    /// Declares participation in a composite protocol.
    pub fn declare(&mut self, protocol: String)
        ensures
            final(self)@.protocols == old(self)@.protocols.push(protocol@),
            final(self)@.bindings == old(self)@.bindings,
    {
        let ghost pv = protocol@;
        self.protocols.push(protocol);
        proof {
            assert(self@.protocols =~= old(self)@.protocols.push(pv));
            assert(self@.bindings =~= old(self)@.bindings);
        }
    }

    /// Binds one hook to an adapter; a newer binding shadows an older one
    /// for the same hook and touches no other hook.
    pub fn implement(&mut self, hook: String, adapter: u64)
        ensures
            final(self)@.bindings == seq![(hook@, adapter)] + old(self)@.bindings,
            final(self)@.protocols == old(self)@.protocols,
    {
        let ghost hv = hook@;
        self.bindings.insert(0, (hook, adapter));
        proof {
            assert(self@.bindings =~= seq![(hv, adapter)] + old(self)@.bindings);
            assert(self@.protocols =~= old(self)@.protocols);
        }
    }

    /// The slot one hook resolves to for this type.
    pub fn slot(&self, hook: &String) -> (s: Slot)
        ensures
            s == resolved(self@.bindings, hook@),
    {
        let ghost bv = self@.bindings;
        let mut k: usize = 0;
        proof {
            assert(bv.skip(0) =~= bv);
        }
        while k < self.bindings.len()
            invariant
                k <= self.bindings@.len(),
                bv == self@.bindings,
                lookup(bv, hook@) == lookup(bv.skip(k as int), hook@),
            decreases self.bindings@.len() - k,
        {
            proof {
                assert(bv.skip(k as int)[0] == bv[k as int]);
                assert(bv.skip(k as int).skip(1) =~= bv.skip(k as int + 1));
            }
            if self.bindings[k].0 == *hook {
                return Slot::Bound(self.bindings[k].1);
            }
            k += 1;
        }
        Slot::Absent
    }

    /// The dispatch table of one composite protocol: one independently
    /// resolved slot per hook, or nothing at all where the type does not
    /// declare the protocol.
    pub fn resolve(&self, protocol: &String, hooks: &Vec<String>) -> (t: Option<Vec<Slot>>)
        ensures
            match t {
                Some(tb) => declared(self@.protocols, protocol@) && tb@.len() == hooks@.len()
                    && forall|i: int|
                    0 <= i < hooks@.len() ==> tb@[i] == resolved(
                        self@.bindings,
                        #[trigger] hooks@[i]@,
                    ),
                None => !declared(self@.protocols, protocol@),
            },
    {
        if !self.is_declared(protocol) {
            return None;
        }
        let mut tb: Vec<Slot> = Vec::new();
        let mut k: usize = 0;
        while k < hooks.len()
            invariant
                k <= hooks@.len(),
                tb@.len() == k,
                forall|i: int|
                    0 <= i < k ==> tb@[i] == resolved(self@.bindings, #[trigger] hooks@[i]@),
            decreases hooks@.len() - k,
        {
            let s = self.slot(&hooks[k]);
            tb.push(s);
            k += 1;
        }
        Some(tb)
    }

    fn is_declared(&self, protocol: &String) -> (b: bool)
        ensures
            b == declared(self@.protocols, protocol@),
    {
        let ghost pv = self@.protocols;
        let mut k: usize = 0;
        while k < self.protocols.len()
            invariant
                k <= self.protocols@.len(),
                pv == self@.protocols,
                forall|i: int| 0 <= i < k ==> #[trigger] pv[i] != protocol@,
            decreases self.protocols@.len() - k,
        {
            if self.protocols[k] == *protocol {
                assert(pv[k as int] == protocol@);
                return true;
            }
            k += 1;
        }
        false
    }

    /// The flat capability check: the protocol's required hooks are
    /// satisfied exactly when every one of them is bound.
    pub fn satisfies(&self, required: &Vec<String>) -> (b: bool)
        ensures
            b == (forall|i: int|
                0 <= i < required@.len() ==> lookup(
                    self@.bindings,
                    #[trigger] required@[i]@,
                ) is Some),
    {
        let mut k: usize = 0;
        while k < required.len()
            invariant
                k <= required@.len(),
                forall|i: int|
                    0 <= i < k ==> lookup(self@.bindings, #[trigger] required@[i]@) is Some,
            decreases required@.len() - k,
        {
            match self.slot(&required[k]) {
                Slot::Absent => {
                    return false;
                },
                Slot::Bound(_) => {},
            }
            k += 1;
        }
        true
    }
}

} // verus!
