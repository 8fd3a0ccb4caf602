//! Pure models of the native bridge adapters' decision logic.
//!
//! A bridge adapter sits between the host runtime's raw calling convention
//! and a user hook.  The outside work — borrowing raw handles, converting a
//! raw argument, running the hook — happens in the host; what is verified
//! here is the adapter's decision logic over plain values: which outcome
//! each combination of events produces, what the hook is invoked with, and
//! that every borrowed handle is released exactly once, in scope order, on
//! every exit path.
//!
//! Handles and payloads are opaque tokens (`u64`); nothing is assumed of
//! them beyond identity.

use vstd::prelude::*;

verus! {

/// What converting one raw argument produced: a typed value, or the error
/// the host reported.
#[derive(Clone, Copy, Debug, PartialEq, Eq, Structural)]
pub enum Fetched {
    Converted(u64),
    Failed(u64),
}

/// What the user hook returned, where it ran at all.
#[derive(Clone, Copy, Debug, PartialEq, Eq, Structural)]
pub enum HookReply {
    Done(u64),
    Raised(u64),
}

/// How one adapter call ends.  A missing required pointer is a contract
/// violation of the host, distinct from a conversion failure (the
/// argument's fault) and from a hook failure (the user code's report),
/// which both travel the host's ordinary error channel.
#[derive(Clone, Copy, Debug, PartialEq, Eq, Structural)]
pub enum Verdict {
    MissingPointer,
    ConversionError(u64),
    HookError(u64),
    Success(u64),
}

/// The verdict a hook reply propagates to, unchanged.
pub open spec fn reply_verdict(reply: HookReply) -> Verdict {
    match reply {
        HookReply::Done(v) => Verdict::Success(v),
        HookReply::Raised(e) => Verdict::HookError(e),
    }
}

/// The full account of one run of the subscript-assignment adapter of the
/// mapping protocol: its verdict, what the hook saw (if it ran), and the
/// borrow ledger.
pub struct MappingSetItemRun {
    pub verdict: Verdict,
    pub invoked: Option<(u64, Option<u64>)>,
    pub acquired: Vec<u64>,
    pub released: Vec<u64>,
}

/// The decision logic of the mapping `__setitem__` adapter.
///
/// `slf` and `key` are the required raw handles (`None` stands for a null
/// pointer), `value` is the optional third handle (`None` means deletion),
/// `key_conv` and `value_conv` are what converting each handle produced
/// where the run got that far, and `reply` is what the hook returned where
/// it was invoked.  Every acquired handle is released exactly once, in
/// reverse acquisition order, on every path.
pub fn mapping_set_item(
    slf: Option<u64>,
    key: Option<u64>,
    key_conv: Fetched,
    value: Option<u64>,
    value_conv: Fetched,
    reply: HookReply,
) -> (r: MappingSetItemRun)
    ensures
        r.released@ == r.acquired@.reverse(),
        r.released@.to_multiset() == r.acquired@.to_multiset(),
        (slf is None || key is None) ==> r.verdict == Verdict::MissingPointer && r.invoked is None
            && r.acquired@ == Seq::<u64>::empty(),
        slf is Some && key is Some ==> r.acquired@ == (match (key_conv, value) {
            (Fetched::Failed(_), _) => seq![slf->0, key->0],
            (Fetched::Converted(_), None) => seq![slf->0, key->0],
            (Fetched::Converted(_), Some(vh)) => seq![slf->0, key->0, vh],
        }),
        slf is Some && key is Some ==> match key_conv {
            Fetched::Failed(e) => r.verdict == Verdict::ConversionError(e) && r.invoked is None,
            Fetched::Converted(k) => match value {
                None => r.invoked == Some((k, None::<u64>)) && r.verdict == reply_verdict(reply),
                Some(_) => match value_conv {
                    Fetched::Failed(e) => r.verdict == Verdict::ConversionError(e)
                        && r.invoked is None,
                    Fetched::Converted(v) => r.invoked == Some((k, Some(v))) && r.verdict
                        == reply_verdict(reply),
                },
            },
        },
{
    let (sh, kh) = match (slf, key) {
        (Some(sh), Some(kh)) => (sh, kh),
        _ => {
            let r = MappingSetItemRun {
                verdict: Verdict::MissingPointer,
                invoked: None,
                acquired: Vec::new(),
                released: Vec::new(),
            };
            proof {
                assert(r.released@ =~= r.acquired@.reverse());
                r.acquired@.lemma_reverse_to_multiset();
            }
            return r;
        },
    };
    let mut acquired: Vec<u64> = Vec::new();
    acquired.push(sh);
    acquired.push(kh);
    let (verdict, invoked, value_acquired) = match key_conv {
        Fetched::Failed(e) => (Verdict::ConversionError(e), None, false),
        Fetched::Converted(k) => match value {
            None => (reply_verdict_x(reply), Some((k, None)), false),
            Some(_) => match value_conv {
                Fetched::Failed(e) => (Verdict::ConversionError(e), None, true),
                Fetched::Converted(v) => (reply_verdict_x(reply), Some((k, Some(v))), true),
            },
        },
    };
    let mut released: Vec<u64> = Vec::new();
    if value_acquired {
        let vh = match value {
            Some(vh) => vh,
            None => 0,
        };
        acquired.push(vh);
        released.push(vh);
    }
    released.push(kh);
    released.push(sh);
    let r = MappingSetItemRun { verdict, invoked, acquired, released };
    proof {
        assert(r.released@ =~= r.acquired@.reverse());
        r.acquired@.lemma_reverse_to_multiset();
    }
    r
}

fn reply_verdict_x(reply: HookReply) -> (v: Verdict)
    ensures
        v == reply_verdict(reply),
{
    match reply {
        HookReply::Done(x) => Verdict::Success(x),
        HookReply::Raised(e) => Verdict::HookError(e),
    }
}

/// The account of one run of the item-assignment adapter of the sequence
/// protocol, whose key is a native index, not a handle.
pub struct SequenceSetItemRun {
    pub verdict: Verdict,
    pub invoked: Option<(i64, Option<u64>)>,
    pub acquired: Vec<u64>,
    pub released: Vec<u64>,
}

/// The decision logic of the sequence `__setitem__` adapter: as the mapping
/// one, but the key arrives as a native index and needs no conversion and
/// no release.
pub fn sequence_set_item(
    slf: Option<u64>,
    key: i64,
    value: Option<u64>,
    value_conv: Fetched,
    reply: HookReply,
) -> (r: SequenceSetItemRun)
    ensures
        r.released@ == r.acquired@.reverse(),
        r.released@.to_multiset() == r.acquired@.to_multiset(),
        slf is None ==> r.verdict == Verdict::MissingPointer && r.invoked is None && r.acquired@
            == Seq::<u64>::empty(),
        slf is Some ==> r.acquired@ == (match value {
            None => seq![slf->0],
            Some(vh) => seq![slf->0, vh],
        }),
        slf is Some ==> match value {
            None => r.invoked == Some((key, None::<u64>)) && r.verdict == reply_verdict(reply),
            Some(_) => match value_conv {
                Fetched::Failed(e) => r.verdict == Verdict::ConversionError(e)
                    && r.invoked is None,
                Fetched::Converted(v) => r.invoked == Some((key, Some(v))) && r.verdict
                    == reply_verdict(reply),
            },
        },
{
    let sh = match slf {
        Some(sh) => sh,
        None => {
            let r = SequenceSetItemRun {
                verdict: Verdict::MissingPointer,
                invoked: None,
                acquired: Vec::new(),
                released: Vec::new(),
            };
            proof {
                assert(r.released@ =~= r.acquired@.reverse());
                r.acquired@.lemma_reverse_to_multiset();
            }
            return r;
        },
    };
    let mut acquired: Vec<u64> = Vec::new();
    acquired.push(sh);
    let (verdict, invoked, value_acquired) = match value {
        None => (reply_verdict_x(reply), Some((key, None)), false),
        Some(_) => match value_conv {
            Fetched::Failed(e) => (Verdict::ConversionError(e), None, true),
            Fetched::Converted(v) => (reply_verdict_x(reply), Some((key, Some(v))), true),
        },
    };
    let mut released: Vec<u64> = Vec::new();
    if value_acquired {
        let vh = match value {
            Some(vh) => vh,
            None => 0,
        };
        acquired.push(vh);
        released.push(vh);
    }
    released.push(sh);
    let r = SequenceSetItemRun { verdict, invoked, acquired, released };
    proof {
        assert(r.released@ =~= r.acquired@.reverse());
        r.acquired@.lemma_reverse_to_multiset();
    }
    r
}

} // verus!
