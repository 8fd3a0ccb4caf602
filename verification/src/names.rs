//! The name deriver: exposed dunder-style hook names and snake_case
//! argument binder names, both purely syntactic.
//!
//! The exposed name is total: any hook name is lowercased and wrapped in
//! double underscores.  A binder name exists only for an argument type name
//! in capitalized-words form (maximal uppercase-then-lowercase runs);
//! anything else fails generation rather than emit a nonsense identifier.

use vstd::prelude::*;

use crate::ast::{HookV, ProtocolV};
use crate::lex::{is_lower, is_upper};

verus! {

/// ASCII lowercasing of one character; anything but `A`..`Z` is kept.
pub open spec fn lower_char(c: char) -> char {
    if is_upper(c) {
        (((c as u8) + 32) as char)
    } else {
        c
    }
}

/// ASCII lowercasing, character by character.
pub open spec fn lower_of(s: Seq<char>) -> Seq<char> {
    Seq::new(s.len(), |i: int| lower_char(s[i]))
}

/// The exposed dunder-style name of a hook.
pub open spec fn exposed_name(name: Seq<char>) -> Seq<char> {
    "__"@ + lower_of(name) + "__"@
}

/// The first position at or after `i` that is not a lowercase letter.
pub open spec fn run_end(s: Seq<char>, i: int) -> int
    decreases s.len() - i,
{
    if 0 <= i < s.len() && is_lower(s[i]) {
        run_end(s, i + 1)
    } else {
        i
    }
}

pub proof fn lemma_run_end(s: Seq<char>, i: int)
    requires
        0 <= i <= s.len(),
    ensures
        i <= run_end(s, i) <= s.len(),
    decreases s.len() - i,
{
    if i < s.len() && is_lower(s[i]) {
        lemma_run_end(s, i + 1);
    }
}

/// Whether `s` from position `i` on is a sequence of capitalized-word runs:
/// an uppercase letter, lowercase letters, then either the end or the next
/// such run.
pub open spec fn camel_ok_from(s: Seq<char>, i: int) -> bool
    decreases s.len() - i,
    via camel_ok_from_dec
{
    0 <= i < s.len() && is_upper(s[i]) && (run_end(s, i + 1) >= s.len() || camel_ok_from(
        s,
        run_end(s, i + 1),
    ))
}

#[via_fn]
proof fn camel_ok_from_dec(s: Seq<char>, i: int) {
    if 0 <= i < s.len() {
        lemma_run_end(s, i + 1);
    }
}

/// Whether `s` is a well-formed capitalized-words identifier.
pub open spec fn camel_ok(s: Seq<char>) -> bool {
    camel_ok_from(s, 0)
}

/// The binder name derived from `s` starting at a run boundary `i`:
/// each run lowercased, runs joined with single underscores.
pub open spec fn binder_from(s: Seq<char>, i: int) -> Seq<char>
    decreases s.len() - i,
    via binder_from_dec
{
    if i < 0 || i >= s.len() {
        Seq::empty()
    } else {
        let j = run_end(s, i + 1);
        if j >= s.len() {
            lower_of(s.subrange(i, s.len() as int))
        } else {
            lower_of(s.subrange(i, j)) + seq!['_'] + binder_from(s, j)
        }
    }
}

#[via_fn]
proof fn binder_from_dec(s: Seq<char>, i: int) {
    if 0 <= i < s.len() {
        lemma_run_end(s, i + 1);
    }
}

/// The snake_case binder name of a capitalized-words identifier.
pub open spec fn binder_of(s: Seq<char>) -> Seq<char> {
    binder_from(s, 0)
}

/// Whether every argument name of every hook in the tree has a well-formed
/// capitalized-words shape, so that every binder name exists.
pub open spec fn hook_args_ok(h: HookV) -> bool {
    forall|i: int| 0 <= i < h.arguments.len() ==> camel_ok(#[trigger] h.arguments[i])
}

pub open spec fn hooks_ok(hs: Seq<HookV>) -> bool {
    forall|i: int| 0 <= i < hs.len() ==> hook_args_ok(#[trigger] hs[i])
}

pub open spec fn tree_names_ok(p: ProtocolV) -> bool
    decreases p,
{
    hooks_ok(p.hooks) && children_ok(p.children)
}

pub open spec fn children_ok(ps: Seq<ProtocolV>) -> bool
    decreases ps,
{
    forall|i: int| 0 <= i < ps.len() ==> tree_names_ok(#[trigger] ps[i])
}

/// Name derivation is deterministic and total: for every hook name the
/// exposed name is exactly the lowercased name wrapped in one pair of
/// double underscores — nothing added, nothing dropped, and a separator
/// (`_`) appears inside only where the name itself holds one.
pub proof fn lemma_exposed_name_shape(name: Seq<char>)
    ensures
        exposed_name(name).len() == name.len() + 4,
        exposed_name(name)[0] == '_' && exposed_name(name)[1] == '_',
        exposed_name(name)[name.len() as int + 2] == '_' && exposed_name(name)[name.len() as int + 3] == '_',
        forall|i: int|
            0 <= i < name.len() ==> exposed_name(name)[2 + i] == lower_char(#[trigger] name[i]),
        forall|i: int|
            0 <= i < name.len() && name[i] != '_' ==> exposed_name(name)[2 + i] != '_',
{
    reveal_strlit("__");
    assert forall|i: int| 0 <= i < name.len() && name[i] != '_' implies exposed_name(name)[2 + i]
        != '_' by {
        assert(exposed_name(name)[2 + i] == lower_char(name[i]));
        if is_upper(name[i]) {
            assert(is_lower(lower_char(name[i])));
            assert(lower_char(name[i]) != '_');
        }
    }
}

fn lower_char_x(c: char) -> (r: char)
    ensures
        r == lower_char(c),
{
    if 'A' <= c && c <= 'Z' {
        (((c as u8) + 32) as char)
    } else {
        c
    }
}

/// Appends the characters of `s` unchanged.
pub fn push_str_chars(out: &mut Vec<char>, s: &str)
    ensures
        final(out)@ == old(out)@ + s@,
{
    let ghost out0 = out@;
    let n = s.unicode_len();
    let mut k: usize = 0;
    proof {
        assert(out@ =~= out0 + s@.take(0));
    }
    while k < n
        invariant
            k <= s@.len(),
            n == s@.len(),
            out@ == out0 + s@.take(k as int),
        decreases s@.len() - k,
    {
        let c = s.get_char(k);
        out.push(c);
        proof {
            assert(out0 + s@.take(k as int) + seq![s@[k as int]] =~= out0 + s@.take(k as int + 1));
        }
        k += 1;
    }
    proof {
        assert(out0 + s@.take(s@.len() as int) =~= out0 + s@);
    }
}

/// Appends the characters of `s`, lowercased.
pub fn push_lower(out: &mut Vec<char>, s: &str)
    ensures
        final(out)@ == old(out)@ + lower_of(s@),
{
    let ghost out0 = out@;
    let n = s.unicode_len();
    let mut k: usize = 0;
    proof {
        assert(out@ =~= out0 + lower_of(s@).take(0));
    }
    while k < n
        invariant
            k <= s@.len(),
            n == s@.len(),
            out@ == out0 + lower_of(s@).take(k as int),
        decreases s@.len() - k,
    {
        let c = lower_char_x(s.get_char(k));
        out.push(c);
        proof {
            assert(out0 + lower_of(s@).take(k as int) + seq![lower_of(s@)[k as int]] =~= out0
                + lower_of(s@).take(k as int + 1));
        }
        k += 1;
    }
    proof {
        assert(out0 + lower_of(s@).take(s@.len() as int) =~= out0 + lower_of(s@));
    }
}

/// Appends the exposed dunder-style name of a hook.
pub fn push_exposed_name(out: &mut Vec<char>, name: &str)
    ensures
        final(out)@ == old(out)@ + exposed_name(name@),
{
    push_str_chars(out, "__");
    push_lower(out, name);
    push_str_chars(out, "__");
    proof {
        assert(old(out)@ + "__"@ + lower_of(name@) + "__"@ =~= old(out)@ + ("__"@ + lower_of(name@)
            + "__"@));
    }
}

fn run_end_x(s: &str, i: usize, n: usize) -> (r: usize)
    requires
        i <= s@.len(),
        n == s@.len(),
    ensures
        r == run_end(s@, i as int),
        i <= r <= s@.len(),
    decreases s@.len() - i,
{
    if i < n && {
        let c = s.get_char(i);
        'a' <= c && c <= 'z'
    } {
        run_end_x(s, i + 1, n)
    } else {
        i
    }
}

/// Whether `s` is a well-formed capitalized-words identifier.
pub fn check_camel(s: &str) -> (r: bool)
    ensures
        r == camel_ok(s@),
{
    check_camel_from(s, 0, s.unicode_len())
}

fn check_camel_from(s: &str, i: usize, n: usize) -> (r: bool)
    requires
        i <= s@.len(),
        n == s@.len(),
    ensures
        r == camel_ok_from(s@, i as int),
    decreases s@.len() - i,
{
    if i >= n {
        return false;
    }
    let c = s.get_char(i);
    if !('A' <= c && c <= 'Z') {
        return false;
    }
    let j = run_end_x(s, i + 1, n);
    if j >= n {
        true
    } else {
        check_camel_from(s, j, n)
    }
}

/// Appends the binder name of a capitalized-words identifier.
pub fn push_binder(out: &mut Vec<char>, s: &str)
    ensures
        final(out)@ == old(out)@ + binder_of(s@),
{
    push_binder_from(out, s, 0, s.unicode_len())
}

fn push_binder_from(out: &mut Vec<char>, s: &str, i: usize, n: usize)
    requires
        i <= s@.len(),
        n == s@.len(),
    ensures
        final(out)@ == old(out)@ + binder_from(s@, i as int),
    decreases s@.len() - i,
{
    if i >= n {
        proof {
            assert(old(out)@ + Seq::<char>::empty() =~= old(out)@);
        }
        return ;
    }
    let j = run_end_x(s, i + 1, n);
    let ghost out0 = out@;
    let run = s.substring_char(i, j);
    push_lower(out, run);
    if j < n {
        out.push('_');
        let ghost out1 = out@;
        proof {
            assert(out1 =~= out0 + lower_of(s@.subrange(i as int, j as int)) + seq!['_']);
        }
        push_binder_from(out, s, j, n);
        proof {
            assert(out0 + lower_of(s@.subrange(i as int, j as int)) + seq!['_'] + binder_from(
                s@,
                j as int,
            ) =~= out0 + (lower_of(s@.subrange(i as int, j as int)) + seq!['_'] + binder_from(
                s@,
                j as int,
            )));
        }
    } else {
        proof {
            assert(s@.subrange(i as int, j as int) == s@.subrange(i as int, s@.len() as int));
        }
    }
}

} // verus!
