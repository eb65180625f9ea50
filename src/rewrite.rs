//! Reversible placeholder substitution in a configuration document.

use vstd::prelude::*;
use crate::text::{contains, occurs_at, replace_all, replaced, starts_with, unbordered};

verus! {

/// The placeholder token that a configuration template holds for the
/// bootstrap node's peer identifier.
pub const PLACEHOLDER: &'static str = "BOOTSTRAP_PEER_ID";

/// Injects `value` into `doc` in place of every occurrence of `placeholder`.
pub fn apply_substitution(doc: &str, placeholder: &str, value: &str) -> (r: String)
    ensures
        r@ == replaced(doc@, placeholder@, value@),
{
    replace_all(doc, placeholder, value)
}

/// Puts `placeholder` back in place of every occurrence of `value` in `doc`.
pub fn restore_substitution(doc: &str, value: &str, placeholder: &str) -> (r: String)
    ensures
        r@ == replaced(doc@, value@, placeholder@),
{
    replace_all(doc, value, placeholder)
}

/// An occurrence of `v` that starts inside a nonempty `x` and runs into a
/// copy of `v` placed right after it is either already inside `x`, or
/// shows a border of `v`.
proof fn lemma_start_before_copy(x: Seq<char>, v: Seq<char>, rest: Seq<char>)
    requires
        x.len() > 0,
        v.len() > 0,
        starts_with(x + (v + rest), v),
    ensures
        (v.len() <= x.len() && x.subrange(0, v.len() as int) == v) || !unbordered(v),
{
    let s = x + (v + rest);
    if v.len() <= x.len() {
        assert(s.subrange(0, v.len() as int) =~= x.subrange(0, v.len() as int));
    } else {
        let k = v.len() - x.len();
        assert(v.subrange(0, k) =~= s.subrange(x.len() as int, v.len() as int));
        assert(s.subrange(x.len() as int, v.len() as int) =~= v.subrange(
            v.len() - k,
            v.len() as int,
        ));
        assert(!unbordered(v));
    }
}

/// If a nonempty `x` followed by the substituted `t` starts with `v`, then
/// `x` followed by the original `t` already does, or `v` has a border.
proof fn lemma_no_straddle(x: Seq<char>, t: Seq<char>, p: Seq<char>, v: Seq<char>)
    requires
        x.len() > 0,
        v.len() > 0,
        starts_with(x + replaced(t, p, v), v),
    ensures
        starts_with(x + t, v) || !unbordered(v),
    decreases t.len(),
{
    if p.len() == 0 {
        let rest = if t.len() == 0 {
            Seq::<char>::empty()
        } else {
            seq![t[0]] + replaced(t.drop_first(), p, v)
        };
        assert(replaced(t, p, v) =~= v + rest);
        lemma_start_before_copy(x, v, rest);
        if unbordered(v) {
            assert((x + t).subrange(0, v.len() as int) =~= x.subrange(0, v.len() as int));
        }
    } else if t.len() == 0 {
        assert(x + replaced(t, p, v) =~= x + t);
    } else if starts_with(t, p) {
        lemma_start_before_copy(x, v, replaced(t.skip(p.len() as int), p, v));
        if unbordered(v) {
            assert((x + t).subrange(0, v.len() as int) =~= x.subrange(0, v.len() as int));
        }
    } else {
        let x2 = x.push(t[0]);
        assert(x + replaced(t, p, v) =~= x2 + replaced(t.drop_first(), p, v));
        lemma_no_straddle(x2, t.drop_first(), p, v);
        assert(x2 + t.drop_first() =~= x + t);
    }
}

/// What does not occur in `s` does not occur in any suffix of it.
proof fn lemma_absent_from_suffix(s: Seq<char>, v: Seq<char>, k: int)
    requires
        0 <= k <= s.len(),
        !contains(s, v),
    ensures
        !contains(s.skip(k), v),
{
    if contains(s.skip(k), v) {
        let i = choose|i: int| occurs_at(s.skip(k), v, i);
        assert(s.skip(k).subrange(i, i + v.len()) =~= s.subrange(k + i, k + i + v.len()));
        assert(occurs_at(s, v, k + i));
    }
}

/// Restoring undoes the substitution: putting `placeholder` back in place of
/// `value` yields the original document, provided that `value` is nonempty,
/// does not occur in the document, and has no border (else an occurrence of
/// `value` may straddle document text and an injected copy).
pub proof fn lemma_restore_undoes_apply(doc: Seq<char>, placeholder: Seq<char>, value: Seq<char>)
    requires
        value.len() > 0,
        !contains(doc, value),
        unbordered(value),
    ensures
        replaced(replaced(doc, placeholder, value), value, placeholder) == doc,
    decreases doc.len(),
{
    let p = placeholder;
    let v = value;
    if doc.len() == 0 {
        if p.len() == 0 {
            assert(v.subrange(0, v.len() as int) =~= v);
            assert(v.skip(v.len() as int) =~= Seq::<char>::empty());
            assert(replaced(v, v, p) =~= p + replaced(Seq::<char>::empty(), v, p));
            assert(replaced(v, v, p) =~= doc);
        }
    } else if p.len() == 0 || starts_with(doc, p) {
        let (tail, head) = if p.len() == 0 {
            (doc.drop_first(), seq![doc[0]])
        } else {
            (doc.skip(p.len() as int), Seq::<char>::empty())
        };
        lemma_absent_from_suffix(doc, v, doc.len() - tail.len());
        assert(doc.skip(doc.len() - tail.len()) =~= tail);
        lemma_restore_undoes_apply(tail, p, v);
        let a = replaced(tail, p, v);
        let after = head + a;
        assert(replaced(doc, p, v) =~= v + after);
        let s = v + after;
        assert(s.subrange(0, v.len() as int) =~= v);
        assert(s.skip(v.len() as int) =~= after);
        assert(replaced(s, v, p) == p + replaced(after, v, p));
        if p.len() == 0 {
            assert(head + tail =~= doc);
            assert(!starts_with(after, v)) by {
                if starts_with(after, v) {
                    lemma_no_straddle(head, tail, p, v);
                    assert(occurs_at(doc, v, 0));
                }
            }
            assert(after.drop_first() =~= a);
            assert(replaced(after, v, p) =~= head + replaced(a, v, p));
            assert(p + head + tail =~= doc);
        } else {
            assert(after =~= a);
            assert(p + tail =~= doc);
        }
    } else {
        let tail = doc.drop_first();
        let head = seq![doc[0]];
        lemma_absent_from_suffix(doc, v, 1);
        lemma_restore_undoes_apply(tail, p, v);
        let a = replaced(tail, p, v);
        assert(replaced(doc, p, v) =~= head + a);
        assert(head + tail =~= doc);
        assert(!starts_with(head + a, v)) by {
            if starts_with(head + a, v) {
                lemma_no_straddle(head, tail, p, v);
                assert(occurs_at(doc, v, 0));
            }
        }
        assert((head + a).drop_first() =~= a);
        assert(replaced(head + a, v, p) =~= head + replaced(a, v, p));
        assert(head + tail =~= doc);
    }
}

} // verus!
