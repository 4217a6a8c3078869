//! The edit distance counts edits: it is the length of a shortest chain of
//! single insertions, deletions and substitutions that leads from one
//! sequence to the other.

use crate::distance::edit_distance;
use crate::metric::{lemma_distance_symmetric, lemma_distance_to_self, lemma_distance_triangle};
use vstd::prelude::*;

verus! {

/// `t` is `s` with one element inserted, deleted or replaced.
pub open spec fn one_edit<T>(s: Seq<T>, t: Seq<T>) -> bool {
    ||| exists|i: int, x: T| 0 <= i <= s.len() && t == #[trigger] s.insert(i, x)
    ||| exists|i: int| 0 <= i < s.len() && t == #[trigger] s.remove(i)
    ||| exists|i: int, x: T| 0 <= i < s.len() && t == #[trigger] s.update(i, x)
}

/// `steps` leads from `a` to `b`, each of its sequences one edit away from
/// the one before it. A chain of `n + 1` sequences makes `n` edits.
pub open spec fn edit_chain<T>(steps: Seq<Seq<T>>, a: Seq<T>, b: Seq<T>) -> bool {
    &&& steps.len() > 0
    &&& steps.first() == a
    &&& steps.last() == b
    &&& forall|k: int| 0 <= k < steps.len() - 1 ==> one_edit(#[trigger] steps[k], steps[k + 1])
}

/// Inserting one element moves a sequence by at most one.
pub proof fn lemma_insert_is_near<T>(s: Seq<T>, i: int, x: T)
    requires
        0 <= i <= s.len(),
    ensures
        edit_distance(s, s.insert(i, x)) <= 1,
    decreases s.len() - i,
{
    let t = s.insert(i, x);
    if i == s.len() {
        assert(t.drop_last() =~= s);
        lemma_distance_to_self(s);
    } else {
        assert(t.last() == s.last());
        assert(t.drop_last() =~= s.drop_last().insert(i, x));
        lemma_insert_is_near(s.drop_last(), i, x);
    }
}

/// Replacing one element moves a sequence by at most one.
pub proof fn lemma_update_is_near<T>(s: Seq<T>, i: int, x: T)
    requires
        0 <= i < s.len(),
    ensures
        edit_distance(s, s.update(i, x)) <= 1,
    decreases s.len() - i,
{
    let t = s.update(i, x);
    if i == s.len() - 1 {
        assert(t.drop_last() =~= s.drop_last());
        lemma_distance_to_self(s.drop_last());
    } else {
        assert(t.last() == s.last());
        assert(t.drop_last() =~= s.drop_last().update(i, x));
        lemma_update_is_near(s.drop_last(), i, x);
    }
}

/// Sequences that are one edit apart are at distance one at most.
pub proof fn lemma_one_edit_is_near<T>(s: Seq<T>, t: Seq<T>)
    requires
        one_edit(s, t),
    ensures
        edit_distance(s, t) <= 1,
{
    if exists|i: int, x: T| 0 <= i <= s.len() && t == #[trigger] s.insert(i, x) {
        let (i, x) = choose|i: int, x: T| 0 <= i <= s.len() && t == #[trigger] s.insert(i, x);
        lemma_insert_is_near(s, i, x);
    } else if exists|i: int| 0 <= i < s.len() && t == #[trigger] s.remove(i) {
        let i = choose|i: int| 0 <= i < s.len() && t == #[trigger] s.remove(i);
        assert(s =~= t.insert(i, s[i]));
        lemma_insert_is_near(t, i, s[i]);
        lemma_distance_symmetric(s, t);
    } else {
        let (i, x) = choose|i: int, x: T| 0 <= i < s.len() && t == #[trigger] s.update(i, x);
        lemma_update_is_near(s, i, x);
    }
}

/// No chain of edits from `a` to `b` is shorter than their distance.
pub proof fn lemma_chain_is_long_enough<T>(steps: Seq<Seq<T>>, a: Seq<T>, b: Seq<T>)
    requires
        edit_chain(steps, a, b),
    ensures
        edit_distance(a, b) <= steps.len() - 1,
    decreases steps.len(),
{
    if steps.len() == 1 {
        lemma_distance_to_self(a);
    } else {
        let before = steps.drop_last();
        let stop = before.last();
        assert(stop == steps[steps.len() - 2]);
        assert(edit_chain(before, a, stop)) by {
            assert forall|k: int| 0 <= k < before.len() - 1 implies one_edit(
                #[trigger] before[k],
                before[k + 1],
            ) by {
                assert(one_edit(steps[k], steps[k + 1]));
            }
        }
        lemma_chain_is_long_enough(before, a, stop);
        lemma_one_edit_is_near(stop, b);
        lemma_distance_triangle(a, stop, b);
    }
}

/// An edit that is made to `s` can be made to `s` with `x` at its end.
pub proof fn lemma_one_edit_before_last<T>(s: Seq<T>, t: Seq<T>, x: T)
    requires
        one_edit(s, t),
    ensures
        one_edit(s.push(x), t.push(x)),
{
    if exists|i: int, y: T| 0 <= i <= s.len() && t == #[trigger] s.insert(i, y) {
        let (i, y) = choose|i: int, y: T| 0 <= i <= s.len() && t == #[trigger] s.insert(i, y);
        assert(t.push(x) =~= s.push(x).insert(i, y));
    } else if exists|i: int| 0 <= i < s.len() && t == #[trigger] s.remove(i) {
        let i = choose|i: int| 0 <= i < s.len() && t == #[trigger] s.remove(i);
        assert(t.push(x) =~= s.push(x).remove(i));
    } else {
        let (i, y) = choose|i: int, y: T| 0 <= i < s.len() && t == #[trigger] s.update(i, y);
        assert(t.push(x) =~= s.push(x).update(i, y));
    }
}

/// There is a chain of edits from `a` to `b` that makes as many edits as
/// their distance says. The chain is returned.
pub proof fn lemma_chain_of_distance<T>(a: Seq<T>, b: Seq<T>) -> (steps: Seq<Seq<T>>)
    ensures
        edit_chain(steps, a, b),
        steps.len() - 1 == edit_distance(a, b),
    decreases a.len() + b.len(),
{
    if a.len() == 0 && b.len() == 0 {
        assert(a =~= b);
        seq![a]
    } else if a.len() == 0 || (b.len() > 0 && edit_distance(a, b) == edit_distance(
        a,
        b.drop_last(),
    ) + 1) {
        // The last element of `b` is inserted at the end.
        let b0 = b.drop_last();
        let before = lemma_chain_of_distance(a, b0);
        let steps = before.push(b);
        assert(b =~= b0.insert(b0.len() as int, b.last()));
        assert forall|k: int| 0 <= k < steps.len() - 1 implies one_edit(
            #[trigger] steps[k],
            steps[k + 1],
        ) by {
            if k < before.len() - 1 {
                assert(one_edit(before[k], before[k + 1]));
            }
        }
        steps
    } else if b.len() == 0 || edit_distance(a, b) == edit_distance(a.drop_last(), b) + 1 {
        // The last element of `a` is deleted first.
        let a0 = a.drop_last();
        let after = lemma_chain_of_distance(a0, b);
        let steps = seq![a] + after;
        assert(a0 =~= a.remove(a.len() - 1));
        assert forall|k: int| 0 <= k < steps.len() - 1 implies one_edit(
            #[trigger] steps[k],
            steps[k + 1],
        ) by {
            if k > 0 {
                assert(one_edit(after[k - 1], after[k]));
            }
        }
        steps
    } else {
        // Everything before the last elements is edited with the last
        // element of `a` in place, which then becomes that of `b`.
        let a0 = a.drop_last();
        let b0 = b.drop_last();
        let inner = lemma_chain_of_distance(a0, b0);
        let kept = Seq::new(inner.len(), |k: int| inner[k].push(a.last()));
        assert(a =~= a0.push(a.last()));
        assert(b =~= b0.push(b.last()));
        assert forall|k: int| 0 <= k < kept.len() - 1 implies one_edit(
            #[trigger] kept[k],
            kept[k + 1],
        ) by {
            assert(one_edit(inner[k], inner[k + 1]));
            lemma_one_edit_before_last(inner[k], inner[k + 1], a.last());
        }
        if a.last() == b.last() {
            kept
        } else {
            let steps = kept.push(b);
            assert(b =~= kept.last().update(b0.len() as int, b.last()));
            assert forall|k: int| 0 <= k < steps.len() - 1 implies one_edit(
                #[trigger] steps[k],
                steps[k + 1],
            ) by {
                if k < kept.len() - 1 {
                    assert(one_edit(kept[k], kept[k + 1]));
                }
            }
            steps
        }
    }
}

} // verus!
