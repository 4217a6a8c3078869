//! The edit distance is a metric on sequences.

use crate::distance::{edit_distance, substitution_cost};
use vstd::prelude::*;

verus! {

/// A distance never exceeds the length of the longer sequence.
pub proof fn lemma_distance_upper_bound<T>(a: Seq<T>, b: Seq<T>)
    ensures
        edit_distance(a, b) <= a.len() || edit_distance(a, b) <= b.len(),
    decreases a.len() + b.len(),
{
    if a.len() > 0 && b.len() > 0 {
        lemma_distance_upper_bound(a.drop_last(), b.drop_last());
    }
}

/// A distance is at least the difference of the two lengths.
pub proof fn lemma_distance_lower_bound<T>(a: Seq<T>, b: Seq<T>)
    ensures
        a.len() - b.len() <= edit_distance(a, b),
        b.len() - a.len() <= edit_distance(a, b),
    decreases a.len() + b.len(),
{
    if a.len() > 0 && b.len() > 0 {
        lemma_distance_lower_bound(a, b.drop_last());
        lemma_distance_lower_bound(a.drop_last(), b);
        lemma_distance_lower_bound(a.drop_last(), b.drop_last());
    }
}

/// The distance from a sequence to itself is zero.
pub proof fn lemma_distance_to_self<T>(a: Seq<T>)
    ensures
        edit_distance(a, a) == 0,
    decreases a.len(),
{
    if a.len() > 0 {
        lemma_distance_to_self(a.drop_last());
    }
}

/// Only equal sequences are at distance zero.
pub proof fn lemma_distance_zero<T>(a: Seq<T>, b: Seq<T>)
    ensures
        edit_distance(a, b) == 0 <==> a == b,
    decreases a.len() + b.len(),
{
    if a == b {
        lemma_distance_to_self(a);
    } else if a.len() > 0 && b.len() > 0 {
        lemma_distance_zero(a.drop_last(), b.drop_last());
        if edit_distance(a, b) == 0 {
            assert(a.drop_last() == b.drop_last());
            assert(a.last() == b.last());
            assert(a =~= a.drop_last().push(a.last()));
            assert(b =~= b.drop_last().push(b.last()));
        }
    } else {
        assert(a.len() != b.len()) by {
            if a.len() == 0 && b.len() == 0 {
                assert(a =~= b);
            }
        }
    }
}

/// The distance from `a` to `b` is the distance from `b` to `a`.
pub proof fn lemma_distance_symmetric<T>(a: Seq<T>, b: Seq<T>)
    ensures
        edit_distance(a, b) == edit_distance(b, a),
    decreases a.len() + b.len(),
{
    if a.len() > 0 && b.len() > 0 {
        lemma_distance_symmetric(a, b.drop_last());
        lemma_distance_symmetric(a.drop_last(), b);
        lemma_distance_symmetric(a.drop_last(), b.drop_last());
    }
}

/// The triangle inequality: going from `a` to `c` directly costs no more
/// than going through `b`.
pub proof fn lemma_distance_triangle<T>(a: Seq<T>, b: Seq<T>, c: Seq<T>)
    ensures
        edit_distance(a, c) <= edit_distance(a, b) + edit_distance(b, c),
    decreases a.len() + b.len() + c.len(),
{
    if a.len() == 0 {
        lemma_distance_lower_bound(b, c);
    } else if c.len() == 0 {
        lemma_distance_lower_bound(a, b);
    } else if b.len() == 0 {
        lemma_distance_upper_bound(a, c);
    } else {
        let a0 = a.drop_last();
        let b0 = b.drop_last();
        let c0 = c.drop_last();
        let ab = edit_distance(a, b);
        let bc = edit_distance(b, c);
        if ab == edit_distance(a0, b) + 1 {
            // The last element of `a` is deleted on the way to `b`.
            lemma_distance_triangle(a0, b, c);
        } else if bc == edit_distance(b, c0) + 1 {
            // The last element of `c` is inserted on the way from `b`.
            lemma_distance_triangle(a, b, c0);
        } else if ab == edit_distance(a, b0) + 1 {
            // The last element of `b` is inserted, then deleted or replaced.
            if bc == edit_distance(b0, c) + 1 {
                lemma_distance_triangle(a, b0, c);
            } else {
                lemma_distance_triangle(a, b0, c0);
            }
        } else {
            // The last element of `a` becomes that of `b`.
            if bc == edit_distance(b0, c) + 1 {
                lemma_distance_triangle(a0, b0, c);
            } else {
                lemma_distance_triangle(a0, b0, c0);
                assert(substitution_cost(a.last(), c.last()) <= substitution_cost(
                    a.last(),
                    b.last(),
                ) + substitution_cost(b.last(), c.last()));
            }
        }
    }
}

} // verus!
