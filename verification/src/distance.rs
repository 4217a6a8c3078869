//! Levenshtein distance between two sequences.

use vstd::prelude::*;
use vstd::std_specs::cmp::PartialEqSpec;

verus! {

/// The smaller of two natural numbers.
pub open spec fn least(x: nat, y: nat) -> nat {
    if x <= y {
        x
    } else {
        y
    }
}

/// What it costs to put `y` where `x` stands: nothing where they are equal,
/// one substitution where they differ.
pub open spec fn substitution_cost<T>(x: T, y: T) -> nat {
    if x == y {
        0
    } else {
        1
    }
}

/// The Levenshtein distance from `a` to `b`: the cheapest way to turn `a`
/// into `b` by inserting, deleting and substituting single elements, each at
/// cost one.
///
/// The last elements are either aligned with one another (a substitution, or
/// nothing if they are equal), or the last element of `b` is inserted, or the
/// last element of `a` is deleted.
pub open spec fn edit_distance<T>(a: Seq<T>, b: Seq<T>) -> nat
    decreases a.len() + b.len(),
{
    if a.len() == 0 {
        b.len()
    } else if b.len() == 0 {
        a.len()
    } else {
        least(
            least(
                edit_distance(a, b.drop_last()) + 1,
                edit_distance(a.drop_last(), b) + 1,
            ),
            edit_distance(a.drop_last(), b.drop_last()) + substitution_cost(a.last(), b.last()),
        )
    }
}

/// `==` on values of `T` tells whether they are equal. It does for the
/// integers, bytes among them, and for `bool`; a type may compare its values
/// in another way.
pub open spec fn eq_is_equality<T: PartialEq>() -> bool {
    &&& T::obeys_eq_spec()
    &&& forall|x: T, y: T| #[trigger] x.eq_spec(&y) <==> x == y
}

/// Computes the Levenshtein distance between `str1` and `str2`.
///
/// The distance is the one of [`edit_distance`] wherever `==` on `T` is
/// equality. Whatever `==` does, the result is no more than the length of the
/// longer slice. Only two rows of the table are kept, the one being filled
/// and the one before it.
pub fn levenshtein_distance<T: Eq>(str1: &[T], str2: &[T]) -> (dist: usize)
    ensures
        dist <= str1@.len() || dist <= str2@.len(),
        eq_is_equality::<T>() ==> dist == edit_distance(str1@, str2@),
{
    let m = str1.len();
    let n = str2.len();
    // row[k] is the distance from the first i elements of str1 to the first
    // k + 1 elements of str2; the distance to no element at all is i.
    let mut row: Vec<usize> = Vec::with_capacity(n);
    let mut k: usize = 0;
    while k < n
        invariant
            k <= n,
            row@.len() == k,
            forall|c: int| 0 <= c < k ==> row@[c] == c + 1,
        decreases n - k,
    {
        row.push(k + 1);
        k += 1;
    }
    let mut i: usize = 0;
    while i < m
        invariant
            m == str1@.len(),
            n == str2@.len(),
            i <= m,
            row@.len() == n,
            forall|c: int| 0 <= c < n ==> row@[c] <= i || row@[c] <= c + 1,
            eq_is_equality::<T>() ==> forall|c: int|
                0 <= c < n ==> #[trigger] row@[c] == edit_distance(
                    str1@.take(i as int),
                    str2@.take(c + 1),
                ),
        decreases m - i,
    {
        let ghost prefix = str1@.take(i + 1);
        assert(prefix.drop_last() == str1@.take(i as int));
        let mut next: Vec<usize> = Vec::with_capacity(n);
        let mut j: usize = 0;
        while j < n
            invariant
                m == str1@.len(),
                n == str2@.len(),
                i < m,
                j <= n,
                row@.len() == n,
                next@.len() == j,
                prefix == str1@.take(i + 1),
                prefix.drop_last() == str1@.take(i as int),
                forall|c: int| 0 <= c < n ==> row@[c] <= i || row@[c] <= c + 1,
                forall|c: int| 0 <= c < j ==> next@[c] <= i + 1 || next@[c] <= c + 1,
                eq_is_equality::<T>() ==> forall|c: int|
                    0 <= c < n ==> #[trigger] row@[c] == edit_distance(
                        str1@.take(i as int),
                        str2@.take(c + 1),
                    ),
                eq_is_equality::<T>() ==> forall|c: int|
                    0 <= c < j ==> #[trigger] next@[c] == edit_distance(
                        prefix,
                        str2@.take(c + 1),
                    ),
            decreases n - j,
        {
            let diagonal = if j == 0 {
                i
            } else {
                row[j - 1]
            };
            let left = if j == 0 {
                i + 1
            } else {
                next[j - 1]
            };
            let above = row[j];
            let same = str1[i] == str2[j];
            let replaced = if same {
                diagonal
            } else {
                diagonal + 1
            };
            let shorter = if left <= above {
                left
            } else {
                above
            };
            let cell = if replaced <= shorter {
                replaced
            } else {
                shorter + 1
            };
            proof {
                if eq_is_equality::<T>() {
                    let target = str2@.take(j + 1);
                    assert(target.drop_last() == str2@.take(j as int));
                    assert(left == edit_distance(prefix, str2@.take(j as int)));
                    assert(diagonal == edit_distance(str1@.take(i as int), str2@.take(j as int)));
                }
            }
            next.push(cell);
            j += 1;
        }
        row = next;
        i += 1;
    }
    proof {
        assert(str1@.take(m as int) == str1@);
        assert(str2@.take(n as int) == str2@);
    }
    if n == 0 {
        m
    } else {
        row[n - 1]
    }
}

} // verus!
