//! The edit distance as a mathematical function on sequences, and the laws
//! that make it a metric.
use vstd::prelude::*;

verus! {

/// The smallest of three naturals.
pub open spec fn min3(x: nat, y: nat, z: nat) -> nat {
    if x <= y && x <= z {
        x
    } else if y <= z {
        y
    } else {
        z
    }
}

/// The cost of matching `x` against `y`: nothing when they are equal, one
/// substitution otherwise.
pub open spec fn subst_cost<T>(x: T, y: T) -> nat {
    if x == y {
        0
    } else {
        1
    }
}

/// The Levenshtein distance between `a` and `b`: the least number of
/// single-element insertions, deletions and substitutions that turn `a` into
/// `b`, by the recurrence on the last elements of both.
pub open spec fn lev<T>(a: Seq<T>, b: Seq<T>) -> nat
    decreases a.len() + b.len(),
{
    if a.len() == 0 {
        b.len()
    } else if b.len() == 0 {
        a.len()
    } else {
        min3(
            lev(a.drop_last(), b) + 1,
            lev(a, b.drop_last()) + 1,
            lev(a.drop_last(), b.drop_last()) + subst_cost(a.last(), b.last()),
        )
    }
}

/// The distance between two nonempty sequences is at most each of the three
/// costs of its recurrence.
pub proof fn lemma_lev_step<T>(a: Seq<T>, b: Seq<T>)
    requires
        a.len() > 0,
        b.len() > 0,
    ensures
        lev(a, b) <= lev(a.drop_last(), b) + 1,
        lev(a, b) <= lev(a, b.drop_last()) + 1,
        lev(a, b) <= lev(a.drop_last(), b.drop_last()) + subst_cost(a.last(), b.last()),
        lev(a, b) == lev(a.drop_last(), b) + 1 || lev(a, b) == lev(a, b.drop_last()) + 1
            || lev(a, b) == lev(a.drop_last(), b.drop_last()) + subst_cost(a.last(), b.last()),
{
}

/// The distance is at least the difference of the lengths and at most the
/// larger length.
pub proof fn lemma_distance_bounds<T>(a: Seq<T>, b: Seq<T>)
    ensures
        lev(a, b) >= a.len() - b.len(),
        lev(a, b) >= b.len() - a.len(),
        lev(a, b) <= if a.len() >= b.len() { a.len() } else { b.len() },
    decreases a.len() + b.len(),
{
    if a.len() > 0 && b.len() > 0 {
        lemma_distance_bounds(a.drop_last(), b);
        lemma_distance_bounds(a, b.drop_last());
        lemma_distance_bounds(a.drop_last(), b.drop_last());
        lemma_lev_step(a, b);
    }
}

/// A sequence is at distance zero from itself.
pub proof fn lemma_distance_to_itself<T>(s: Seq<T>)
    ensures
        lev(s, s) == 0,
    decreases s.len(),
{
    if s.len() > 0 {
        lemma_distance_to_itself(s.drop_last());
        lemma_lev_step(s, s);
    }
}

/// The distance from the empty sequence to `s`, and from `s` to the empty
/// sequence, is the length of `s`.
pub proof fn lemma_distance_from_empty<T>(s: Seq<T>)
    ensures
        lev(Seq::<T>::empty(), s) == s.len(),
        lev(s, Seq::<T>::empty()) == s.len(),
{
}

/// The distance does not depend on the order of its operands.
pub proof fn lemma_distance_symmetric<T>(a: Seq<T>, b: Seq<T>)
    ensures
        lev(a, b) == lev(b, a),
    decreases a.len() + b.len(),
{
    if a.len() > 0 && b.len() > 0 {
        lemma_distance_symmetric(a.drop_last(), b);
        lemma_distance_symmetric(a, b.drop_last());
        lemma_distance_symmetric(a.drop_last(), b.drop_last());
        lemma_lev_step(a, b);
        lemma_lev_step(b, a);
    }
}

/// The distance is zero exactly when the two sequences are equal.
pub proof fn lemma_distance_zero_iff_equal<T>(a: Seq<T>, b: Seq<T>)
    ensures
        lev(a, b) == 0 <==> a == b,
    decreases a.len() + b.len(),
{
    if a == b {
        lemma_distance_to_itself(a);
    } else if lev(a, b) == 0 {
        lemma_distance_bounds(a, b);
        if a.len() > 0 {
            lemma_lev_step(a, b);
            lemma_distance_zero_iff_equal(a.drop_last(), b.drop_last());
            assert(a =~= a.drop_last().push(a.last()));
            assert(b =~= b.drop_last().push(b.last()));
        } else {
            assert(a =~= b);
        }
    }
}

/// The triangle inequality: going from `a` to `c` costs no more than going
/// from `a` to `b` and then from `b` to `c`.
pub proof fn lemma_triangle_inequality<T>(a: Seq<T>, b: Seq<T>, c: Seq<T>)
    ensures
        lev(a, c) <= lev(a, b) + lev(b, c),
    decreases a.len() + b.len() + c.len(),
{
    if a.len() == 0 {
        lemma_distance_bounds(b, c);
    } else if c.len() == 0 {
        lemma_distance_bounds(a, b);
    } else if b.len() == 0 {
        lemma_distance_bounds(a, c);
    } else {
        let (a1, b1, c1) = (a.drop_last(), b.drop_last(), c.drop_last());
        lemma_lev_step(a, c);
        lemma_lev_step(a, b);
        lemma_lev_step(b, c);
        lemma_triangle_inequality(a1, b, c);
        lemma_triangle_inequality(a, b, c1);
        lemma_triangle_inequality(a, b1, c);
        lemma_triangle_inequality(a, b1, c1);
        lemma_triangle_inequality(a1, b1, c);
        lemma_triangle_inequality(a1, b1, c1);
    }
}

} // verus!
