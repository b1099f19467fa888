//! The shoelace area of a vertex ring, in exact arithmetic.
//!
//! Twice the signed area is the sum, over the edges `(i, i + 1 mod n)`, of
//! `x_i * y_(i+1) - x_(i+1) * y_i`; the area is half its magnitude, and zero
//! below three vertices.
use vstd::prelude::*;
use crate::ring::{successor, AREA_MIN_VERTICES};

verus! {

/// The cross product of the position vectors of `p` and `q`.
pub open spec fn cross(p: (int, int), q: (int, int)) -> int {
    p.0 * q.1 - q.0 * p.1
}

/// The shoelace term of edge `i` of the ring `vertices`.
pub open spec fn edge_term(vertices: Seq<(int, int)>, i: int) -> int {
    cross(vertices[i], vertices[successor(i, vertices.len() as int)])
}

/// The shoelace terms of all edges, in edge order.
pub open spec fn edge_terms(vertices: Seq<(int, int)>) -> Seq<int> {
    Seq::new(vertices.len(), |i: int| edge_term(vertices, i))
}

/// The sum of a sequence of integers.
pub open spec fn sum(s: Seq<int>) -> int
    decreases s.len(),
{
    if s.len() == 0 {
        0
    } else {
        sum(s.drop_last()) + s.last()
    }
}

/// Twice the signed area enclosed by `vertices`.
pub open spec fn signed_twice_area(vertices: Seq<(int, int)>) -> int {
    sum(edge_terms(vertices))
}

/// Twice the area of the polygon `vertices`: zero below three vertices, else the magnitude of
/// the shoelace sum.
pub open spec fn twice_area(vertices: Seq<(int, int)>) -> int {
    if vertices.len() < AREA_MIN_VERTICES {
        0
    } else {
        let s = signed_twice_area(vertices);
        if s < 0 {
            -s
        } else {
            s
        }
    }
}

/// The area of a polygon is never negative.
pub proof fn lemma_area_nonnegative(vertices: Seq<(int, int)>)
    ensures
        twice_area(vertices) >= 0,
{
}

/// Listing a polygon's vertices in the opposite winding order negates its signed area and
/// leaves its area unchanged.
pub proof fn lemma_area_reversal(vertices: Seq<(int, int)>)
    ensures
        signed_twice_area(vertices.reverse()) == -signed_twice_area(vertices),
        twice_area(vertices.reverse()) == twice_area(vertices),
{
    let n = vertices.len() as int;
    let rev = vertices.reverse();
    if n == 0 {
        assert(edge_terms(rev) =~= Seq::<int>::empty());
        assert(edge_terms(vertices) =~= Seq::<int>::empty());
    } else {
        let terms = edge_terms(vertices);
        let front = terms.drop_last();
        let expected = negated(front.reverse()).push(-terms.last());
        assert forall|i: int| 0 <= i < n implies #[trigger] edge_terms(rev)[i] == expected[i] by {
            if i + 1 < n {
                vstd::arithmetic::div_mod::lemma_small_mod((i + 1) as nat, n as nat);
                vstd::arithmetic::div_mod::lemma_small_mod((n - 1 - i) as nat, n as nat);
            } else {
                vstd::arithmetic::div_mod::lemma_mod_self_0(n);
            }
        }
        assert(edge_terms(rev) =~= expected);
        lemma_sum_negated(front.reverse());
        lemma_sum_reverse(front);
        assert(terms.drop_last() == front);
        assert(expected.drop_last() =~= negated(front.reverse()));
    }
}

/// Each element of `s` negated.
pub open spec fn negated(s: Seq<int>) -> Seq<int> {
    Seq::new(s.len(), |i: int| -s[i])
}

/// Negating every element negates the sum.
proof fn lemma_sum_negated(s: Seq<int>)
    ensures
        sum(negated(s)) == -sum(s),
    decreases s.len(),
{
    if s.len() > 0 {
        lemma_sum_negated(s.drop_last());
        assert(negated(s).drop_last() =~= negated(s.drop_last()));
    }
}

/// A sum is its first element plus the sum of the rest.
proof fn lemma_sum_first(s: Seq<int>)
    requires
        s.len() > 0,
    ensures
        sum(s) == s[0] + sum(s.subrange(1, s.len() as int)),
    decreases s.len(),
{
    if s.len() > 1 {
        let t = s.drop_last();
        lemma_sum_first(t);
        assert(t.subrange(1, t.len() as int) =~= s.subrange(1, s.len() as int).drop_last());
    } else {
        assert(s.subrange(1, s.len() as int) =~= Seq::<int>::empty());
        assert(s.drop_last() =~= Seq::<int>::empty());
    }
}

/// A sum does not depend on the order of the elements read front to back or back to front.
proof fn lemma_sum_reverse(s: Seq<int>)
    ensures
        sum(s.reverse()) == sum(s),
    decreases s.len(),
{
    if s.len() > 0 {
        let rest = s.subrange(1, s.len() as int);
        lemma_sum_reverse(rest);
        lemma_sum_first(s);
        assert(s.reverse().drop_last() =~= rest.reverse());
        assert(s.reverse().last() == s[0]);
    }
}

} // verus!
