//! The edge structure of a closed vertex ring.
//!
//! A polygon's vertices are joined consecutively, and the last one back to the
//! first. The metrics walk these edges: the shoelace area from three vertices
//! on, the perimeter from two on.
use vstd::prelude::*;

verus! {

/// Fewest vertices for which the shoelace area is computed; below this the area is zero.
pub const AREA_MIN_VERTICES: usize = 3;

/// Fewest vertices for which edge lengths are summed; below this the perimeter is zero.
pub const PERIMETER_MIN_VERTICES: usize = 2;

/// An edge of a ring: from the vertex at index `from` to the vertex at index `to`.
#[derive(Clone, Copy, Debug, PartialEq, Eq, Structural)]
pub struct Edge {
    pub from: usize,
    pub to: usize,
}

/// Index of the vertex after vertex `i` in a ring of `n` vertices.
pub open spec fn successor(i: int, n: int) -> int {
    (i + 1) % n
}

/// `edges` holds the `n` edges of a ring of `n` vertices, edge `i` leaving vertex `i`.
pub open spec fn is_ring(edges: Seq<Edge>, n: nat) -> bool {
    &&& edges.len() == n
    &&& forall|i: int|
        0 <= i < n ==> #[trigger] edges[i].from == i && edges[i].to == successor(i, n as int)
}

/// The index of the vertex that follows vertex `i`; the last vertex is followed by the first.
pub fn next_vertex(i: usize, n: usize) -> (r: usize)
    requires
        i < n,
    ensures
        r == successor(i as int, n as int),
        r < n,
{
    proof {
        if i + 1 == n {
            vstd::arithmetic::div_mod::lemma_mod_self_0(n as int);
        } else {
            vstd::arithmetic::div_mod::lemma_small_mod((i + 1) as nat, n as nat);
        }
    }
    if i + 1 == n {
        0
    } else {
        i + 1
    }
}

/// All edges of a ring of `n` vertices, in vertex order, the closing edge last.
pub fn ring_edges(n: usize) -> (r: Vec<Edge>)
    ensures
        is_ring(r@, n as nat),
{
    let mut edges: Vec<Edge> = Vec::new();
    let mut i: usize = 0;
    while i < n
        invariant
            i <= n,
            edges@.len() == i,
            forall|k: int|
                0 <= k < i ==> #[trigger] edges@[k].from == k && edges@[k].to == successor(
                    k,
                    n as int,
                ),
        decreases n - i,
    {
        let to = next_vertex(i, n);
        edges.push(Edge { from: i, to });
        i = i + 1;
    }
    edges
}

/// The edges over which the shoelace sum runs: none below three vertices, else the whole ring.
pub fn area_edges(n: usize) -> (r: Vec<Edge>)
    ensures
        n < AREA_MIN_VERTICES ==> r@.len() == 0,
        n >= AREA_MIN_VERTICES ==> is_ring(r@, n as nat),
{
    if n < AREA_MIN_VERTICES {
        Vec::new()
    } else {
        ring_edges(n)
    }
}

/// The edges whose lengths make up the perimeter: none below two vertices, else the whole
/// ring, closing edge included.
pub fn perimeter_edges(n: usize) -> (r: Vec<Edge>)
    ensures
        n < PERIMETER_MIN_VERTICES ==> r@.len() == 0,
        n >= PERIMETER_MIN_VERTICES ==> is_ring(r@, n as nat),
{
    if n < PERIMETER_MIN_VERTICES {
        Vec::new()
    } else {
        ring_edges(n)
    }
}

/// Index in the given order of the vertex found at index `i` once the `n` vertices of a
/// ring are listed in reverse.
pub open spec fn mirror(i: int, n: int) -> int {
    n - 1 - i
}

/// Reversing the vertex order of a ring reverses each of its edges: edge `i` of the reversed
/// ring joins, in the opposite direction, the two vertices of edge `mirror(edges[i].to, n)`
/// of the ring in its given order, and distinct edges are matched with distinct edges.
pub proof fn lemma_reversed_ring_edges(edges: Seq<Edge>, n: nat)
    requires
        is_ring(edges, n),
    ensures
        forall|i: int|
            0 <= i < n ==> {
                let j = mirror(#[trigger] edges[i].to as int, n as int);
                &&& 0 <= j < n
                &&& edges[j].from == mirror(edges[i].to as int, n as int)
                &&& edges[j].to == mirror(edges[i].from as int, n as int)
            },
        forall|i: int, k: int|
            0 <= i < n && 0 <= k < n && i != k ==> #[trigger] edges[i].to != #[trigger] edges[k].to,
{
    assert forall|i: int| 0 <= i < n implies {
        let j = mirror(#[trigger] edges[i].to as int, n as int);
        &&& 0 <= j < n
        &&& edges[j].from == mirror(edges[i].to as int, n as int)
        &&& edges[j].to == mirror(edges[i].from as int, n as int)
    } by {
        assert(edges[i].from == i);
        lemma_successor_cases(i, n as int);
        let j = mirror(edges[i].to as int, n as int);
        lemma_successor_cases(j, n as int);
        assert(edges[j].from == j);
    }
    assert forall|i: int, k: int|
        0 <= i < n && 0 <= k < n && i != k implies #[trigger] edges[i].to
        != #[trigger] edges[k].to by {
        assert(edges[i].from == i && edges[k].from == k);
        lemma_successor_cases(i, n as int);
        lemma_successor_cases(k, n as int);
    }
}

/// The successor of a vertex is the next index, or the first vertex after the last.
proof fn lemma_successor_cases(i: int, n: int)
    requires
        0 <= i < n,
    ensures
        i + 1 < n ==> successor(i, n) == i + 1,
        i + 1 == n ==> successor(i, n) == 0,
{
    if i + 1 == n {
        vstd::arithmetic::div_mod::lemma_mod_self_0(n);
    } else {
        vstd::arithmetic::div_mod::lemma_small_mod((i + 1) as nat, n as nat);
    }
}

} // verus!
