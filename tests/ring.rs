use geometry2d::ring::{area_edges, next_vertex, perimeter_edges, ring_edges, Edge};

fn pairs(edges: &[Edge]) -> Vec<(usize, usize)> {
    edges.iter().map(|e| (e.from, e.to)).collect()
}

#[test]
fn next_vertex_steps_forward() {
    assert_eq!(next_vertex(0, 4), 1);
    assert_eq!(next_vertex(2, 4), 3);
}

#[test]
fn next_vertex_wraps_to_first() {
    assert_eq!(next_vertex(3, 4), 0);
    assert_eq!(next_vertex(0, 1), 0);
}

#[test]
fn ring_edges_of_four_vertices_close_the_ring() {
    assert_eq!(pairs(&ring_edges(4)), vec![(0, 1), (1, 2), (2, 3), (3, 0)]);
}

#[test]
fn ring_edges_of_no_vertices_is_empty() {
    assert!(ring_edges(0).is_empty());
}

#[test]
fn area_edges_need_three_vertices() {
    assert!(area_edges(0).is_empty());
    assert!(area_edges(1).is_empty());
    assert!(area_edges(2).is_empty());
    assert_eq!(pairs(&area_edges(3)), vec![(0, 1), (1, 2), (2, 0)]);
}

#[test]
fn perimeter_edges_need_two_vertices() {
    assert!(perimeter_edges(0).is_empty());
    assert!(perimeter_edges(1).is_empty());
    assert_eq!(pairs(&perimeter_edges(2)), vec![(0, 1), (1, 0)]);
}

#[test]
fn reversed_ring_edges_pair_with_given_edges() {
    let n = 5;
    let edges = ring_edges(n);
    let mut partners = Vec::new();
    for e in &edges {
        let j = n - 1 - e.to;
        assert_eq!(edges[j].from, n - 1 - e.to);
        assert_eq!(edges[j].to, n - 1 - e.from);
        partners.push(j);
    }
    partners.sort();
    assert_eq!(partners, vec![0, 1, 2, 3, 4]);
}

#[test]
fn shoelace_over_area_edges_of_square() {
    let v = [(0.0, 0.0), (2.0, 0.0), (2.0, 2.0), (0.0, 2.0)];
    let mut sum: f64 = 0.0;
    for e in area_edges(v.len()) {
        sum += v[e.from].0 * v[e.to].1 - v[e.to].0 * v[e.from].1;
    }
    assert_eq!(sum.abs() / 2.0, 4.0);
}

#[test]
fn lengths_over_perimeter_edges_of_unit_square() {
    let v: [(f64, f64); 4] = [(0.0, 0.0), (1.0, 0.0), (1.0, 1.0), (0.0, 1.0)];
    let mut total: f64 = 0.0;
    for e in perimeter_edges(v.len()) {
        let dx = v[e.to].0 - v[e.from].0;
        let dy = v[e.to].1 - v[e.from].1;
        total += (dx * dx + dy * dy).sqrt();
    }
    assert_eq!(total, 4.0);
}
