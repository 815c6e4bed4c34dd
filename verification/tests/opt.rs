use nannou::stream::frame::opt::{
    checked_euler_graph_to_euler_circuit, checked_point_graph_to_euler_graph,
    euler_graph_to_euler_circuit, point_graph_to_euler_graph,
    points_to_segments,
    segments_to_point_graph, EulerCircuit, EulerCircuitWalk, EulerGraph, HashPoint, Point,
    PointGraph, PositionId, Segment, SegmentKind,
};
use petgraph::visit::EdgeRef;
use std::collections::HashSet;

fn opt_point(position: [f32; 2], color: [f32; 3], weight: u32, index: usize) -> Point {
    let [px, py] = position;
    let [pr, pg, pb] = color;
    let hash = HashPoint {
        x: (px * i16::MAX as f32) as i32,
        y: (py * i16::MAX as f32) as i32,
        r: (pr * u16::MAX as f32) as u32,
        g: (pg * u16::MAX as f32) as u32,
        b: (pb * u16::MAX as f32) as u32,
    };
    Point {
        position: PositionId { x: px.to_bits(), y: py.to_bits() },
        hash,
        blank: pr == 0.0 && pg == 0.0 && pb == 0.0,
        weight,
        index,
    }
}

fn white_pt(position: [f32; 2], index: usize) -> Point {
    opt_point(position, [1.0; 3], 0, index)
}

fn blank_pt(position: [f32; 2], index: usize) -> Point {
    opt_point(position, [0.0; 3], 0, index)
}

fn square_pts() -> [Point; 5] {
    let a = white_pt([-1.0, -1.0], 0);
    let b = white_pt([-1.0, 1.0], 1);
    let c = white_pt([1.0, 1.0], 2);
    let d = white_pt([1.0, -1.0], 3);
    [a, b, c, d, a]
}

fn two_vertical_lines_pts() -> [Point; 8] {
    let a = [-1.0, -1.0];
    let b = [-1.0, 1.0];
    let c = [1.0, -1.0];
    let d = [1.0, 1.0];
    [
        white_pt(a, 0),
        white_pt(b, 1),
        blank_pt(b, 2),
        blank_pt(c, 3),
        white_pt(c, 4),
        white_pt(d, 5),
        blank_pt(d, 6),
        blank_pt(a, 7),
    ]
}

fn segments(pts: &[Point]) -> Vec<Segment> {
    let mut segs = points_to_segments(pts.to_vec());
    let mut out = Vec::new();
    while let Some(s) = segs.next() {
        out.push(s);
    }
    out
}

fn graph_eq<N, E, Ty, Ix>(a: &petgraph::Graph<N, E, Ty, Ix>, b: &petgraph::Graph<N, E, Ty, Ix>) -> bool
where
    N: PartialEq,
    E: PartialEq,
    Ty: petgraph::EdgeType,
    Ix: petgraph::graph::IndexType + PartialEq,
{
    let a_ns = a.raw_nodes().iter().map(|n| &n.weight);
    let b_ns = b.raw_nodes().iter().map(|n| &n.weight);
    let a_es = a.raw_edges().iter().map(|e| (e.source(), e.target(), &e.weight));
    let b_es = b.raw_edges().iter().map(|e| (e.source(), e.target(), &e.weight));
    a_ns.eq(b_ns) && a_es.eq(b_es)
}

fn is_euler_graph<N, E, Ty, Ix>(g: &petgraph::Graph<N, E, Ty, Ix>) -> bool
where
    Ty: petgraph::EdgeType,
    Ix: petgraph::graph::IndexType,
{
    let even_degree = g.node_indices().all(|n| g.edges(n).count() % 2 == 0);
    let strongly_connected = petgraph::algo::kosaraju_scc(g).len() == 1;
    even_degree && strongly_connected
}

fn position(p: &Point) -> [f32; 2] {
    [f32::from_bits(p.position.x), f32::from_bits(p.position.y)]
}

// The variance from a straight angle of the turn a -> b -> c, in radians.
fn straight_angle_variance([ax, ay]: [f32; 2], [bx, by]: [f32; 2], [cx, cy]: [f32; 2]) -> f32 {
    let [ux, uy] = [bx - ax, by - ay];
    let [vx, vy] = [cx - bx, cy - by];
    let ur = uy.atan2(ux);
    let vr = vy.atan2(vx);
    let rad = (vr - ur).abs();
    if rad > std::f32::consts::PI {
        -rad + std::f32::consts::PI * 2.0
    } else {
        rad
    }
}

fn circuit(eg: &EulerGraph) -> EulerCircuit {
    let positions: Vec<[f32; 2]> = eg.raw_nodes().iter().map(|n| position(&n.weight)).collect();
    let cost = |a: usize, b: usize, c: usize| {
        straight_angle_variance(positions[a], positions[b], positions[c]).to_bits()
    };
    euler_graph_to_euler_circuit(eg, &cost)
}

#[test]
fn test_points_to_point_graph_no_blanks() {
    let pts = square_pts();
    let pg = segments_to_point_graph(segments(&pts));

    let mut expected = PointGraph::default();
    let na = expected.add_node(pts[0]);
    let nb = expected.add_node(pts[1]);
    let nc = expected.add_node(pts[2]);
    let nd = expected.add_node(pts[3]);
    expected.add_edge(na, nb, ());
    expected.add_edge(nb, nc, ());
    expected.add_edge(nc, nd, ());
    expected.add_edge(nd, na, ());

    assert!(graph_eq(&pg, &expected));
}

#[test]
fn test_points_to_point_graph_with_blanks() {
    let pts = two_vertical_lines_pts();
    let pg = segments_to_point_graph(segments(&pts));

    let mut expected = PointGraph::default();
    let na = expected.add_node(pts[0]);
    let nb = expected.add_node(pts[1]);
    let nc = expected.add_node(pts[4]);
    let nd = expected.add_node(pts[5]);
    expected.add_edge(na, nb, ());
    expected.add_edge(nc, nd, ());

    assert!(graph_eq(&pg, &expected));
}

#[test]
fn test_point_graph_to_euler_graph_no_blanks() {
    let pts = square_pts();
    let pg = segments_to_point_graph(segments(&pts));
    let eg = point_graph_to_euler_graph(&pg);

    let mut expected = EulerGraph::default();
    let na = expected.add_node(pts[0]);
    let nb = expected.add_node(pts[1]);
    let nc = expected.add_node(pts[2]);
    let nd = expected.add_node(pts[3]);
    expected.add_edge(na, nb, SegmentKind::Lit);
    expected.add_edge(nb, nc, SegmentKind::Lit);
    expected.add_edge(nc, nd, SegmentKind::Lit);
    expected.add_edge(nd, na, SegmentKind::Lit);

    assert!(graph_eq(&eg, &expected));
}

#[test]
fn test_point_graph_to_euler_graph_with_blanks() {
    let pts = two_vertical_lines_pts();
    let pg = segments_to_point_graph(segments(&pts));
    let eg = point_graph_to_euler_graph(&pg);

    assert!(is_euler_graph(&eg));

    let pg_ns: Vec<_> = pg.raw_nodes().iter().map(|n| n.weight).collect();
    let eg_ns: Vec<_> = eg.raw_nodes().iter().map(|n| n.weight).collect();
    assert_eq!(pg_ns, eg_ns);

    assert_eq!(eg.raw_edges().iter().filter(|e| e.weight == SegmentKind::Blank).count(), 2);
    assert_eq!(eg.raw_edges().iter().filter(|e| e.weight == SegmentKind::Lit).count(), 2);
}

#[test]
fn test_euler_graph_to_euler_circuit_no_blanks() {
    let pts = square_pts();
    let pg = segments_to_point_graph(segments(&pts));
    let eg = point_graph_to_euler_graph(&pg);
    let ec = circuit(&eg);

    let mut expected = EulerCircuit::new();
    let na = expected.add_node(pts[0]);
    let nb = expected.add_node(pts[1]);
    let nc = expected.add_node(pts[2]);
    let nd = expected.add_node(pts[3]);
    expected.add_edge(na, nb, SegmentKind::Lit);
    expected.add_edge(nb, nc, SegmentKind::Lit);
    expected.add_edge(nc, nd, SegmentKind::Lit);
    expected.add_edge(nd, na, SegmentKind::Lit);

    assert!(graph_eq(&ec, &expected));
}

#[test]
fn test_euler_graph_to_euler_circuit_with_blanks() {
    let pts = two_vertical_lines_pts();
    let pg = segments_to_point_graph(segments(&pts));
    let eg = point_graph_to_euler_graph(&pg);
    let ec = circuit(&eg);

    let pg_ns: Vec<_> = pg.raw_nodes().iter().map(|n| n.weight).collect();
    let ec_ns: Vec<_> = ec.raw_nodes().iter().map(|n| n.weight).collect();
    assert_eq!(pg_ns, ec_ns);

    assert_eq!(ec.raw_edges().iter().filter(|e| e.weight == SegmentKind::Blank).count(), 2);
    assert_eq!(ec.raw_edges().iter().filter(|e| e.weight == SegmentKind::Lit).count(), 2);

    let mut visited = HashSet::new();
    let mut walk = EulerCircuitWalk::new(ec.node_indices().next().unwrap().index());
    while visited.len() < 4 {
        let e = walk.next(&ec);
        assert!(visited.insert(e));
    }
}

fn bowtie() -> EulerGraph {
    let mut eg = EulerGraph::default();
    let ns: Vec<_> = (0..5).map(|i| eg.add_node(white_pt([i as f32 * 0.1, 0.0], i))).collect();
    for &(a, b) in &[(0, 1), (1, 2), (2, 0), (2, 3), (3, 4), (4, 2)] {
        eg.add_edge(ns[a], ns[b], SegmentKind::Lit);
    }
    eg
}

fn circuit_edges(ec: &EulerCircuit) -> Vec<(usize, usize)> {
    ec.raw_edges().iter().map(|e| (e.source().index(), e.target().index())).collect()
}

#[test]
fn circuit_takes_the_cheapest_turn() {
    let eg = bowtie();
    let near = |a: usize, _b: usize, c: usize| (c as i64 - a as i64).unsigned_abs() as u32;
    let ec = euler_graph_to_euler_circuit(&eg, &near);
    assert_eq!(circuit_edges(&ec), vec![(0, 1), (1, 2), (2, 3), (3, 4), (4, 2), (2, 0)]);

    let far = |a: usize, _b: usize, c: usize| 10 - (c as i64 - a as i64).unsigned_abs() as u32;
    let ec = euler_graph_to_euler_circuit(&eg, &far);
    assert_eq!(circuit_edges(&ec), vec![(0, 1), (1, 2), (2, 4), (4, 3), (3, 2), (2, 0)]);
}

#[test]
fn walk_try_next_stops_where_no_edge_leaves() {
    let mut ec = EulerCircuit::new();
    let a = ec.add_node(white_pt([0.0, 0.0], 0));
    let b = ec.add_node(white_pt([1.0, 0.0], 1));
    ec.add_edge(a, b, SegmentKind::Lit);
    let mut walk = EulerCircuitWalk::new(a.index());
    assert_eq!(walk.try_next(&ec), Some(0));
    assert_eq!(walk.current_node, b.index());
    assert_eq!(walk.try_next(&ec), None);
    assert_eq!(walk.current_node, b.index());
    let mut lost = EulerCircuitWalk::new(7);
    assert_eq!(lost.try_next(&ec), None);
    assert_eq!(lost.current_node, 7);
}

#[test]
fn checked_euler_graph_refuses_odd_components() {
    let mut pg = PointGraph::default();
    let a = pg.add_node(white_pt([0.0, 0.0], 0));
    pg.add_edge(a, a, ());
    assert!(checked_point_graph_to_euler_graph(&pg).is_none());
    pg.add_edge(a, a, ());
    let eg = checked_point_graph_to_euler_graph(&pg).unwrap();
    assert_eq!(eg.edge_count(), 2);
    assert!(eg.raw_edges().iter().all(|e| e.weight == SegmentKind::Lit));

    let pts = two_vertical_lines_pts();
    let pg = segments_to_point_graph(segments(&pts));
    let checked = checked_point_graph_to_euler_graph(&pg).unwrap();
    let plain = point_graph_to_euler_graph(&pg);
    let ends = |g: &EulerGraph| -> Vec<(usize, usize, SegmentKind)> {
        g.raw_edges().iter().map(|e| (e.source().index(), e.target().index(), e.weight)).collect()
    };
    assert_eq!(ends(&checked), ends(&plain));
}

#[test]
fn blanks_join_each_component_to_the_next() {
    let pts = two_vertical_lines_pts();
    let pg = segments_to_point_graph(segments(&pts));
    let eg = point_graph_to_euler_graph(&pg);
    let lit: Vec<(usize, usize)> = eg
        .raw_edges()
        .iter()
        .filter(|e| e.weight == SegmentKind::Lit)
        .map(|e| (e.source().index(), e.target().index()))
        .collect();
    let joined_by_lit =
        |a: usize, b: usize| lit.iter().any(|&(x, y)| (x, y) == (a, b) || (x, y) == (b, a));
    let blanks: Vec<(usize, usize)> = eg
        .raw_edges()
        .iter()
        .filter(|e| e.weight == SegmentKind::Blank)
        .map(|e| (e.source().index(), e.target().index()))
        .collect();
    assert_eq!(blanks.len(), 2);
    for &(a, b) in &blanks {
        assert_ne!(a, b);
        assert!(!joined_by_lit(a, b));
    }
    let mut touched: Vec<usize> = blanks.iter().flat_map(|&(a, b)| vec![a, b]).collect();
    touched.sort();
    touched.dedup();
    assert_eq!(touched.len(), 4);
}

#[test]
fn checked_circuit_refuses_odd_degrees() {
    let eg = bowtie();
    let near = |a: usize, _b: usize, c: usize| (c as i64 - a as i64).unsigned_abs() as u32;
    let checked = checked_euler_graph_to_euler_circuit(&eg, &near).unwrap();
    let plain = euler_graph_to_euler_circuit(&eg, &near);
    assert_eq!(circuit_edges(&checked), circuit_edges(&plain));

    let mut odd = EulerGraph::default();
    let a = odd.add_node(white_pt([0.0, 0.0], 0));
    let b = odd.add_node(white_pt([1.0, 0.0], 1));
    odd.add_edge(a, b, SegmentKind::Lit);
    assert!(checked_euler_graph_to_euler_circuit(&odd, &near).is_none());

    let mut lonely = EulerGraph::default();
    lonely.add_node(white_pt([0.0, 0.0], 0));
    let b = lonely.add_node(white_pt([1.0, 0.0], 1));
    let c = lonely.add_node(white_pt([2.0, 0.0], 2));
    lonely.add_edge(b, c, SegmentKind::Lit);
    lonely.add_edge(c, b, SegmentKind::Lit);
    assert!(checked_euler_graph_to_euler_circuit(&lonely, &near).is_none());
}
