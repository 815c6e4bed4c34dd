//! A series of optimisation passes for laser frames.
//!
//! The passes turn a frame of points into a graph of lit segments, add the fewest blank
//! segments needed for the graph to hold an Euler circuit, and then walk that circuit.
//!
//! Points are represented here by the values that the passes read of them: an exact identity
//! of the position, the quantised position and colour under which points are merged, whether
//! the point is blank, its weight, and its place in the caller's buffer.
use vstd::prelude::*;
use petgraph::graph::{Graph, NodeIndex};
use petgraph::visit::EdgeRef;
use petgraph::{Directed, Undirected};

verus! {

/// Describes whether a line segment between two points is blank or not.
#[derive(Copy, Clone, Debug, PartialEq, Eq, Structural)]
pub enum SegmentKind {
    Blank,
    Lit,
}

/// The position and colour of a point quantised to integers.
///
/// Points sharing a `HashPoint` become a single node of the point graph.
#[derive(Copy, Clone, Debug, PartialEq, Eq, Structural)]
pub struct HashPoint {
    pub x: i32,
    pub y: i32,
    pub r: u32,
    pub g: u32,
    pub b: u32,
}

/// An exact identity of a point's position, such as the bit patterns of its coordinates.
#[derive(Copy, Clone, Debug, PartialEq, Eq, Structural)]
pub struct PositionId {
    pub x: u32,
    pub y: u32,
}

/// The values that the optimisation passes read of a laser point.
#[derive(Copy, Clone, Debug, PartialEq, Eq, Structural)]
pub struct Point {
    /// An exact identity of the position: two points share a position iff these are equal.
    pub position: PositionId,
    /// The quantised position and colour used to merge points into graph nodes.
    pub hash: HashPoint,
    /// Whether the point is blank (black).
    pub blank: bool,
    /// The number of times the point is repeated when drawn.
    pub weight: u32,
    /// The index of the point within the caller's own point buffer.
    pub index: usize,
}

/// Represents a line segment over which the laser scanner will travel.
#[derive(Copy, Clone, Debug, PartialEq, Eq, Structural)]
pub struct Segment {
    pub start: Point,
    pub end: Point,
    pub kind: SegmentKind,
}

/// For the blank ab: `[a, a.blanked(), b.blanked(), (0..delay).map(|_| b.blanked())]`.
pub const BLANK_MIN_POINTS: u32 = 3;

/// The number of points used per blank segment given the `blank_delay_points` from a config.
pub fn blank_segment_point_count(a_weight: u32, blank_delay_points: u32) -> (r: u32)
    requires
        a_weight + BLANK_MIN_POINTS + blank_delay_points <= u32::MAX,
    ensures
        r == a_weight + BLANK_MIN_POINTS + blank_delay_points,
{
    a_weight + BLANK_MIN_POINTS + blank_delay_points
}

// ---------------------------------------------------------------------------------------------
// Segments

/// The kind of the segment joining `start` to `end`.
pub open spec fn spec_segment_kind(start: Point, end: Point) -> SegmentKind {
    if start.blank && end.blank {
        SegmentKind::Blank
    } else {
        SegmentKind::Lit
    }
}

/// The segments yielded for the first `n` points: one for each pair of consecutive points
/// whose positions differ.
pub open spec fn spec_segments(points: Seq<Point>, n: int) -> Seq<Segment>
    decreases n,
{
    if n < 2 || n > points.len() {
        Seq::empty()
    } else {
        let prev = spec_segments(points, n - 1);
        let a = points[n - 2];
        let b = points[n - 1];
        if a.position == b.position {
            prev
        } else {
            prev.push(Segment { start: a, end: b, kind: spec_segment_kind(a, b) })
        }
    }
}

/// Every segment joins two consecutive points at distinct positions, and it is blank exactly when
/// both of its end points are blank: a segment with a lit end is lit.
pub proof fn lemma_segments_blank_iff_both_ends_blank(points: Seq<Point>, n: int)
    ensures
        forall|i: int|
            0 <= i < spec_segments(points, n).len() ==> ((#[trigger] spec_segments(points, n)[i]).kind
                == SegmentKind::Blank <==> spec_segments(points, n)[i].start.blank && spec_segments(
                points,
                n,
            )[i].end.blank) && spec_segments(points, n)[i].start.position != spec_segments(points, n)[i].end.position,
    decreases n,
{
    if 2 <= n <= points.len() {
        lemma_segments_blank_iff_both_ends_blank(points, n - 1);
    }
}

/// An iterator yielding all line segments between consecutive points with distinct positions.
pub struct Segments {
    points: Vec<Point>,
    /// The number of points consumed so far; the last of them is the start of the next segment.
    next_index: usize,
}

impl Segments {
    /// The points the iterator walks over.
    pub closed spec fn points(self) -> Seq<Point> {
        self.points@
    }

    /// The number of points consumed so far.
    pub closed spec fn consumed(self) -> int {
        self.next_index as int
    }

    /// No more points are consumed than there are.
    #[verifier::type_invariant]
    closed spec fn wf(self) -> bool {
        self.next_index <= self.points.len()
    }

    /// The segments already yielded.
    pub open spec fn yielded(self) -> Seq<Segment> {
        spec_segments(self.points(), self.consumed())
    }

    /// The next line segment.
    ///
    /// Yields the segments of `spec_segments` one at a time and `None` once all points have
    /// been consumed.
    pub fn next(&mut self) -> (r: Option<Segment>)
        ensures
            final(self).points() == old(self).points(),
            final(self).consumed() <= final(self).points().len(),
            old(self).consumed() <= final(self).consumed(),
            final(self).yielded() == old(self).yielded() + match r {
                Some(s) => seq![s],
                None => Seq::empty(),
            },
            r is None ==> final(self).consumed() == final(self).points().len(),
            r matches Some(seg) ==> (seg.kind == SegmentKind::Blank <==> seg.start.blank
                && seg.end.blank) && seg.start.position != seg.end.position,
    {
        proof {
            use_type_invariant(&*self);
        }
        while self.next_index < self.points.len()
            invariant
                self.next_index <= self.points.len(),
                self.points@ == old(self).points@,
                old(self).next_index <= self.next_index,
                self.yielded() == old(self).yielded(),
            decreases self.points.len() - self.next_index,
        {
            let end = self.points[self.next_index];
            let prev = if self.next_index == 0 {
                None
            } else {
                Some(self.points[self.next_index - 1])
            };
            self.next_index = self.next_index + 1;
            match prev {
                None => {},
                Some(start) => {
                    if start.position == end.position {
                    } else {
                        let kind = if start.blank && end.blank {
                            SegmentKind::Blank
                        } else {
                            SegmentKind::Lit
                        };
                        return Some(Segment { start, end, kind });
                    }
                },
            }
        }
        None
    }
}

/// Create an iterator yielding segments from a sequence of points.
pub fn points_to_segments(points: Vec<Point>) -> (r: Segments)
    ensures
        r.points() == points@,
        r.consumed() == 0,
{
    Segments { points, next_index: 0 }
}

// ---------------------------------------------------------------------------------------------
// Outside collections

#[verifier::external_type_specification]
#[verifier::external_body]
#[verifier::reject_recursive_types(N)]
#[verifier::reject_recursive_types(E)]
#[verifier::reject_recursive_types(Ty)]
#[verifier::reject_recursive_types(Ix)]
pub struct ExGraph<N, E, Ty, Ix>(Graph<N, E, Ty, Ix>);

#[verifier::external_type_specification]
#[verifier::external_body]
pub struct ExUndirected(Undirected);

#[verifier::external_type_specification]
#[verifier::external_body]
pub struct ExDirected(Directed);

/// A type used to represent graph describing the points in a frame and how they are joined.
///
/// Only lit edges are represented in this representation.
pub type PointGraph = Graph<Point, (), Undirected, u32>;

/// The node weights of a point graph, in index order.
pub uninterp spec fn point_graph_nodes(g: PointGraph) -> Seq<Point>;

/// The endpoints of the edges of a point graph, in index order.
pub uninterp spec fn point_graph_edges(g: PointGraph) -> Seq<(usize, usize)>;

/// The map key of a quantised point: its position and colour channels.
pub type PointKey = (i32, i32, u32, u32, u32);

/// The value stored per quantised point: its node index and the largest weight seen.
pub type PointEntry = (usize, u32);

/// A hashbrown map from quantised points to their node index and largest weight seen.
#[verifier::external_body]
pub struct PointIds {
    map: hashbrown::HashMap<PointKey, PointEntry>,
}

/// The entries of a `PointIds` map.
pub uninterp spec fn point_ids_contents(m: PointIds) -> Map<PointKey, PointEntry>;

/// `hashbrown::HashMap::new`: an empty map.
#[verifier::external_body]
fn point_ids_new() -> (m: PointIds)
    ensures
        point_ids_contents(m).dom() == Set::<PointKey>::empty(),
{
    PointIds { map: hashbrown::HashMap::new() }
}

/// `hashbrown::HashMap::get`: the value stored under `k`, if any.
#[verifier::external_body]
fn point_ids_get(m: &PointIds, k: PointKey) -> (r: Option<PointEntry>)
    ensures
        r == (if point_ids_contents(*m).contains_key(k) {
            Some(point_ids_contents(*m)[k])
        } else {
            None
        }),
{
    m.map.get(&k).copied()
}

/// `hashbrown::HashMap::insert`: stores `v` under `k`, replacing any previous value.
#[verifier::external_body]
fn point_ids_insert(m: &mut PointIds, k: PointKey, v: PointEntry)
    ensures
        point_ids_contents(*final(m)) == point_ids_contents(*old(m)).insert(k, v),
{
    m.map.insert(k, v);
}

/// `Graph::default`: a point graph with no nodes and no edges.
#[verifier::external_body]
fn point_graph_new() -> (g: PointGraph)
    ensures
        point_graph_nodes(g) == Seq::<Point>::empty(),
        point_graph_edges(g) == Seq::<(usize, usize)>::empty(),
{
    PointGraph::default()
}

/// `Graph::add_node`: appends a node and returns its index.
///
/// petgraph panics once a `u32` index would reach `u32::MAX`, which `requires` rules out.
#[verifier::external_body]
fn point_graph_add_node(g: &mut PointGraph, p: Point) -> (ix: usize)
    requires
        point_graph_nodes(*old(g)).len() < u32::MAX,
    ensures
        point_graph_nodes(*final(g)) == point_graph_nodes(*old(g)).push(p),
        point_graph_edges(*final(g)) == point_graph_edges(*old(g)),
        ix == point_graph_nodes(*old(g)).len(),
{
    g.add_node(p).index()
}

/// `Graph::add_edge`: appends an edge between two existing nodes.
#[verifier::external_body]
fn point_graph_add_edge(g: &mut PointGraph, a: usize, b: usize)
    requires
        a < point_graph_nodes(*old(g)).len(),
        b < point_graph_nodes(*old(g)).len(),
        point_graph_edges(*old(g)).len() < u32::MAX,
    ensures
        point_graph_nodes(*final(g)) == point_graph_nodes(*old(g)),
        point_graph_edges(*final(g)) == point_graph_edges(*old(g)).push((a, b)),
{
    g.add_edge(NodeIndex::new(a), NodeIndex::new(b), ());
}

// ---------------------------------------------------------------------------------------------
// Point graph

/// The index of the first node carrying the quantised point `h`.
pub open spec fn spec_node_with_hash(nodes: Seq<Point>, h: HashPoint) -> Option<int>
    decreases nodes.len(),
{
    if nodes.len() == 0 {
        None
    } else {
        match spec_node_with_hash(nodes.drop_last(), h) {
            Some(i) => Some(i),
            None => if nodes.last().hash == h {
                Some(nodes.len() - 1)
            } else {
                None
            },
        }
    }
}

/// `nodes` with `p` appended unless a node already carries its quantised point.
pub open spec fn spec_add_point(nodes: Seq<Point>, p: Point) -> Seq<Point> {
    if spec_node_with_hash(nodes, p.hash) is Some {
        nodes
    } else {
        nodes.push(p)
    }
}

/// The node index under which `p` is found in `nodes`.
pub open spec fn spec_point_index(nodes: Seq<Point>, p: Point) -> usize {
    spec_node_with_hash(nodes, p.hash).unwrap() as usize
}

/// The nodes and edges of the point graph built from `segs`: lit segments only, with points
/// merged by their quantised value (the first occurrence becomes the node).
pub open spec fn spec_point_graph(segs: Seq<Segment>) -> (Seq<Point>, Seq<(usize, usize)>)
    decreases segs.len(),
{
    if segs.len() == 0 {
        (Seq::empty(), Seq::empty())
    } else {
        let (nodes, edges) = spec_point_graph(segs.drop_last());
        let s = segs.last();
        match s.kind {
            SegmentKind::Blank => (nodes, edges),
            SegmentKind::Lit => {
                let n1 = spec_add_point(nodes, s.start);
                let n2 = spec_add_point(n1, s.end);
                (n2, edges.push((spec_point_index(n1, s.start), spec_point_index(n2, s.end))))
            },
        }
    }
}

/// Every edge joins two existing nodes.
pub open spec fn spec_edges_valid(node_count: int, edges: Seq<(usize, usize)>) -> bool {
    forall|i: int| 0 <= i < edges.len() ==> edges[i].0 < node_count && edges[i].1 < node_count
}

/// No two nodes carry the same quantised point.
pub open spec fn spec_hashes_distinct(nodes: Seq<Point>) -> bool {
    forall|i: int, j: int| 0 <= i < j < nodes.len() ==> nodes[i].hash != nodes[j].hash
}

/// The map key of a quantised point.
pub open spec fn spec_key(h: HashPoint) -> PointKey {
    (h.x, h.y, h.r, h.g, h.b)
}

proof fn lemma_node_with_hash(nodes: Seq<Point>, h: HashPoint)
    requires
        spec_hashes_distinct(nodes),
    ensures
        match spec_node_with_hash(nodes, h) {
            Some(i) => 0 <= i < nodes.len() && nodes[i].hash == h,
            None => forall|j: int| 0 <= j < nodes.len() ==> nodes[j].hash != h,
        },
        forall|j: int| 0 <= j < nodes.len() && nodes[j].hash == h ==> spec_node_with_hash(nodes, h)
            == Some(j),
    decreases nodes.len(),
{
    if nodes.len() > 0 {
        let prefix = nodes.drop_last();
        assert(spec_hashes_distinct(prefix)) by {
            assert forall|i: int, j: int| 0 <= i < j < prefix.len() implies prefix[i].hash
                != prefix[j].hash by {
                assert(prefix[i] == nodes[i] && prefix[j] == nodes[j]);
            }
        }
        lemma_node_with_hash(prefix, h);
        assert forall|j: int| 0 <= j < prefix.len() implies prefix[j] == nodes[j] by {}
        assert forall|j: int| 0 <= j < nodes.len() && nodes[j].hash == h implies spec_node_with_hash(
            nodes,
            h,
        ) == Some(j) by {
            if j < prefix.len() {
                assert(prefix[j] == nodes[j]);
            } else {
                if let Some(i) = spec_node_with_hash(prefix, h) {
                    assert(prefix[i] == nodes[i]);
                    assert(nodes[i].hash != nodes[j].hash);
                }
            }
        }
    }
}

proof fn lemma_add_point(nodes: Seq<Point>, p: Point)
    requires
        spec_hashes_distinct(nodes),
    ensures
        spec_hashes_distinct(spec_add_point(nodes, p)),
        spec_add_point(nodes, p).len() <= nodes.len() + 1,
        nodes.is_prefix_of(spec_add_point(nodes, p)),
        spec_node_with_hash(spec_add_point(nodes, p), p.hash) is Some,
        0 <= spec_node_with_hash(spec_add_point(nodes, p), p.hash).unwrap() < spec_add_point(
            nodes,
            p,
        ).len(),
        forall|h: HashPoint| #[trigger]
            spec_node_with_hash(nodes, h) is Some ==> spec_node_with_hash(
                spec_add_point(nodes, p),
                h,
            ) == spec_node_with_hash(nodes, h),
{
    lemma_node_with_hash(nodes, p.hash);
    let r = spec_add_point(nodes, p);
    assert(spec_hashes_distinct(r));
    lemma_node_with_hash(r, p.hash);
    assert forall|h: HashPoint| #[trigger]
        spec_node_with_hash(nodes, h) is Some implies spec_node_with_hash(r, h)
        == spec_node_with_hash(nodes, h) by {
        lemma_node_with_hash(nodes, h);
        lemma_node_with_hash(r, h);
        let i = spec_node_with_hash(nodes, h).unwrap();
        assert(r[i] == nodes[i]);
    }
}

proof fn lemma_point_graph(segs: Seq<Segment>)
    ensures
        spec_hashes_distinct(spec_point_graph(segs).0),
        spec_edges_valid(spec_point_graph(segs).0.len() as int, spec_point_graph(segs).1),
        spec_point_graph(segs).0.len() <= 2 * segs.len(),
        spec_point_graph(segs).1.len() <= segs.len(),
    decreases segs.len(),
{
    if segs.len() > 0 {
        lemma_point_graph(segs.drop_last());
        let (nodes, edges) = spec_point_graph(segs.drop_last());
        let s = segs.last();
        if s.kind == SegmentKind::Lit {
            lemma_add_point(nodes, s.start);
            let n1 = spec_add_point(nodes, s.start);
            lemma_add_point(n1, s.end);
        }
    }
}

proof fn lemma_point_graph_prefix(segs: Seq<Segment>, k: int)
    requires
        0 <= k <= segs.len(),
    ensures
        spec_point_graph(segs.take(k)).0.len() <= spec_point_graph(segs).0.len(),
        spec_point_graph(segs.take(k)).1.len() <= spec_point_graph(segs).1.len(),
    decreases segs.len() - k,
{
    if k < segs.len() {
        lemma_point_graph_prefix(segs, k + 1);
        assert(segs.take(k + 1).drop_last() =~= segs.take(k));
        let (nodes, edges) = spec_point_graph(segs.take(k));
        let s = segs.take(k + 1).last();
        if s.kind == SegmentKind::Lit {
            lemma_point_graph(segs.take(k));
            lemma_add_point(nodes, s.start);
            lemma_add_point(spec_add_point(nodes, s.start), s.end);
        }
    } else {
        assert(segs.take(k) =~= segs);
    }
}

/// The node index of `p` in `g`, adding `p` as a new node if no node carries its quantised
/// point yet; the map's recorded weight becomes the larger of the recorded and `p`'s weight.
fn node_for_point(g: &mut PointGraph, pt_to_id: &mut PointIds, p: Point) -> (ix: usize)
    requires
        spec_hashes_distinct(point_graph_nodes(*old(g))),
        spec_add_point(point_graph_nodes(*old(g)), p).len() < u32::MAX,
        forall|h: HashPoint| #[trigger]
            point_ids_contents(*old(pt_to_id)).contains_key(spec_key(h)) <==> spec_node_with_hash(
                point_graph_nodes(*old(g)),
                h,
            ) is Some,
        forall|h: HashPoint| #[trigger]
            point_ids_contents(*old(pt_to_id)).contains_key(spec_key(h)) ==> point_ids_contents(
                *old(pt_to_id),
            )[spec_key(h)].0 == spec_node_with_hash(point_graph_nodes(*old(g)), h).unwrap(),
    ensures
        point_graph_nodes(*final(g)) == spec_add_point(point_graph_nodes(*old(g)), p),
        point_graph_edges(*final(g)) == point_graph_edges(*old(g)),
        ix == spec_point_index(point_graph_nodes(*final(g)), p),
        forall|h: HashPoint| #[trigger]
            point_ids_contents(*final(pt_to_id)).contains_key(spec_key(h)) <==> spec_node_with_hash(
                point_graph_nodes(*final(g)),
                h,
            ) is Some,
        forall|h: HashPoint| #[trigger]
            point_ids_contents(*final(pt_to_id)).contains_key(spec_key(h)) ==> point_ids_contents(
                *final(pt_to_id),
            )[spec_key(h)].0 == spec_node_with_hash(point_graph_nodes(*final(g)), h).unwrap(),
{
    let ghost nodes0 = point_graph_nodes(*g);
    proof {
        lemma_node_with_hash(nodes0, p.hash);
        lemma_add_point(nodes0, p);
    }
    let k = (p.hash.x, p.hash.y, p.hash.r, p.hash.g, p.hash.b);
    assert(k == spec_key(p.hash));
    match point_ids_get(pt_to_id, k) {
        Some(entry) => {
            let w = if entry.1 >= p.weight {
                entry.1
            } else {
                p.weight
            };
            point_ids_insert(pt_to_id, k, (entry.0, w));
            proof {
                assert forall|h: HashPoint| #[trigger]
                    point_ids_contents(*pt_to_id).contains_key(spec_key(h)) implies point_ids_contents(
                    *pt_to_id,
                )[spec_key(h)].0 == spec_node_with_hash(point_graph_nodes(*g), h).unwrap() by {
                    if spec_key(h) == k {
                        assert(h == p.hash);
                    }
                }
                assert forall|h: HashPoint| #[trigger]
                    point_ids_contents(*pt_to_id).contains_key(spec_key(h)) <==> spec_node_with_hash(
                    point_graph_nodes(*g),
                    h,
                ) is Some by {
                    if spec_key(h) == k {
                        assert(h == p.hash);
                    }
                }
            }
            entry.0
        },
        None => {
            assert(spec_node_with_hash(nodes0, p.hash) is None);
            let ix = point_graph_add_node(g, p);
            point_ids_insert(pt_to_id, k, (ix, p.weight));
            proof {
                let nodes1 = point_graph_nodes(*g);
                lemma_node_with_hash(nodes1, p.hash);
                assert(nodes1[ix as int] == p);
                assert forall|h: HashPoint| #[trigger]
                    point_ids_contents(*pt_to_id).contains_key(spec_key(h)) <==> spec_node_with_hash(
                    nodes1,
                    h,
                ) is Some by {
                    lemma_node_with_hash(nodes0, h);
                    lemma_node_with_hash(nodes1, h);
                    if spec_key(h) == k {
                        assert(h == p.hash);
                    }
                    if spec_node_with_hash(nodes1, h) is Some && h != p.hash {
                        let j = spec_node_with_hash(nodes1, h).unwrap();
                        assert(j != ix);
                        assert(nodes0[j].hash == h);
                    }
                }
                assert forall|h: HashPoint| #[trigger]
                    point_ids_contents(*pt_to_id).contains_key(spec_key(h)) implies point_ids_contents(
                    *pt_to_id,
                )[spec_key(h)].0 == spec_node_with_hash(nodes1, h).unwrap() by {
                    lemma_node_with_hash(nodes0, h);
                    lemma_node_with_hash(nodes1, h);
                    if spec_key(h) == k {
                        assert(h == p.hash);
                    }
                }
            }
            ix
        },
    }
}

/// Convert the given laser frame vector segments to a graph of points.
///
/// Blank segments are dropped; the endpoints of each lit segment become nodes (merging points
/// that share a quantised position and colour) joined by an edge.
pub fn segments_to_point_graph(segments: Vec<Segment>) -> (g: PointGraph)
    requires
        spec_point_graph(segments@).0.len() < u32::MAX,
        spec_point_graph(segments@).1.len() < u32::MAX,
    ensures
        point_graph_nodes(g) == spec_point_graph(segments@).0,
        point_graph_edges(g) == spec_point_graph(segments@).1,
        spec_edges_valid(point_graph_nodes(g).len() as int, point_graph_edges(g)),
{
    let mut g = point_graph_new();
    let mut pt_to_id = point_ids_new();
    let mut i: usize = 0;
    while i < segments.len()
        invariant
            0 <= i <= segments.len(),
            spec_point_graph(segments@).0.len() < u32::MAX,
            spec_point_graph(segments@).1.len() < u32::MAX,
            point_graph_nodes(g) == spec_point_graph(segments@.take(i as int)).0,
            point_graph_edges(g) == spec_point_graph(segments@.take(i as int)).1,
            forall|h: HashPoint| #[trigger]
                point_ids_contents(pt_to_id).contains_key(spec_key(h)) <==> spec_node_with_hash(
                    point_graph_nodes(g),
                    h,
                ) is Some,
            forall|h: HashPoint| #[trigger]
                point_ids_contents(pt_to_id).contains_key(spec_key(h)) ==> point_ids_contents(
                    pt_to_id,
                )[spec_key(h)].0 == spec_node_with_hash(point_graph_nodes(g), h).unwrap(),
        decreases segments.len() - i,
    {
        let seg = segments[i];
        proof {
            assert(segments@.take(i + 1).drop_last() =~= segments@.take(i as int));
            assert(segments@.take(i + 1).last() == seg);
            lemma_point_graph(segments@.take(i as int));
            lemma_point_graph_prefix(segments@, i + 1);
        }
        match seg.kind {
            SegmentKind::Blank => {},
            SegmentKind::Lit => {
                let ghost nodes0 = point_graph_nodes(g);
                proof {
                    lemma_add_point(nodes0, seg.start);
                    lemma_add_point(spec_add_point(nodes0, seg.start), seg.end);
                }
                let na = node_for_point(&mut g, &mut pt_to_id, seg.start);
                let nb = node_for_point(&mut g, &mut pt_to_id, seg.end);
                proof {
                    let n1 = spec_add_point(nodes0, seg.start);
                    lemma_node_with_hash(n1, seg.start.hash);
                    lemma_add_point(n1, seg.end);
                }
                point_graph_add_edge(&mut g, na, nb);
            },
        }
        i = i + 1;
    }
    proof {
        assert(segments@.take(segments@.len() as int) =~= segments@);
        lemma_point_graph(segments@);
    }
    g
}

// ---------------------------------------------------------------------------------------------
// Euler graph

/// A type used to represent a graph of points that contains at least one euler circuit.
pub type EulerGraph = Graph<Point, SegmentKind, Undirected, u32>;

/// An edge of an Euler graph or circuit: its two endpoints and its kind.
pub type EulerEdge = (usize, usize, SegmentKind);

/// The node weights of an Euler graph, in index order.
pub uninterp spec fn euler_graph_nodes(g: EulerGraph) -> Seq<Point>;

/// The edges of an Euler graph, in index order.
pub uninterp spec fn euler_graph_edges(g: EulerGraph) -> Seq<EulerEdge>;

/// The components found by `petgraph::algo::kosaraju_scc` on a point graph.
pub uninterp spec fn point_graph_components(g: PointGraph) -> Seq<Seq<usize>>;

/// A hashbrown set of indices.
#[verifier::external_body]
pub struct IndexSet {
    set: hashbrown::HashSet<usize>,
}

/// The members of an `IndexSet`.
pub uninterp spec fn index_set_contents(s: IndexSet) -> Set<usize>;

/// `hashbrown::HashSet::new`: an empty set.
#[verifier::external_body]
fn index_set_new() -> (s: IndexSet)
    ensures
        index_set_contents(s) == Set::<usize>::empty(),
{
    IndexSet { set: hashbrown::HashSet::new() }
}

/// `hashbrown::HashSet::contains`.
#[verifier::external_body]
fn index_set_contains(s: &IndexSet, x: usize) -> (r: bool)
    ensures
        r == index_set_contents(*s).contains(x),
{
    s.set.contains(&x)
}

/// `hashbrown::HashSet::insert`.
#[verifier::external_body]
fn index_set_insert(s: &mut IndexSet, x: usize)
    ensures
        index_set_contents(*final(s)) == index_set_contents(*old(s)).insert(x),
{
    s.set.insert(x);
}

/// The number of edges of `g` that touch the node at index `n` (a self-loop counts once).
pub open spec fn spec_degree(edges: Seq<(usize, usize)>, n: int) -> nat
    decreases edges.len(),
{
    if edges.len() == 0 {
        0
    } else {
        spec_degree(edges.drop_last(), n) + if edges.last().0 == n || edges.last().1 == n {
            1nat
        } else {
            0nat
        }
    }
}

/// `Graph::node_count` of a point graph.
#[verifier::external_body]
fn point_graph_node_count(g: &PointGraph) -> (r: usize)
    ensures
        r == point_graph_nodes(*g).len(),
{
    g.node_count()
}

/// `Graph::edge_count` of a point graph.
#[verifier::external_body]
fn point_graph_edge_count(g: &PointGraph) -> (r: usize)
    ensures
        r == point_graph_edges(*g).len(),
{
    g.edge_count()
}

/// `Graph::edges(n).count()` on an undirected point graph: the edges touching `n`, where
/// petgraph yields a self-loop once.
#[verifier::external_body]
fn point_graph_degree(g: &PointGraph, n: usize) -> (r: usize)
    requires
        n < point_graph_nodes(*g).len(),
    ensures
        r == spec_degree(point_graph_edges(*g), n as int),
{
    g.edges(NodeIndex::new(n)).count()
}

/// `petgraph::algo::kosaraju_scc` on a point graph, with each `NodeIndex` given by its index.
///
/// On an undirected graph the strongly connected components are the connected components, so
/// they partition the nodes, none is empty, none repeats a node, and every edge lies within
/// one of them. The order of the components and of the nodes within each is not stated.
#[verifier::external_body]
fn point_graph_kosaraju_scc(g: &PointGraph) -> (ccs: Vec<Vec<usize>>)
    ensures
        ccs@.len() == point_graph_components(*g).len(),
        forall|i: int|
            0 <= i < ccs@.len() ==> #[trigger] ccs@[i]@ == point_graph_components(*g)[i],
        spec_components_partition(
            point_graph_nodes(*g).len() as int,
            point_graph_edges(*g),
            spec_nested_view(ccs@),
        ),
{
    petgraph::algo::kosaraju_scc(g).into_iter().map(|cc| cc.into_iter().map(|n| n.index()).collect()).collect()
}

/// The views of a sequence of vectors.
pub open spec fn spec_nested_view(v: Seq<Vec<usize>>) -> Seq<Seq<usize>> {
    v.map_values(|c: Vec<usize>| c@)
}

/// Whether node `n` belongs to one of the components.
pub open spec fn spec_in_some_component(ccs: Seq<Seq<usize>>, n: int) -> bool {
    exists|i: int, j: int| 0 <= i < ccs.len() && 0 <= j < ccs[i].len() && #[trigger] ccs[i][j] == n
}

/// The components partition the nodes `0..node_count`, none is empty, and each edge has both or
/// neither of its endpoints in each component.
pub open spec fn spec_components_partition(
    node_count: int,
    edges: Seq<(usize, usize)>,
    ccs: Seq<Seq<usize>>,
) -> bool {
    &&& forall|i: int| 0 <= i < ccs.len() ==> #[trigger] ccs[i].len() > 0
    &&& forall|i: int, j: int|
        0 <= i < ccs.len() && 0 <= j < ccs[i].len() ==> #[trigger] ccs[i][j] < node_count
    &&& forall|i: int, j: int, k: int, l: int|
        0 <= i < ccs.len() && 0 <= j < ccs[i].len() && 0 <= k < ccs.len() && 0 <= l < ccs[k].len()
            && #[trigger] ccs[i][j] == #[trigger] ccs[k][l] ==> i == k && j == l
    &&& forall|n: int| 0 <= n < node_count ==> #[trigger] spec_in_some_component(ccs, n)
    &&& forall|i: int, e: int|
        0 <= i < ccs.len() && 0 <= e < edges.len() ==> (#[trigger] ccs[i].contains(
            #[trigger] edges[e].0,
        ) <==> ccs[i].contains(edges[e].1))
}

/// The kind that an edge of a point graph takes in its Euler graph: each joins the two ends of a
/// lit segment.
fn point_edge_kind(_weight: &()) -> (k: SegmentKind)
    ensures
        k == SegmentKind::Lit,
{
    SegmentKind::Lit
}

/// `Graph::map` from a point graph to an Euler graph: same nodes, every edge marked `Lit`.
#[verifier::external_body]
fn euler_graph_from_point_graph(pg: &PointGraph) -> (eg: EulerGraph)
    ensures
        euler_graph_nodes(eg) == point_graph_nodes(*pg),
        euler_graph_edges(eg) == spec_lit_edges(point_graph_edges(*pg)),
{
    pg.map(|_n_ix, n| *n, |_e_ix, w| point_edge_kind(w))
}

/// `Graph::add_edge` on an Euler graph.
#[verifier::external_body]
fn euler_graph_add_edge(g: &mut EulerGraph, a: usize, b: usize, kind: SegmentKind)
    requires
        a < euler_graph_nodes(*old(g)).len(),
        b < euler_graph_nodes(*old(g)).len(),
        euler_graph_edges(*old(g)).len() < u32::MAX,
    ensures
        euler_graph_nodes(*final(g)) == euler_graph_nodes(*old(g)),
        euler_graph_edges(*final(g)) == euler_graph_edges(*old(g)).push((a, b, kind)),
{
    g.add_edge(NodeIndex::new(a), NodeIndex::new(b), kind);
}

/// The edges of a point graph, each marked `Lit`.
pub open spec fn spec_lit_edges(edges: Seq<(usize, usize)>) -> Seq<EulerEdge> {
    edges.map_values(|e: (usize, usize)| (e.0, e.1, SegmentKind::Lit))
}

/// The given node pairs as `Blank` edges.
pub open spec fn spec_blank_edges(pairs: Seq<(usize, usize)>) -> Seq<EulerEdge> {
    pairs.map_values(|e: (usize, usize)| (e.0, e.1, SegmentKind::Blank))
}

/// The nodes of `cc` with odd degree, in order.
pub open spec fn spec_odd_nodes(cc: Seq<usize>, edges: Seq<(usize, usize)>) -> Seq<usize>
    decreases cc.len(),
{
    if cc.len() == 0 {
        Seq::empty()
    } else {
        let prev = spec_odd_nodes(cc.drop_last(), edges);
        if spec_degree(edges, cc.last() as int) % 2 == 1 {
            prev.push(cc.last())
        } else {
            prev
        }
    }
}

/// Whether every node of the component has an even degree.
pub open spec fn spec_is_euler_component(cc: Seq<usize>, edges: Seq<(usize, usize)>) -> bool {
    forall|j: int| 0 <= j < cc.len() ==> #[trigger] spec_degree(edges, cc[j] as int) % 2 == 0
}

/// The nodes of a component to be joined by blanks: the node joined to the previous
/// component, the nodes joined in consecutive pairs within it, and the node joined to the next.
pub open spec fn spec_to_connect(cc: Seq<usize>, edges: Seq<(usize, usize)>) -> (
    usize,
    Seq<usize>,
    usize,
) {
    if spec_is_euler_component(cc, edges) {
        (cc[0], Seq::empty(), cc[0])
    } else {
        let v = spec_odd_nodes(cc, edges);
        (v[0], v.subrange(1, v.len() - 1), v.last())
    }
}

/// Consecutive pairs of `inner`: `(inner[0], inner[1])`, `(inner[2], inner[3])`, ...
pub open spec fn spec_chunk_pairs(inner: Seq<usize>) -> Seq<(usize, usize)> {
    Seq::new(inner.len() / 2, |k: int| (inner[2 * k], inner[2 * k + 1]))
}

/// The blank pairs contributed by the component at index `i` of `ccs`: its inner pairs, then the
/// link from its last node to the first node of the next component (the first component for the
/// last one), or, when it is the only component and not an Euler one, back to its own first node.
pub open spec fn spec_component_pairs(
    ccs: Seq<Seq<usize>>,
    edges: Seq<(usize, usize)>,
    i: int,
) -> Seq<(usize, usize)> {
    let this = spec_to_connect(ccs[i], edges);
    let link: Seq<(usize, usize)> = if i + 1 < ccs.len() {
        seq![(this.2, spec_to_connect(ccs[i + 1], edges).0)]
    } else if i > 0 {
        seq![(this.2, spec_to_connect(ccs[0], edges).0)]
    } else if spec_is_euler_component(ccs[0], edges) {
        Seq::empty()
    } else {
        seq![(this.2, this.0)]
    };
    spec_chunk_pairs(this.1) + link
}

/// The blank pairs contributed by the first `k` components.
pub open spec fn spec_blank_pairs(ccs: Seq<Seq<usize>>, edges: Seq<(usize, usize)>, k: int) -> Seq<
    (usize, usize),
>
    decreases k,
{
    if k <= 0 || k > ccs.len() {
        Seq::empty()
    } else {
        spec_blank_pairs(ccs, edges, k - 1) + spec_component_pairs(ccs, edges, k - 1)
    }
}

/// The blank pairs added to the point graph `pg` to make it an Euler graph.
pub open spec fn spec_euler_blanks(pg: PointGraph) -> Seq<(usize, usize)> {
    let ccs = point_graph_components(pg);
    spec_blank_pairs(ccs, point_graph_edges(pg), ccs.len() as int)
}

// ---------------------------------------------------------------------------------------------
// Degree parity within a component (the handshake lemma)

/// The sum of the degrees of the nodes of `c`.
pub open spec fn spec_sum_degree(c: Seq<usize>, edges: Seq<(usize, usize)>) -> nat
    decreases c.len(),
{
    if c.len() == 0 {
        0
    } else {
        spec_sum_degree(c.drop_last(), edges) + spec_degree(edges, c.last() as int)
    }
}

/// The number of entries of `c` that are an endpoint of `e`.
pub open spec fn spec_in_count(c: Seq<usize>, e: (usize, usize)) -> nat
    decreases c.len(),
{
    if c.len() == 0 {
        0
    } else {
        spec_in_count(c.drop_last(), e) + if c.last() == e.0 || c.last() == e.1 {
            1nat
        } else {
            0nat
        }
    }
}

/// The sum over the edges of how many of their endpoints lie in `c`.
pub open spec fn spec_sum_in_count(c: Seq<usize>, edges: Seq<(usize, usize)>) -> nat
    decreases edges.len(),
{
    if edges.len() == 0 {
        0
    } else {
        spec_sum_in_count(c, edges.drop_last()) + spec_in_count(c, edges.last())
    }
}

/// No value occurs twice in `c`.
pub open spec fn spec_no_dups(c: Seq<usize>) -> bool {
    forall|j: int, l: int| 0 <= j < l < c.len() ==> c[j] != c[l]
}

proof fn lemma_sum_degree_push_edge(c: Seq<usize>, edges: Seq<(usize, usize)>, e: (usize, usize))
    ensures
        spec_sum_degree(c, edges.push(e)) == spec_sum_degree(c, edges) + spec_in_count(c, e),
    decreases c.len(),
{
    assert(edges.push(e).drop_last() =~= edges);
    if c.len() > 0 {
        lemma_sum_degree_push_edge(c.drop_last(), edges, e);
    }
}

proof fn lemma_sum_degree_is_sum_in_count(c: Seq<usize>, edges: Seq<(usize, usize)>)
    ensures
        spec_sum_degree(c, edges) == spec_sum_in_count(c, edges),
    decreases edges.len(),
{
    if edges.len() == 0 {
        lemma_sum_degree_no_edges(c, edges);
    } else {
        lemma_sum_degree_is_sum_in_count(c, edges.drop_last());
        assert(edges.drop_last().push(edges.last()) =~= edges);
        lemma_sum_degree_push_edge(c, edges.drop_last(), edges.last());
    }
}

proof fn lemma_sum_degree_no_edges(c: Seq<usize>, edges: Seq<(usize, usize)>)
    requires
        edges.len() == 0,
    ensures
        spec_sum_degree(c, edges) == 0,
    decreases c.len(),
{
    if c.len() > 0 {
        lemma_sum_degree_no_edges(c.drop_last(), edges);
    }
}

proof fn lemma_in_count(c: Seq<usize>, e: (usize, usize))
    requires
        spec_no_dups(c),
        e.0 != e.1,
    ensures
        spec_in_count(c, e) == (if c.contains(e.0) {
            1nat
        } else {
            0nat
        }) + (if c.contains(e.1) {
            1nat
        } else {
            0nat
        }),
    decreases c.len(),
{
    if c.len() > 0 {
        let p = c.drop_last();
        assert(spec_no_dups(p));
        lemma_in_count(p, e);
        assert forall|x: usize| c.contains(x) <==> (p.contains(x) || c.last() == x) by {
            if c.contains(x) {
                let j = choose|j: int| 0 <= j < c.len() && c[j] == x;
                if j < p.len() {
                    assert(p[j] == x);
                }
            }
            if p.contains(x) {
                let j = choose|j: int| 0 <= j < p.len() && p[j] == x;
                assert(c[j] == x);
            }
            if c.last() == x {
                assert(c[c.len() - 1] == x);
            }
        }
        assert(!p.contains(c.last())) by {
            if p.contains(c.last()) {
                let j = choose|j: int| 0 <= j < p.len() && p[j] == c.last();
                assert(c[j] == c[c.len() - 1]);
            }
        }
    }
}

proof fn lemma_sum_in_count_even(c: Seq<usize>, edges: Seq<(usize, usize)>)
    requires
        spec_no_dups(c),
        forall|e: int| 0 <= e < edges.len() ==> edges[e].0 != edges[e].1,
        forall|e: int|
            0 <= e < edges.len() ==> (c.contains(#[trigger] edges[e].0) <==> c.contains(edges[e].1)),
    ensures
        spec_sum_in_count(c, edges) % 2 == 0,
    decreases edges.len(),
{
    if edges.len() > 0 {
        let p = edges.drop_last();
        assert forall|e: int| 0 <= e < p.len() implies (c.contains(#[trigger] p[e].0) <==> c.contains(
            p[e].1,
        )) by {
            assert(p[e] == edges[e]);
        }
        assert forall|e: int| 0 <= e < p.len() implies p[e].0 != p[e].1 by {
            assert(p[e] == edges[e]);
        }
        lemma_sum_in_count_even(c, p);
        let last = edges[edges.len() - 1];
        assert(edges.last() == last);
        lemma_in_count(c, last);
    }
}

proof fn lemma_odd_count_parity(c: Seq<usize>, edges: Seq<(usize, usize)>)
    ensures
        spec_odd_nodes(c, edges).len() % 2 == spec_sum_degree(c, edges) % 2,
    decreases c.len(),
{
    if c.len() > 0 {
        lemma_odd_count_parity(c.drop_last(), edges);
    }
}

proof fn lemma_odd_nodes_members(c: Seq<usize>, edges: Seq<(usize, usize)>)
    ensures
        forall|k: int|
            0 <= k < spec_odd_nodes(c, edges).len() ==> c.contains(
                #[trigger] spec_odd_nodes(c, edges)[k],
            ) && spec_degree(edges, spec_odd_nodes(c, edges)[k] as int) % 2 == 1,
        forall|j: int|
            0 <= j < c.len() && spec_degree(edges, c[j] as int) % 2 == 1 ==> spec_odd_nodes(
                c,
                edges,
            ).contains(#[trigger] c[j]),
    decreases c.len(),
{
    if c.len() > 0 {
        let p = c.drop_last();
        lemma_odd_nodes_members(p, edges);
        let v = spec_odd_nodes(c, edges);
        let pv = spec_odd_nodes(p, edges);
        assert forall|k: int| 0 <= k < v.len() implies c.contains(#[trigger] v[k]) && spec_degree(
            edges,
            v[k] as int,
        ) % 2 == 1 by {
            if k < pv.len() {
                assert(v[k] == pv[k]);
                let j = choose|j: int| 0 <= j < p.len() && p[j] == pv[k];
                assert(c[j] == p[j]);
            } else {
                assert(v[k] == c.last());
                assert(c[c.len() - 1] == c.last());
            }
        }
        assert forall|j: int|
            0 <= j < c.len() && spec_degree(edges, c[j] as int) % 2 == 1 implies v.contains(
            #[trigger] c[j],
        ) by {
            if j < p.len() {
                assert(p[j] == c[j]);
                assert(pv.contains(p[j]));
                let k = choose|k: int| 0 <= k < pv.len() && pv[k] == p[j];
                assert(v[k] == pv[k]);
            } else {
                assert(v[v.len() - 1] == c[j]);
            }
        }
    }
}

/// Within a component that no edge leaves, a graph without self-loops has an even number of
/// odd-degree nodes.
pub proof fn lemma_component_odd_nodes_even(c: Seq<usize>, edges: Seq<(usize, usize)>)
    requires
        spec_no_dups(c),
        forall|e: int| 0 <= e < edges.len() ==> edges[e].0 != edges[e].1,
        forall|e: int|
            0 <= e < edges.len() ==> (c.contains(#[trigger] edges[e].0) <==> c.contains(edges[e].1)),
    ensures
        spec_odd_nodes(c, edges).len() % 2 == 0,
{
    lemma_sum_in_count_even(c, edges);
    lemma_sum_degree_is_sum_in_count(c, edges);
    lemma_odd_count_parity(c, edges);
}

// ---------------------------------------------------------------------------------------------
// Point graph to Euler graph

/// Represents the nodes to be connected for a single component.
struct ToConnect {
    // Connection to the previous component.
    prev: usize,
    // Consecutive connections within the component.
    inner: Vec<usize>,
    // Connection to the next component.
    next: usize,
}

/// Whether `p` is the exec form of the spec triple `t`.
spec fn matches_to_connect(p: ToConnect, t: (usize, Seq<usize>, usize)) -> bool {
    p.prev == t.0 && p.inner@ == t.1 && p.next == t.2
}

/// Every node named by `p` is below `node_count`.
spec fn spec_to_connect_in_range(p: ToConnect, node_count: int) -> bool {
    &&& p.prev < node_count
    &&& p.next < node_count
    &&& forall|k: int| 0 <= k < p.inner@.len() ==> #[trigger] p.inner@[k] < node_count
}

/// Whether every node of `ccs[i]` has an even degree, by querying the graph.
fn component_is_euler(pg: &PointGraph, cc: &Vec<usize>) -> (r: bool)
    requires
        forall|j: int| 0 <= j < cc@.len() ==> #[trigger] cc@[j] < point_graph_nodes(*pg).len(),
    ensures
        r == spec_is_euler_component(cc@, point_graph_edges(*pg)),
{
    let mut j: usize = 0;
    while j < cc.len()
        invariant
            j <= cc@.len(),
            forall|j: int| 0 <= j < cc@.len() ==> #[trigger] cc@[j] < point_graph_nodes(*pg).len(),
            forall|k: int|
                0 <= k < j ==> #[trigger] spec_degree(point_graph_edges(*pg), cc@[k] as int) % 2
                    == 0,
        decreases cc.len() - j,
    {
        let d = point_graph_degree(pg, cc[j]);
        if d % 2 != 0 {
            return false;
        }
        j = j + 1;
    }
    true
}

/// The odd-degree nodes of a component, in order.
fn odd_nodes(pg: &PointGraph, cc: &Vec<usize>) -> (v: Vec<usize>)
    requires
        forall|j: int| 0 <= j < cc@.len() ==> #[trigger] cc@[j] < point_graph_nodes(*pg).len(),
    ensures
        v@ == spec_odd_nodes(cc@, point_graph_edges(*pg)),
{
    let mut v: Vec<usize> = Vec::new();
    let mut j: usize = 0;
    while j < cc.len()
        invariant
            j <= cc@.len(),
            forall|j: int| 0 <= j < cc@.len() ==> #[trigger] cc@[j] < point_graph_nodes(*pg).len(),
            v@ == spec_odd_nodes(cc@.take(j as int), point_graph_edges(*pg)),
        decreases cc.len() - j,
    {
        let n = cc[j];
        assert(cc@.take(j + 1).drop_last() =~= cc@.take(j as int));
        if point_graph_degree(pg, n) % 2 != 0 {
            v.push(n);
        }
        j = j + 1;
    }
    assert(cc@.take(cc@.len() as int) =~= cc@);
    v
}

/// Convert a point graph to a euler graph.
///
/// This determines the minimum number of blank segments necessary to create a euler circuit
/// from the given point graph. A euler circuit is useful as it represents a graph that can be
/// drawn unicursally (one continuous path that covers all nodes while only traversing each edge
/// once).
///
/// The result keeps every node and lit edge of `pg` and appends the blank edges of
/// `spec_euler_blanks`.
pub fn point_graph_to_euler_graph(pg: &PointGraph) -> (eg: EulerGraph)
    requires
        spec_edges_valid(point_graph_nodes(*pg).len() as int, point_graph_edges(*pg)),
        spec_odd_counts_even(point_graph_edges(*pg), point_graph_components(*pg)),
        point_graph_edges(*pg).len() + spec_euler_blanks(*pg).len() < u32::MAX,
    ensures
        euler_graph_nodes(eg) == point_graph_nodes(*pg),
        euler_graph_edges(eg) == spec_lit_edges(point_graph_edges(*pg)) + spec_blank_edges(
            spec_euler_blanks(*pg),
        ),
        spec_euler_edges_valid(euler_graph_nodes(eg).len() as int, euler_graph_edges(eg)),
        forall|x: int| #[trigger] spec_degree(spec_endpoints(euler_graph_edges(eg)), x) % 2 == 0,
        spec_no_self_loops(point_graph_edges(*pg)) ==> spec_non_loop_degrees_even(euler_graph_edges(eg)),
        spec_no_self_loops(point_graph_edges(*pg)) ==> forall|e: int|
            0 <= e < euler_graph_edges(eg).len() ==> (#[trigger] euler_graph_edges(eg)[e]).0
                != euler_graph_edges(eg)[e].1,
{
    let ghost edges = point_graph_edges(*pg);
    let ghost node_count = point_graph_nodes(*pg).len() as int;
    // Find the connected components.
    let ccs = point_graph_kosaraju_scc(pg);
    let ghost comps = point_graph_components(*pg);
    proof {
        assert(spec_nested_view(ccs@) =~= comps);
    }

    // The indices of the connected components whose nodes all have an even degree.
    let mut euler_components = index_set_new();
    let mut i: usize = 0;
    while i < ccs.len()
        invariant
            i <= ccs@.len(),
            ccs@.len() == comps.len(),
            forall|k: int| 0 <= k < ccs@.len() ==> #[trigger] ccs@[k]@ == comps[k],
            spec_components_partition(node_count, edges, comps),
            node_count == point_graph_nodes(*pg).len(),
            edges == point_graph_edges(*pg),
            forall|k: usize|
                #[trigger] index_set_contents(euler_components).contains(k) <==> (k < i
                    && spec_is_euler_component(comps[k as int], edges)),
        decreases ccs.len() - i,
    {
        proof {
            assert forall|j: int| 0 <= j < ccs@[i as int]@.len() implies #[trigger] ccs@[i as int]@[j]
                < point_graph_nodes(*pg).len() by {
                assert(comps[i as int][j] < node_count);
            }
        }
        if component_is_euler(pg, &ccs[i]) {
            index_set_insert(&mut euler_components, i);
        }
        i = i + 1;
    }

    // Collect the free nodes from each connected component that are to be connected by blanks.
    let mut to_connect: Vec<ToConnect> = Vec::new();
    let mut i: usize = 0;
    while i < ccs.len()
        invariant
            i <= ccs@.len(),
            ccs@.len() == comps.len(),
            forall|k: int| 0 <= k < ccs@.len() ==> #[trigger] ccs@[k]@ == comps[k],
            spec_components_partition(node_count, edges, comps),
            node_count == point_graph_nodes(*pg).len(),
            edges == point_graph_edges(*pg),
            spec_odd_counts_even(edges, comps),
            forall|k: usize|
                #[trigger] index_set_contents(euler_components).contains(k) <==> (k < ccs@.len()
                    && spec_is_euler_component(comps[k as int], edges)),
            to_connect@.len() == i,
            forall|k: int| 0 <= k < i ==> spec_to_connect_in_range(#[trigger] to_connect@[k], node_count),
            forall|k: int|
                0 <= k < i ==> matches_to_connect(
                    #[trigger] to_connect@[k],
                    spec_to_connect(comps[k], edges),
                ),
        decreases ccs.len() - i,
    {
        let cc = &ccs[i];
        proof {
            assert forall|j: int| 0 <= j < cc@.len() implies #[trigger] cc@[j]
                < point_graph_nodes(*pg).len() by {
                assert(comps[i as int][j] < node_count);
            }
        }
        if index_set_contains(&euler_components, i) {
            // Take the first point.
            let n = cc[0];
            to_connect.push(ToConnect { prev: n, inner: Vec::new(), next: n });
        } else {
            let v = odd_nodes(pg, cc);
            proof {
                let c = comps[i as int];
                assert(spec_no_dups(c)) by {
                    assert forall|j: int, l: int| 0 <= j < l < c.len() implies c[j] != c[l] by {}
                }
                assert(spec_odd_nodes(comps[i as int], edges).len() % 2 == 0);
                lemma_odd_nodes_members(c, edges);
                let j = choose|j: int| 0 <= j < c.len() && spec_degree(edges, c[j] as int) % 2 != 0;
                assert(spec_odd_nodes(c, edges).contains(c[j]));
                assert forall|m: int| 0 <= m < v@.len() implies #[trigger] v@[m] < node_count by {
                    assert(c.contains(v@[m]));
                    let l = choose|l: int| 0 <= l < c.len() && c[l] == v@[m];
                    assert(comps[i as int][l] < node_count);
                }
            }
            let prev = v[0];
            let next = v[v.len() - 1];
            let mut inner: Vec<usize> = Vec::new();
            let mut k: usize = 1;
            while k + 1 < v.len()
                invariant
                    1 <= k <= v@.len() - 1,
                    inner@ == v@.subrange(1, k as int),
                    forall|m: int| 0 <= m < v@.len() ==> #[trigger] v@[m] < node_count,
                decreases v.len() - k,
            {
                inner.push(v[k]);
                k = k + 1;
                assert(inner@ =~= v@.subrange(1, k as int));
            }
            to_connect.push(ToConnect { prev, inner, next });
        }
        i = i + 1;
    }

    // Convert the `to_connect` Vec containing the nodes to be connected for each connected
    // component to a `Vec` containing the pairs of nodes which will be directly connected.
    let mut pairs: Vec<(usize, usize)> = Vec::new();
    let mut i: usize = 0;
    while i < to_connect.len()
        invariant
            i <= to_connect@.len(),
            to_connect@.len() == comps.len(),
            forall|k: int|
                0 <= k < to_connect@.len() ==> matches_to_connect(
                    #[trigger] to_connect@[k],
                    spec_to_connect(comps[k], edges),
                ),
            forall|k: usize|
                #[trigger] index_set_contents(euler_components).contains(k) <==> (k < comps.len()
                    && spec_is_euler_component(comps[k as int], edges)),
            pairs@ == spec_blank_pairs(comps, edges, i as int),
            forall|k: int| 0 <= k < to_connect@.len() ==> spec_to_connect_in_range(#[trigger] to_connect@[k], node_count),
            forall|k: int| 0 <= k < pairs@.len() ==> #[trigger] pairs@[k].0 < node_count && pairs@[k].1 < node_count,
        decreases to_connect.len() - i,
    {
        let this = &to_connect[i];
        let ghost base = pairs@;
        let mut j: usize = 0;
        while j + 1 < this.inner.len()
            invariant
                j % 2 == 0,
                j <= this.inner@.len(),
                pairs@ == base + spec_chunk_pairs(this.inner@).take((j / 2) as int),
                forall|k: int| 0 <= k < this.inner@.len() ==> #[trigger] this.inner@[k] < node_count,
                forall|k: int| 0 <= k < pairs@.len() ==> #[trigger] pairs@[k].0 < node_count && pairs@[k].1 < node_count,
            decreases this.inner.len() - j,
        {
            pairs.push((this.inner[j], this.inner[j + 1]));
            assert(spec_chunk_pairs(this.inner@).take(((j + 2) / 2) as int) =~= spec_chunk_pairs(
                this.inner@,
            ).take((j / 2) as int).push((this.inner@[j as int], this.inner@[j + 1])));
            j = j + 2;
        }
        proof {
            let t = spec_to_connect(comps[i as int], edges);
            assert(this.inner@ == t.1);
            assert(spec_chunk_pairs(this.inner@).take((j / 2) as int) =~= spec_chunk_pairs(this.inner@));
        }
        let ghost before_link = pairs@;
        proof {
            assert(spec_to_connect_in_range(to_connect@[i as int], node_count));
            assert(spec_to_connect_in_range(to_connect@[0], node_count));
            if i + 1 < to_connect@.len() {
                assert(spec_to_connect_in_range(to_connect@[i + 1], node_count));
            }
        }
        let link: Option<(usize, usize)> = if i + 1 < to_connect.len() {
            Some((this.next, to_connect[i + 1].prev))
        } else if i > 0 {
            Some((this.next, to_connect[0].prev))
        } else if !index_set_contains(&euler_components, 0) {
            // If there is only one non-euler, connect it to itself.
            Some((this.next, this.prev))
        } else {
            None
        };
        if let Some(pair) = link {
            assert(pair.0 < node_count && pair.1 < node_count);
            pairs.push(pair);
        }
        proof {
            assert(pairs@ =~= spec_blank_pairs(comps, edges, i + 1));
            assert forall|k: int| 0 <= k < pairs@.len() implies #[trigger] pairs@[k].0 < node_count
                && pairs@[k].1 < node_count by {
                if k < before_link.len() {
                    assert(pairs@[k] == before_link[k]);
                }
            }
        }
        i = i + 1;
    }

    // Turn the graph into a euler graph by adding the blanks.
    let mut eg = euler_graph_from_point_graph(pg);
    assert(pairs@ == spec_euler_blanks(*pg));
    let mut k: usize = 0;
    while k < pairs.len()
        invariant
            k <= pairs@.len(),
            pairs@ == spec_euler_blanks(*pg),
            edges == point_graph_edges(*pg),
            point_graph_edges(*pg).len() + spec_euler_blanks(*pg).len() < u32::MAX,
            node_count == point_graph_nodes(*pg).len(),
            forall|k: int| 0 <= k < pairs@.len() ==> #[trigger] pairs@[k].0 < node_count && pairs@[k].1 < node_count,
            euler_graph_nodes(eg) == point_graph_nodes(*pg),
            euler_graph_edges(eg) == spec_lit_edges(edges) + spec_blank_edges(
                pairs@.take(k as int),
            ),
        decreases pairs.len() - k,
    {
        let (na, nb) = pairs[k];
        euler_graph_add_edge(&mut eg, na, nb, SegmentKind::Blank);
        assert(spec_blank_edges(pairs@.take(k + 1)) =~= spec_blank_edges(pairs@.take(k as int)).push(
            (na, nb, SegmentKind::Blank),
        ));
        k = k + 1;
    }
    assert(pairs@.take(pairs@.len() as int) =~= pairs@);
    proof {
        let all = euler_graph_edges(eg);
        let pr = spec_euler_blanks(*pg);
        lemma_euler_blanks_make_degrees_even(node_count, edges, comps);
        lemma_blank_pairs_in_range(comps, edges, node_count, comps.len() as int);
        assert(spec_endpoints(all) =~= edges + pr);
        assert forall|e: int| 0 <= e < all.len() implies (#[trigger] all[e]).0 < node_count && all[e].1 < node_count by {
            if e < edges.len() {
                assert(all[e].0 == edges[e].0 && all[e].1 == edges[e].1);
            } else {
                assert(all[e].0 == pr[e - edges.len()].0 && all[e].1 == pr[e - edges.len()].1);
            }
        }
        assert forall|x: int| #[trigger] spec_degree(spec_endpoints(all), x) % 2 == 0 by {
            lemma_degree_concat(edges, pr, x);
        }
        if spec_no_self_loops(edges) {
            assert forall|e: int| 0 <= e < all.len() implies (#[trigger] all[e]).0 != all[e].1 by {
                if e < edges.len() {
                    assert(all[e].0 == edges[e].0 && all[e].1 == edges[e].1);
                } else {
                    assert(all[e].0 == pr[e - edges.len()].0 && all[e].1 == pr[e - edges.len()].1);
                }
            }
            assert forall|x: int| #[trigger] spec_non_loop_degree(all, x, all.len() as int) % 2 == 0 by {
                lemma_non_loop_degree(all, x, all.len() as int);
                assert(spec_endpoints(all).take(all.len() as int) =~= spec_endpoints(all));
                lemma_degree_concat(edges, pr, x);
                assert((spec_degree(edges, x) + spec_degree(pr, x)) % 2 == 0);
            }
        }
    }
    eg
}

/// `Graph::raw_edges()[i]` of a point graph: the indices of its source and target nodes.
#[verifier::external_body]
fn point_graph_edge(g: &PointGraph, i: usize) -> (e: (usize, usize))
    requires
        i < point_graph_edges(*g).len(),
    ensures
        e == point_graph_edges(*g)[i as int],
{
    let e = &g.raw_edges()[i];
    (e.source().index(), e.target().index())
}

proof fn lemma_no_odd_nodes_iff_euler(c: Seq<usize>, edges: Seq<(usize, usize)>)
    ensures
        spec_odd_nodes(c, edges).len() == 0 <==> spec_is_euler_component(c, edges),
{
    lemma_odd_nodes_members(c, edges);
    let v = spec_odd_nodes(c, edges);
    if v.len() == 0 {
        assert forall|j: int| 0 <= j < c.len() implies #[trigger] spec_degree(edges, c[j] as int) % 2 == 0 by {
            if spec_degree(edges, c[j] as int) % 2 == 1 {
                assert(v.contains(c[j]));
            }
        }
    } else {
        assert(c.contains(v[0]));
        let j = choose|j: int| 0 <= j < c.len() && c[j] == v[0];
        assert(spec_degree(edges, c[j] as int) % 2 == 1);
    }
}

proof fn lemma_blank_pairs_grow(ccs: Seq<Seq<usize>>, edges: Seq<(usize, usize)>, k: int, l: int)
    requires
        0 <= k <= l <= ccs.len(),
    ensures
        spec_blank_pairs(ccs, edges, k).len() <= spec_blank_pairs(ccs, edges, l).len(),
    decreases l - k,
{
    if k < l {
        lemma_blank_pairs_grow(ccs, edges, k, l - 1);
    }
}

/// `point_graph_to_euler_graph` where the point graph meets what it asks for, and `None`
/// otherwise: every edge joins two of its nodes, each component has an even number of
/// odd-degree nodes, and the lit and blank edges together stay below `u32::MAX`.
pub fn checked_point_graph_to_euler_graph(pg: &PointGraph) -> (r: Option<EulerGraph>)
    ensures
        r is Some <==> (spec_edges_valid(point_graph_nodes(*pg).len() as int, point_graph_edges(*pg))
            && spec_odd_counts_even(point_graph_edges(*pg), point_graph_components(*pg))
            && point_graph_edges(*pg).len() + spec_euler_blanks(*pg).len() < u32::MAX),
        r matches Some(eg) ==> euler_graph_nodes(eg) == point_graph_nodes(*pg)
            && euler_graph_edges(eg) == spec_lit_edges(point_graph_edges(*pg)) + spec_blank_edges(
            spec_euler_blanks(*pg),
        ),
{
    let ghost edges = point_graph_edges(*pg);
    let ghost node_count = point_graph_nodes(*pg).len() as int;
    let ghost comps = point_graph_components(*pg);
    let nodes = point_graph_node_count(pg);
    let edge_count = point_graph_edge_count(pg);
    let mut e: usize = 0;
    while e < edge_count
        invariant
            e <= edge_count,
            edge_count == edges.len(),
            nodes == node_count,
            edges == point_graph_edges(*pg),
            node_count == point_graph_nodes(*pg).len(),
            forall|i: int| 0 <= i < e ==> #[trigger] edges[i].0 < node_count && edges[i].1 < node_count,
        decreases edge_count - e,
    {
        let (a, b) = point_graph_edge(pg, e);
        if a >= nodes || b >= nodes {
            return None;
        }
        e = e + 1;
    }
    assert(spec_edges_valid(node_count, edges));
    let ccs = point_graph_kosaraju_scc(pg);
    proof {
        assert(spec_nested_view(ccs@) =~= comps);
    }
    if edge_count as u64 >= u32::MAX as u64 {
        return None;
    }
    let n = ccs.len();
    let mut count: u64 = 0;
    let mut i: usize = 0;
    while i < n
        invariant
            i <= n,
            n == ccs@.len(),
            ccs@.len() == comps.len(),
            forall|k: int| 0 <= k < ccs@.len() ==> #[trigger] ccs@[k]@ == comps[k],
            spec_components_partition(node_count, edges, comps),
            node_count == point_graph_nodes(*pg).len(),
            edges == point_graph_edges(*pg),
            comps == point_graph_components(*pg),
            edge_count == edges.len(),
            forall|k: int| 0 <= k < i ==> #[trigger] spec_odd_nodes(comps[k], edges).len() % 2 == 0,
            count == spec_blank_pairs(comps, edges, i as int).len(),
            edge_count + count < u32::MAX,
        decreases n - i,
    {
        let cc = &ccs[i];
        proof {
            assert forall|j: int| 0 <= j < cc@.len() implies #[trigger] cc@[j] < point_graph_nodes(*pg).len() by {
                assert(comps[i as int][j] < node_count);
            }
        }
        let v = odd_nodes(pg, cc);
        if v.len() % 2 != 0 {
            proof {
                assert(!spec_odd_counts_even(edges, comps)) by {
                    assert(spec_odd_nodes(comps[i as int], edges).len() % 2 != 0);
                }
            }
            return None;
        }
        let chunk: u64 = if v.len() == 0 {
            0
        } else {
            ((v.len() - 2) / 2) as u64
        };
        let link: u64 = if i + 1 < n || i > 0 {
            1
        } else if v.len() == 0 {
            0
        } else {
            1
        };
        proof {
            let c = comps[i as int];
            lemma_no_odd_nodes_iff_euler(c, edges);
            if v.len() > 0 && i == 0 {
                lemma_no_odd_nodes_iff_euler(comps[0], edges);
            }
            let t = spec_to_connect(c, edges);
            if v.len() > 0 {
                assert(t.1.len() == v@.len() - 2);
            }
            assert(spec_chunk_pairs(t.1).len() == chunk);
            assert(spec_component_pairs(comps, edges, i as int).len() == chunk + link);
            assert(spec_blank_pairs(comps, edges, i + 1) == spec_blank_pairs(comps, edges, i as int)
                + spec_component_pairs(comps, edges, i as int));
        }
        if chunk + link >= (u32::MAX as u64) - (edge_count as u64) - count {
            proof {
                lemma_blank_pairs_grow(comps, edges, i + 1, comps.len() as int);
            }
            return None;
        }
        count = count + chunk + link;
        i = i + 1;
    }
    assert(spec_odd_counts_even(edges, comps));
    Some(point_graph_to_euler_graph(pg))
}

// ---------------------------------------------------------------------------------------------
// Euler circuit

/// A type used to represent a directed graph describing a euler circuit.
pub type EulerCircuit = Graph<Point, SegmentKind, Directed, u32>;

/// The node weights of an Euler circuit, in index order.
pub uninterp spec fn euler_circuit_nodes(g: EulerCircuit) -> Seq<Point>;

/// The edges of an Euler circuit, in index order.
pub uninterp spec fn euler_circuit_edges(g: EulerCircuit) -> Seq<EulerEdge>;

/// The edges that `Graph::edges(n)` yields on an undirected Euler graph, in petgraph's order,
/// each as its edge index and the endpoint other than `n`.
pub uninterp spec fn euler_graph_edges_at(g: EulerGraph, n: usize) -> Seq<(usize, usize)>;

/// Whether edge `e` touches node `n`.
pub open spec fn spec_touches(e: EulerEdge, n: int) -> bool {
    e.0 == n || e.1 == n
}

/// The endpoint of `e` other than `n` (`n` itself for a self-loop).
pub open spec fn spec_other_end(e: EulerEdge, n: int) -> int {
    if e.0 == n {
        e.1 as int
    } else {
        e.0 as int
    }
}

/// Every edge joins two existing nodes.
pub open spec fn spec_euler_edges_valid(node_count: int, edges: Seq<EulerEdge>) -> bool {
    forall|i: int| 0 <= i < edges.len() ==> (#[trigger] edges[i]).0 < node_count && edges[i].1 < node_count
}

/// `Graph::node_count` of an Euler graph; with `u32` indices petgraph never holds more than
/// `u32::MAX` nodes.
#[verifier::external_body]
fn euler_graph_node_count(g: &EulerGraph) -> (r: usize)
    ensures
        r == euler_graph_nodes(*g).len(),
        r <= u32::MAX,
{
    g.node_count()
}

/// `Graph::edge_count` of an Euler graph; with `u32` indices petgraph never holds more than
/// `u32::MAX` edges.
#[verifier::external_body]
fn euler_graph_edge_count(g: &EulerGraph) -> (r: usize)
    ensures
        r == euler_graph_edges(*g).len(),
        r <= u32::MAX,
{
    g.edge_count()
}

/// `Graph::raw_edges()[i]` of an Euler graph: its source, target and kind.
#[verifier::external_body]
fn euler_graph_edge(g: &EulerGraph, i: usize) -> (e: EulerEdge)
    requires
        i < euler_graph_edges(*g).len(),
    ensures
        e == euler_graph_edges(*g)[i as int],
{
    let e = &g.raw_edges()[i];
    (e.source().index(), e.target().index(), e.weight)
}

/// `Graph::raw_nodes()[i].weight` of an Euler graph.
#[verifier::external_body]
fn euler_graph_node(g: &EulerGraph, i: usize) -> (p: Point)
    requires
        i < euler_graph_nodes(*g).len(),
    ensures
        p == euler_graph_nodes(*g)[i as int],
{
    g.raw_nodes()[i].weight
}

/// `Graph::edges(n)` on an undirected Euler graph, each edge given by its index and the endpoint
/// other than `n`.
///
/// petgraph yields every edge touching `n` once (a self-loop once, from the outgoing list),
/// reporting `n` as its source.
#[verifier::external_body]
fn euler_graph_edges_of(g: &EulerGraph, n: usize) -> (r: Vec<(usize, usize)>)
    requires
        n < euler_graph_nodes(*g).len(),
    ensures
        r@ == euler_graph_edges_at(*g, n),
        forall|k: int|
            0 <= k < r@.len() ==> #[trigger] r@[k].0 < euler_graph_edges(*g).len() && spec_touches(
                euler_graph_edges(*g)[r@[k].0 as int],
                n as int,
            ) && r@[k].1 == spec_other_end(euler_graph_edges(*g)[r@[k].0 as int], n as int),
        forall|e: int|
            0 <= e < euler_graph_edges(*g).len() && spec_touches(
                #[trigger] euler_graph_edges(*g)[e],
                n as int,
            ) ==> exists|k: int| 0 <= k < r@.len() && r@[k].0 == e,
        forall|k: int, l: int| 0 <= k < l < r@.len() ==> r@[k].0 != r@[l].0,
{
    g.edges(NodeIndex::new(n)).map(|e| (e.id().index(), e.target().index())).collect()
}

/// `Graph::with_capacity` for an Euler circuit: no nodes and no edges.
#[verifier::external_body]
fn euler_circuit_with_capacity(nodes: usize, edges: usize) -> (g: EulerCircuit)
    ensures
        euler_circuit_nodes(g) == Seq::<Point>::empty(),
        euler_circuit_edges(g) == Seq::<EulerEdge>::empty(),
{
    EulerCircuit::with_capacity(nodes, edges)
}

/// `Graph::add_node` on an Euler circuit.
#[verifier::external_body]
fn euler_circuit_add_node(g: &mut EulerCircuit, p: Point)
    requires
        euler_circuit_nodes(*old(g)).len() < u32::MAX,
    ensures
        euler_circuit_nodes(*final(g)) == euler_circuit_nodes(*old(g)).push(p),
        euler_circuit_edges(*final(g)) == euler_circuit_edges(*old(g)),
{
    g.add_node(p);
}

/// `Graph::add_edge` on an Euler circuit.
#[verifier::external_body]
fn euler_circuit_add_edge(g: &mut EulerCircuit, e: EulerEdge)
    requires
        e.0 < euler_circuit_nodes(*old(g)).len(),
        e.1 < euler_circuit_nodes(*old(g)).len(),
        euler_circuit_edges(*old(g)).len() < u32::MAX,
    ensures
        euler_circuit_nodes(*final(g)) == euler_circuit_nodes(*old(g)),
        euler_circuit_edges(*final(g)) == euler_circuit_edges(*old(g)).push(e),
{
    g.add_edge(NodeIndex::new(e.0), NodeIndex::new(e.1), e.2);
}

/// `Graph::map` followed by `into_edge_type`: the same nodes and edges, now directed.
#[verifier::external_body]
fn euler_circuit_from_graph(g: &EulerGraph) -> (ec: EulerCircuit)
    ensures
        euler_circuit_nodes(ec) == euler_graph_nodes(*g),
        euler_circuit_edges(ec) == euler_graph_edges(*g),
{
    g.map(|_ni, nw| *nw, |_ei, ew| *ew).into_edge_type()
}

/// The number of edges among the first `k` that are not self-loops, touch `n` and are not in
/// `visited`.
pub open spec fn spec_free_degree(edges: Seq<EulerEdge>, visited: Set<usize>, n: int, k: int) -> nat
    decreases k,
{
    if k <= 0 || k > edges.len() {
        0
    } else {
        spec_free_degree(edges, visited, n, k - 1) + if !visited.contains((k - 1) as usize)
            && edges[k - 1].0 != edges[k - 1].1 && spec_touches(edges[k - 1], n) {
            1nat
        } else {
            0nat
        }
    }
}

/// The number of indices below `k` that are not in `visited`.
pub open spec fn spec_unvisited_count(visited: Set<usize>, k: int) -> nat
    decreases k,
{
    if k <= 0 {
        0
    } else {
        spec_unvisited_count(visited, k - 1) + if visited.contains((k - 1) as usize) {
            0nat
        } else {
            1nat
        }
    }
}

/// Every node has an even number of unvisited edges that are not self-loops.
pub open spec fn spec_free_degrees_even(edges: Seq<EulerEdge>, visited: Set<usize>) -> bool {
    forall|n: int| #[trigger] spec_free_degree(edges, visited, n, edges.len() as int) % 2 == 0
}

proof fn lemma_free_degree_insert(edges: Seq<EulerEdge>, visited: Set<usize>, e: usize, n: int, k: int)
    requires
        0 <= k <= edges.len(),
        k <= usize::MAX,
        e < edges.len(),
        !visited.contains(e),
    ensures
        spec_free_degree(edges, visited.insert(e), n, k) + (if e < k && edges[e as int].0
            != edges[e as int].1 && spec_touches(edges[e as int], n) {
            1nat
        } else {
            0nat
        }) == spec_free_degree(edges, visited, n, k),
    decreases k,
{
    if k > 0 {
        lemma_free_degree_insert(edges, visited, e, n, k - 1);
        let idx = (k - 1) as usize;
        assert(idx as int == k - 1);
        assert(visited.insert(e).contains(idx) == (visited.contains(idx) || idx == e));
    }
}

proof fn lemma_free_degree_witness(edges: Seq<EulerEdge>, visited: Set<usize>, n: int, k: int)
    requires
        0 <= k <= edges.len(),
        spec_free_degree(edges, visited, n, k) > 0,
    ensures
        exists|i: int|
            0 <= i < k && !visited.contains(i as usize) && edges[i].0 != edges[i].1 && spec_touches(
                #[trigger] edges[i],
                n,
            ),
    decreases k,
{
    if k > 0 {
        if spec_free_degree(edges, visited, n, k - 1) > 0 {
            lemma_free_degree_witness(edges, visited, n, k - 1);
        } else {
            let i = k - 1;
            assert(!visited.contains(i as usize) && edges[i].0 != edges[i].1 && spec_touches(
                edges[i],
                n,
            ));
        }
    }
}

proof fn lemma_free_degree_empty(edges: Seq<EulerEdge>, n: int, k: int)
    requires
        0 <= k <= edges.len(),
    ensures
        spec_free_degree(edges, Set::<usize>::empty(), n, k) == spec_non_loop_degree(edges, n, k),
    decreases k,
{
    if k > 0 {
        lemma_free_degree_empty(edges, n, k - 1);
    }
}

/// The number of edges among the first `k` that are not self-loops and touch `n`.
pub open spec fn spec_non_loop_degree(edges: Seq<EulerEdge>, n: int, k: int) -> nat
    decreases k,
{
    if k <= 0 || k > edges.len() {
        0
    } else {
        spec_non_loop_degree(edges, n, k - 1) + if edges[k - 1].0 != edges[k - 1].1 && spec_touches(
            edges[k - 1],
            n,
        ) {
            1nat
        } else {
            0nat
        }
    }
}

proof fn lemma_unvisited_insert(visited: Set<usize>, e: usize, k: int)
    requires
        !visited.contains(e),
        0 <= k <= usize::MAX,
    ensures
        spec_unvisited_count(visited.insert(e), k) + (if e < k {
            1nat
        } else {
            0nat
        }) == spec_unvisited_count(visited, k),
    decreases k,
{
    if k > 0 {
        lemma_unvisited_insert(visited, e, k - 1);
        let idx = (k - 1) as usize;
        assert(idx as int == k - 1);
        assert(visited.insert(e).contains(idx) == (visited.contains(idx) || idx == e));
    }
}

/// Whether `order` lists distinct edge indices of `edges` whose consecutive edges form a walk
/// from `start` back to `start`.
pub open spec fn spec_closed_trail(edges: Seq<EulerEdge>, order: Seq<usize>, walk: Seq<int>, start: int) -> bool {
    &&& walk.len() == order.len() + 1
    &&& walk[0] == start
    &&& walk.last() == start
    &&& forall|k: int| 0 <= k < order.len() ==> #[trigger] order[k] < edges.len()
    &&& forall|k: int|
        0 <= k < order.len() ==> spec_touches(edges[order[k] as int], #[trigger] walk[k]) && walk[k + 1]
            == spec_other_end(edges[order[k] as int], walk[k])
}

/// Whether no index occurs twice in `order`.
pub open spec fn spec_distinct(order: Seq<usize>) -> bool {
    forall|k: int, l: int| 0 <= k < l < order.len() ==> order[k] != order[l]
}

/// Whether `f` gives one cost for each turn: two calls with the same arguments return the same.
pub open spec fn spec_cost_deterministic<F: Fn(usize, usize, usize) -> u32>(f: F) -> bool {
    forall|a: usize, b: usize, c: usize, r1: u32, r2: u32|
        #![trigger call_ensures(f, (a, b, c), r1), call_ensures(f, (a, b, c), r2)]
        call_ensures(f, (a, b, c), r1) && call_ensures(f, (a, b, c), r2) ==> r1 == r2
}

/// The cost that `f` returns for the turn from `a` through `b` to `c`.
pub open spec fn spec_turn_cost<F: Fn(usize, usize, usize) -> u32>(f: F, a: usize, b: usize, c: usize) -> u32 {
    choose|r: u32| call_ensures(f, (a, b, c), r)
}

proof fn lemma_turn_cost<F: Fn(usize, usize, usize) -> u32>(f: F, a: usize, b: usize, c: usize, r: u32)
    requires
        spec_cost_deterministic(f),
        call_ensures(f, (a, b, c), r),
    ensures
        spec_turn_cost(f, a, b, c) == r,
{
    let r2 = spec_turn_cost(f, a, b, c);
    assert(call_ensures(f, (a, b, c), r2));
}

/// Whether `cands[c]` is the edge that a traversal takes at node `n` when the edges in `vis` are
/// already traversed: with no previous edge, the first untraversed candidate; after the edge
/// `prev`, the untraversed candidate whose turn from the source of `prev` through `n` costs
/// least, the first of them on a tie.
pub open spec fn spec_greedy_pick<F: Fn(usize, usize, usize) -> u32>(
    f: F,
    edges: Seq<EulerEdge>,
    cands: Seq<(usize, usize)>,
    n: usize,
    prev: Option<usize>,
    vis: Set<usize>,
    c: int,
) -> bool {
    &&& 0 <= c < cands.len()
    &&& !vis.contains(cands[c].0)
    &&& match prev {
        None => forall|j: int| 0 <= j < c ==> vis.contains(#[trigger] cands[j].0),
        Some(p) => forall|j: int|
            0 <= j < cands.len() && !vis.contains(#[trigger] cands[j].0) ==> spec_turn_cost(
                f,
                edges[p as int].0,
                n,
                cands[j].1,
            ) >= spec_turn_cost(f, edges[p as int].0, n, cands[c].1) && (j < c ==> spec_turn_cost(
                f,
                edges[p as int].0,
                n,
                cands[j].1,
            ) > spec_turn_cost(f, edges[p as int].0, n, cands[c].1)),
    }
}

/// The edge of `t` before its `k`th, if there is one.
pub open spec fn spec_prev_edge(t: Seq<usize>, k: int) -> Option<usize> {
    if k == 0 {
        None
    } else {
        Some(t[k - 1])
    }
}

/// Whether the `k`th edge of the trail `t`, walked along `w`, is the pick at its node given the
/// edges of `vis` and the edges of `t` before it.
pub open spec fn spec_picked_at<F: Fn(usize, usize, usize) -> u32>(
    f: F,
    eg: EulerGraph,
    vis: Set<usize>,
    t: Seq<usize>,
    w: Seq<int>,
    k: int,
) -> bool {
    exists|c: int|
        euler_graph_edges_at(eg, w[k] as usize)[c].0 == t[k] && #[trigger] spec_greedy_pick(
            f,
            euler_graph_edges(eg),
            euler_graph_edges_at(eg, w[k] as usize),
            w[k] as usize,
            spec_prev_edge(t, k),
            vis.union(t.take(k).to_set()),
            c,
        )
}

/// Whether every edge of the trail `t`, walked along `w`, is the pick at its node: the trail that
/// a traversal makes when the edges of `vis` are already traversed.
pub open spec fn spec_greedy_traversal<F: Fn(usize, usize, usize) -> u32>(
    f: F,
    eg: EulerGraph,
    vis: Set<usize>,
    t: Seq<usize>,
    w: Seq<int>,
) -> bool {
    forall|k: int| 0 <= k < t.len() ==> #[trigger] spec_picked_at(f, eg, vis, t, w, k)
}

proof fn lemma_greedy_push<F: Fn(usize, usize, usize) -> u32>(
    f: F,
    eg: EulerGraph,
    v0: Set<usize>,
    t: Seq<usize>,
    w: Seq<int>,
    e: usize,
    next: int,
    c: int,
    vis: Set<usize>,
)
    requires
        spec_greedy_traversal(f, eg, v0, t, w),
        w.len() == t.len() + 1,
        vis == v0.union(t.to_set()),
        0 <= w.last() <= usize::MAX,
        euler_graph_edges_at(eg, w.last() as usize)[c].0 == e,
        spec_greedy_pick(
            f,
            euler_graph_edges(eg),
            euler_graph_edges_at(eg, w.last() as usize),
            w.last() as usize,
            spec_prev_edge(t.push(e), t.len() as int),
            vis,
            c,
        ),
    ensures
        spec_greedy_traversal(f, eg, v0, t.push(e), w.push(next)),
{
    let t2 = t.push(e);
    let w2 = w.push(next);
    assert forall|q: int| 0 <= q < t2.len() implies #[trigger] spec_picked_at(f, eg, v0, t2, w2, q) by {
        if q < t.len() {
            assert(t2.take(q) =~= t.take(q));
            assert(w2[q] == w[q]);
            assert(spec_picked_at(f, eg, v0, t, w, q));
            let c2 = choose|c2: int|
                euler_graph_edges_at(eg, w[q] as usize)[c2].0 == t[q] && #[trigger] spec_greedy_pick(
                    f,
                    euler_graph_edges(eg),
                    euler_graph_edges_at(eg, w[q] as usize),
                    w[q] as usize,
                    spec_prev_edge(t, q),
                    v0.union(t.take(q).to_set()),
                    c2,
                );
            assert(spec_prev_edge(t2, q) == spec_prev_edge(t, q));
            assert(t2[q] == t[q]);
        } else {
            assert(t2.take(q) =~= t);
            assert(w2[q] == w.last());
        }
    }
}

/// A traversal through unvisited edges of the graph starting from `start`, choosing at each
/// node the untraversed edge with the smallest turn cost.
///
/// Traversal ends when `start` is reached again. The returned `Vec` contains the index of each
/// edge traversed.
fn traverse_unvisited<F>(start: usize, eg: &EulerGraph, visited: &mut IndexSet, turn_cost: &F) -> (traversal: Vec<usize>)
    where
        F: Fn(usize, usize, usize) -> u32,
    requires
        start < euler_graph_nodes(*eg).len(),
        spec_euler_edges_valid(euler_graph_nodes(*eg).len() as int, euler_graph_edges(*eg)),
        spec_free_degrees_even(euler_graph_edges(*eg), index_set_contents(*old(visited))),
        exists|i: int|
            0 <= i < euler_graph_edges(*eg).len() && !index_set_contents(*old(visited)).contains(
                i as usize,
            ) && spec_touches(#[trigger] euler_graph_edges(*eg)[i], start as int),
        forall|a: usize, b: usize, c: usize| turn_cost.requires((a, b, c)),
        spec_cost_deterministic(*turn_cost),
    ensures
        traversal@.len() > 0,
        spec_distinct(traversal@),
        forall|k: int|
            0 <= k < traversal@.len() ==> !index_set_contents(*old(visited)).contains(
                #[trigger] traversal@[k],
            ),
        index_set_contents(*final(visited)) == index_set_contents(*old(visited)).union(
            traversal@.to_set(),
        ),
        spec_free_degrees_even(euler_graph_edges(*eg), index_set_contents(*final(visited))),
        exists|walk: Seq<int>|
            spec_closed_trail(euler_graph_edges(*eg), traversal@, walk, start as int)
                && spec_greedy_traversal(*turn_cost, *eg, index_set_contents(*old(visited)), traversal@, walk),
        spec_unvisited_count(index_set_contents(*final(visited)), euler_graph_edges(*eg).len() as int)
            + traversal@.len() == spec_unvisited_count(
            index_set_contents(*old(visited)),
            euler_graph_edges(*eg).len() as int,
        ),
{
    let ghost edges = euler_graph_edges(*eg);
    let ghost nc = euler_graph_nodes(*eg).len() as int;
    let ghost v0 = index_set_contents(*visited);
    let ghost mut walk: Seq<int> = seq![start as int];
    let edge_count = euler_graph_edge_count(eg);
    let mut n = start;
    let mut traversal: Vec<usize> = Vec::new();
    loop
        invariant_except_break
            n < nc,
            traversal@.len() == 0 ==> n == start,
            traversal@.len() > 0 ==> n != start,
            traversal@.len() == 0 ==> exists|i: int|
                0 <= i < edges.len() && !index_set_contents(*visited).contains(i as usize)
                    && spec_touches(#[trigger] edges[i], start as int),
            forall|x: int|
                #[trigger] spec_free_degree(edges, index_set_contents(*visited), x, edges.len() as int)
                    % 2 == (if traversal@.len() > 0 && (x == n || x == start) {
                    1int
                } else {
                    0int
                }),
            walk.len() == traversal@.len() + 1,
            walk[0] == start,
            walk.last() == n,
        invariant
            edges == euler_graph_edges(*eg),
            edge_count == edges.len(),
            nc == euler_graph_nodes(*eg).len(),
            spec_euler_edges_valid(nc, edges),
            forall|a: usize, b: usize, c: usize| turn_cost.requires((a, b, c)),
            spec_cost_deterministic(*turn_cost),
            spec_greedy_traversal(*turn_cost, *eg, v0, traversal@, walk),
            spec_distinct(traversal@),
            forall|k: int|
                0 <= k < traversal@.len() ==> !v0.contains(#[trigger] traversal@[k]),
            index_set_contents(*visited) == v0.union(traversal@.to_set()),
            forall|k: int| 0 <= k < traversal@.len() ==> #[trigger] traversal@[k] < edges.len(),
            forall|k: int|
                0 <= k < traversal@.len() ==> spec_touches(
                    edges[traversal@[k] as int],
                    #[trigger] walk[k],
                ) && walk[k + 1] == spec_other_end(edges[traversal@[k] as int], walk[k]),
            spec_unvisited_count(index_set_contents(*visited), edges.len() as int) + traversal@.len()
                == spec_unvisited_count(v0, edges.len() as int),
        ensures
            traversal@.len() > 0,
            walk.len() == traversal@.len() + 1,
            walk[0] == start,
            walk.last() == start,
            spec_free_degrees_even(edges, index_set_contents(*visited)),
        decreases spec_unvisited_count(index_set_contents(*visited), edges.len() as int),
    {
        let ghost vis = index_set_contents(*visited);
        // Find an edge that hasn't yet been traversed.
        proof {
            if traversal@.len() > 0 {
                assert(spec_free_degree(edges, vis, n as int, edges.len() as int) % 2 == 1);
                lemma_free_degree_witness(edges, vis, n as int, edges.len() as int);
            }
        }
        let cands = euler_graph_edges_of(eg, n);
        let ghost witness_k = {
            let i = choose|i: int|
                0 <= i < edges.len() && !vis.contains(i as usize) && spec_touches(
                    #[trigger] edges[i],
                    n as int,
                );
            choose|k: int| 0 <= k < cands@.len() && cands@[k].0 == i
        };
        let mut k: usize = 0;
        while k < cands.len() && index_set_contains(visited, cands[k].0)
            invariant
                k <= cands@.len(),
                0 <= witness_k < cands@.len(),
                !vis.contains(cands@[witness_k].0),
                index_set_contents(*visited) == vis,
                forall|j: int| 0 <= j < k ==> vis.contains(#[trigger] cands@[j].0),
            decreases cands.len() - k,
        {
            k = k + 1;
        }
        assert(k < cands@.len()) by {
            if k >= cands@.len() {
                assert(vis.contains(cands@[witness_k].0));
            }
        }
        let mut best_e = cands[k].0;
        let mut best_t = cands[k].1;
        let ghost mut best_k: int = k as int;
        if traversal.len() > 0 {
            // Retrieve the three nodes used to determine the turn.
            let last = traversal[traversal.len() - 1];
            let prev_source = euler_graph_edge(eg, last).0;
            let mut best_cost = turn_cost(prev_source, n, best_t);
            proof {
                lemma_turn_cost(*turn_cost, prev_source, n, best_t, best_cost);
            }
            let mut j = k + 1;
            while j < cands.len()
                invariant
                    k < j <= cands@.len(),
                    k <= best_k < j,
                    best_e == cands@[best_k].0,
                    best_t == cands@[best_k].1,
                    !vis.contains(best_e),
                    index_set_contents(*visited) == vis,
                    forall|a: usize, b: usize, c: usize| turn_cost.requires((a, b, c)),
                    spec_cost_deterministic(*turn_cost),
                    best_cost == spec_turn_cost(*turn_cost, prev_source, n, cands@[best_k].1),
                    forall|i: int|
                        k <= i < j && !vis.contains(#[trigger] cands@[i].0) ==> spec_turn_cost(
                            *turn_cost,
                            prev_source,
                            n,
                            cands@[i].1,
                        ) >= best_cost && (i < best_k ==> spec_turn_cost(
                            *turn_cost,
                            prev_source,
                            n,
                            cands@[i].1,
                        ) > best_cost),
                decreases cands.len() - j,
            {
                if !index_set_contains(visited, cands[j].0) {
                    let cost = turn_cost(prev_source, n, cands[j].1);
                    proof {
                        lemma_turn_cost(*turn_cost, prev_source, n, cands@[j as int].1, cost);
                    }
                    if cost < best_cost {
                        best_cost = cost;
                        best_e = cands[j].0;
                        best_t = cands[j].1;
                        proof {
                            best_k = j as int;
                        }
                    }
                }
                j = j + 1;
            }
            proof {
                assert(spec_greedy_pick(*turn_cost, edges, cands@, n, Some(last), vis, best_k)) by {
                    assert forall|i: int|
                        0 <= i < cands@.len() && !vis.contains(#[trigger] cands@[i].0) implies spec_turn_cost(
                            *turn_cost,
                            edges[last as int].0,
                            n,
                            cands@[i].1,
                        ) >= spec_turn_cost(*turn_cost, edges[last as int].0, n, cands@[best_k].1) && (i
                            < best_k ==> spec_turn_cost(*turn_cost, edges[last as int].0, n, cands@[i].1)
                            > spec_turn_cost(*turn_cost, edges[last as int].0, n, cands@[best_k].1)) by {
                        if i < k {
                            assert(vis.contains(cands@[i].0));
                        }
                    }
                }
            }
        }
        assert(spec_greedy_pick(
            *turn_cost,
            edges,
            cands@,
            n,
            spec_prev_edge(traversal@.push(best_e), traversal@.len() as int),
            vis,
            best_k,
        ));
        // Add the edge into our visitation record.
        let ghost e_edge = edges[best_e as int];
        proof {
            assert(cands@[best_k].0 < edges.len());
            lemma_unvisited_insert(vis, best_e, edges.len() as int);
            assert forall|x: int| true implies #[trigger] spec_free_degree(
                edges,
                vis.insert(best_e),
                x,
                edges.len() as int,
            ) + (if e_edge.0 != e_edge.1 && spec_touches(e_edge, x) {
                1nat
            } else {
                0nat
            }) == spec_free_degree(edges, vis, x, edges.len() as int) by {
                lemma_free_degree_insert(edges, vis, best_e, x, edges.len() as int);
            }
            assert(!traversal@.contains(best_e)) by {
                if traversal@.contains(best_e) {
                    assert(vis.contains(best_e));
                }
            }
            assert(!v0.contains(best_e));
        }
        index_set_insert(visited, best_e);
        let ghost old_traversal = traversal@;
        traversal.push(best_e);
        proof {
            assert(index_set_contents(*visited) =~= v0.union(traversal@.to_set())) by {
                assert forall|x: usize| traversal@.to_set().contains(x) <==> (old_traversal.to_set().contains(x) || x == best_e) by {
                    if traversal@.to_set().contains(x) {
                        let k = choose|k: int| 0 <= k < traversal@.len() && traversal@[k] == x;
                        if k < old_traversal.len() {
                            assert(old_traversal[k] == x);
                        }
                    }
                    if old_traversal.to_set().contains(x) {
                        let k = choose|k: int| 0 <= k < old_traversal.len() && old_traversal[k] == x;
                        assert(traversal@[k] == x);
                    }
                    if x == best_e {
                        assert(traversal@[old_traversal.len() as int] == x);
                    }
                }
            }
            assert forall|a: int, b: int| 0 <= a < b < traversal@.len() implies traversal@[a] != traversal@[b] by {
                if b == old_traversal.len() {
                    assert(old_traversal.contains(old_traversal[a]));
                }
            }
            let ghost old_walk = walk;
            walk = walk.push(best_t as int);
            lemma_greedy_push(*turn_cost, *eg, v0, old_traversal, old_walk, best_e, best_t as int, best_k, vis);
            assert(traversal@ == old_traversal.push(best_e));
            assert forall|k: int|
                0 <= k < traversal@.len() implies spec_touches(
                    edges[traversal@[k] as int],
                    #[trigger] walk[k],
                ) && walk[k + 1] == spec_other_end(edges[traversal@[k] as int], walk[k]) by {
                if k < old_traversal.len() {
                    assert(traversal@[k] == old_traversal[k]);
                }
            }
        }
        // If this edge brings us back to the start, we have finished this traversal.
        if best_t == start {
            break;
        }
        n = best_t;
    }
    proof {
        assert(spec_closed_trail(edges, traversal@, walk, start as int));
    }
    traversal
}

/// Whether some edge not in `visited` touches node `n`, by walking `Graph::edges(n)`.
#[verifier::loop_isolation(false)]
fn has_unvisited_edge(eg: &EulerGraph, n: usize, visited: &IndexSet) -> (r: bool)
    requires
        n < euler_graph_nodes(*eg).len(),
    ensures
        r == exists|i: int|
            0 <= i < euler_graph_edges(*eg).len() && !index_set_contents(*visited).contains(
                i as usize,
            ) && spec_touches(#[trigger] euler_graph_edges(*eg)[i], n as int),
{
    let cands = euler_graph_edges_of(eg, n);
    let mut k: usize = 0;
    while k < cands.len()
        invariant
            k <= cands@.len(),
            forall|j: int| 0 <= j < k ==> index_set_contents(*visited).contains(#[trigger] cands@[j].0),
        decreases cands.len() - k,
    {
        if !index_set_contains(visited, cands[k].0) {
            proof {
                let i = cands@[k as int].0 as int;
                assert(spec_touches(euler_graph_edges(*eg)[i], n as int));
                assert(i as usize == cands@[k as int].0);
            }
            return true;
        }
        k = k + 1;
    }
    proof {
        assert forall|i: int|
            0 <= i < euler_graph_edges(*eg).len() && spec_touches(
                #[trigger] euler_graph_edges(*eg)[i],
                n as int,
            ) implies index_set_contents(*visited).contains(i as usize) by {
            let j = choose|j: int| 0 <= j < cands@.len() && cands@[j].0 == i;
            assert(index_set_contents(*visited).contains(cands@[j].0));
        }
    }
    false
}

/// The walk as a sequence of integers.
pub open spec fn spec_walk_ints(walk: Seq<usize>) -> Seq<int> {
    walk.map_values(|x: usize| x as int)
}

/// Whether `order` and `walk` describe an Euler circuit of `edges` from node 0: distinct edges,
/// at least one, each joining consecutive nodes of a walk that starts and ends at node 0, and
/// every edge touching a node of the walk is in the circuit.
pub open spec fn spec_euler_circuit(edges: Seq<EulerEdge>, order: Seq<usize>, walk: Seq<usize>) -> bool {
    &&& order.len() > 0
    &&& spec_distinct(order)
    &&& spec_closed_trail(edges, order, spec_walk_ints(walk), 0)
    &&& forall|j: int, i: int|
        0 <= j < walk.len() && 0 <= i < edges.len() && spec_touches(
            #[trigger] edges[i],
            #[trigger] walk[j] as int,
        ) ==> order.contains(i as usize)
}

/// The circuit's edges: the `k`th joins the walk's `k`th node to its next, with the kind of the
/// `k`th edge of the order.
pub open spec fn spec_walk_edges(edges: Seq<EulerEdge>, order: Seq<usize>, walk: Seq<usize>) -> Seq<EulerEdge> {
    Seq::new(order.len(), |k: int| (walk[k], walk[k + 1], edges[order[k] as int].2))
}

/// A traversal of the circuit's construction: where it was spliced into the visiting order, the
/// node it started from, its edges and the nodes it walked.
pub type CircuitPart = (int, usize, Seq<usize>, Seq<int>);

/// The visiting order that splicing each part's edges, in turn, at its position gives.
pub open spec fn spec_splice_parts(parts: Seq<CircuitPart>) -> Seq<usize>
    decreases parts.len(),
{
    if parts.len() == 0 {
        Seq::empty()
    } else {
        let prev = spec_splice_parts(parts.drop_last());
        let p = parts.last();
        prev.take(p.0) + p.2 + prev.subrange(p.0, prev.len() as int)
    }
}

/// The edges of the first `i` parts.
pub open spec fn spec_parts_visited(parts: Seq<CircuitPart>, i: int) -> Set<usize>
    decreases i,
{
    if i <= 0 {
        Set::empty()
    } else {
        spec_parts_visited(parts, i - 1).union(parts[i - 1].2.to_set())
    }
}

/// Whether each part is a closed trail from its start, walked by picking at each node the
/// cheapest turn among the edges that no earlier part took; the first starts at node 0 and
/// opens the visiting order.
pub open spec fn spec_greedy_parts<F: Fn(usize, usize, usize) -> u32>(
    f: F,
    eg: EulerGraph,
    parts: Seq<CircuitPart>,
) -> bool {
    &&& parts.len() > 0
    &&& parts[0].0 == 0
    &&& parts[0].1 == 0
    &&& forall|i: int|
        0 <= i < parts.len() ==> spec_closed_trail(
            euler_graph_edges(eg),
            #[trigger] parts[i].2,
            parts[i].3,
            parts[i].1 as int,
        ) && spec_greedy_traversal(f, eg, spec_parts_visited(parts, i), parts[i].2, parts[i].3)
    &&& forall|p: int| 1 <= p < parts.len() ==> #[trigger] spec_spliced_at_first_open(eg, parts, p)
}

/// The walk that splicing each part's walk, in turn, at its position gives, starting from the
/// walk that stays at node 0.
pub open spec fn spec_splice_walk(parts: Seq<CircuitPart>) -> Seq<int>
    decreases parts.len(),
{
    if parts.len() == 0 {
        seq![0int]
    } else {
        let prev = spec_splice_walk(parts.drop_last());
        let p = parts.last();
        prev.take(p.0) + p.3.take(p.2.len() as int) + prev.subrange(p.0, prev.len() as int)
    }
}

/// Whether part `p` was spliced in at the first position of the walk so far whose node still had
/// an edge that no earlier part took, and started from that node.
pub open spec fn spec_spliced_at_first_open(eg: EulerGraph, parts: Seq<CircuitPart>, p: int) -> bool {
    let edges = euler_graph_edges(eg);
    let w = spec_splice_walk(parts.take(p));
    let vis = spec_parts_visited(parts, p);
    let m = parts[p].0;
    &&& 0 <= m < spec_splice_parts(parts.take(p)).len()
    &&& parts[p].1 as int == w[m]
    &&& exists|e: int| 0 <= e < edges.len() && !vis.contains(e as usize) && spec_touches(#[trigger] edges[e], w[m])
    &&& forall|j: int, e: int|
        0 <= j < m && 0 <= e < edges.len() && spec_touches(#[trigger] edges[e], #[trigger] w[j]) ==> vis.contains(
            e as usize,
        )
}

proof fn lemma_closed_trail_unique(edges: Seq<EulerEdge>, o: Seq<usize>, w1: Seq<int>, w2: Seq<int>, s: int)
    requires
        spec_closed_trail(edges, o, w1, s),
        spec_closed_trail(edges, o, w2, s),
    ensures
        w1 == w2,
{
    assert forall|k: int| 0 <= k < w1.len() implies w1[k] == w2[k] by {
        lemma_closed_trail_prefix(edges, o, w1, w2, s, k);
    }
    assert(w1 =~= w2);
}

proof fn lemma_closed_trail_prefix(edges: Seq<EulerEdge>, o: Seq<usize>, w1: Seq<int>, w2: Seq<int>, s: int, k: int)
    requires
        spec_closed_trail(edges, o, w1, s),
        spec_closed_trail(edges, o, w2, s),
        0 <= k < w1.len(),
    ensures
        w1[k] == w2[k],
    decreases k,
{
    if k > 0 {
        lemma_closed_trail_prefix(edges, o, w1, w2, s, k - 1);
        assert(w1[k] == spec_other_end(edges[o[k - 1] as int], w1[k - 1]));
        assert(w2[k] == spec_other_end(edges[o[k - 1] as int], w2[k - 1]));
    }
}

proof fn lemma_parts_visited_push(parts: Seq<CircuitPart>, x: CircuitPart, i: int)
    requires
        0 <= i <= parts.len(),
    ensures
        spec_parts_visited(parts.push(x), i) == spec_parts_visited(parts, i),
    decreases i,
{
    if i > 0 {
        lemma_parts_visited_push(parts, x, i - 1);
        assert(parts.push(x)[i - 1] == parts[i - 1]);
    }
}

/// Every node has an even number of edges that are not self-loops.
pub open spec fn spec_non_loop_degrees_even(edges: Seq<EulerEdge>) -> bool {
    forall|n: int| #[trigger] spec_non_loop_degree(edges, n, edges.len() as int) % 2 == 0
}

proof fn lemma_unvisited_empty(k: int)
    requires
        0 <= k,
    ensures
        spec_unvisited_count(Set::<usize>::empty(), k) == k,
    decreases k,
{
    if k > 0 {
        lemma_unvisited_empty(k - 1);
    }
}

/// Given a Euler Graph describing the vector image to be drawn, return the optimal Euler Circuit
/// describing the path over which the laser should travel.
///
/// This is Hierholzer's Algorithm with the amendment that during traversal of each vertex the edge
/// with the smallest `turn_cost(previous source, current node, next node)` is always chosen (the
/// first one on a tie), where the caller's cost measures the variance from a straight angle.
///
/// The circuit keeps the nodes of `eg`. With two nodes or more it starts at node 0 and lists
/// distinct edges of `eg`, each directed the way the walk takes it, until every edge touching a
/// node of the walk is in it; its order is the splicing of traversals, the first from node 0 and
/// each later one from the first node of the walk so far that still has an edge no traversal took,
/// spliced in there; each takes at every node the cheapest turn among the edges no traversal took
/// before.
/// With one node or none, the edges are copied as they are. The cost must be a function of the
/// turn: the same three nodes always cost the same.
#[verifier::rlimit(100)]
pub fn euler_graph_to_euler_circuit<F>(eg: &EulerGraph, turn_cost: &F) -> (ec: EulerCircuit)
    where
        F: Fn(usize, usize, usize) -> u32,
    requires
        spec_euler_edges_valid(euler_graph_nodes(*eg).len() as int, euler_graph_edges(*eg)),
        spec_non_loop_degrees_even(euler_graph_edges(*eg)),
        euler_graph_nodes(*eg).len() >= 2 ==> exists|i: int|
            0 <= i < euler_graph_edges(*eg).len() && spec_touches(
                #[trigger] euler_graph_edges(*eg)[i],
                0,
            ),
        forall|a: usize, b: usize, c: usize| turn_cost.requires((a, b, c)),
        spec_cost_deterministic(*turn_cost),
    ensures
        euler_circuit_nodes(ec) == euler_graph_nodes(*eg),
        euler_graph_nodes(*eg).len() <= 1 ==> euler_circuit_edges(ec) == euler_graph_edges(*eg),
        euler_graph_nodes(*eg).len() >= 2 ==> exists|
            order: Seq<usize>,
            walk: Seq<usize>,
            parts: Seq<CircuitPart>,
        |
            spec_euler_circuit(euler_graph_edges(*eg), order, walk) && euler_circuit_edges(ec)
                == spec_walk_edges(euler_graph_edges(*eg), order, walk) && order == spec_splice_parts(
                parts,
            ) && spec_greedy_parts(*turn_cost, *eg, parts),
{
    let ghost edges = euler_graph_edges(*eg);
    let node_count = euler_graph_node_count(eg);
    let edge_count = euler_graph_edge_count(eg);
    // If there is one or less nodes, there's no place for edges.
    if node_count == 0 || node_count == 1 {
        let ec = euler_circuit_from_graph(eg);
        return ec;
    }

    // Begin the traversals to build the circuit, starting at `v0`.
    let start_n: usize = 0;
    let mut visited = index_set_new();
    let mut visit_order: Vec<usize> = Vec::new();
    let mut walk: Vec<usize> = Vec::new();
    walk.push(start_n);
    let ghost mut parts: Seq<CircuitPart> = Seq::empty();
    proof {
        assert forall|n: int| #[trigger] spec_free_degree(edges, Set::<usize>::empty(), n, edges.len() as int) % 2 == 0 by {
            lemma_free_degree_empty(edges, n, edges.len() as int);
            assert(spec_non_loop_degree(edges, n, edges.len() as int) % 2 == 0);
        }
        lemma_unvisited_empty(edges.len() as int);
        assert(visit_order@.to_set() =~= Set::<usize>::empty());
        assert(spec_walk_ints(walk@) =~= seq![0int]);
    }
    loop
        invariant
            edges == euler_graph_edges(*eg),
            node_count == euler_graph_nodes(*eg).len(),
            edge_count == edges.len(),
            start_n == 0,
            node_count >= 2,
            node_count <= u32::MAX,
            edge_count <= u32::MAX,
            spec_euler_edges_valid(node_count as int, edges),
            node_count >= 2 ==> exists|i: int|
                0 <= i < edges.len() && spec_touches(#[trigger] edges[i], 0),
            forall|a: usize, b: usize, c: usize| turn_cost.requires((a, b, c)),
            spec_cost_deterministic(*turn_cost),
            visit_order@ == spec_splice_parts(parts),
            spec_walk_ints(walk@) == spec_splice_walk(parts),
            forall|p: int| 1 <= p < parts.len() ==> #[trigger] spec_spliced_at_first_open(*eg, parts, p),
            index_set_contents(visited) == spec_parts_visited(parts, parts.len() as int),
            parts.len() > 0 ==> spec_greedy_parts(*turn_cost, *eg, parts),
            parts.len() == 0 <==> visit_order@.len() == 0,
            forall|i: int|
                0 <= i < parts.len() ==> spec_closed_trail(
                    edges,
                    #[trigger] parts[i].2,
                    parts[i].3,
                    parts[i].1 as int,
                ) && spec_greedy_traversal(*turn_cost, *eg, spec_parts_visited(parts, i), parts[i].2, parts[i].3),
            index_set_contents(visited) == visit_order@.to_set(),
            spec_distinct(visit_order@),
            forall|k: int| 0 <= k < visit_order@.len() ==> #[trigger] visit_order@[k] < edges.len(),
            spec_free_degrees_even(edges, index_set_contents(visited)),
            spec_unvisited_count(index_set_contents(visited), edges.len() as int) + visit_order@.len()
                == edges.len(),
            walk@.len() == visit_order@.len() + 1,
            spec_closed_trail(edges, visit_order@, spec_walk_ints(walk@), 0),
            forall|j: int| 0 <= j < walk@.len() ==> #[trigger] walk@[j] < node_count,
        ensures
            index_set_contents(visited) == visit_order@.to_set(),
            visit_order@ == spec_splice_parts(parts),
            spec_greedy_parts(*turn_cost, *eg, parts),
            visit_order@.len() > 0,
            spec_distinct(visit_order@),
            walk@.len() == visit_order@.len() + 1,
            spec_closed_trail(edges, visit_order@, spec_walk_ints(walk@), 0),
            forall|j: int| 0 <= j < walk@.len() ==> #[trigger] walk@[j] < node_count,
            forall|k: int| 0 <= k < visit_order@.len() ==> #[trigger] visit_order@[k] < edges.len(),
            forall|j: int, i: int|
                0 <= j < visit_order@.len() && 0 <= i < edges.len() && spec_touches(
                    #[trigger] edges[i],
                    #[trigger] walk@[j] as int,
                ) ==> index_set_contents(visited).contains(i as usize),
        decreases spec_unvisited_count(index_set_contents(visited), edges.len() as int),
    {
        // Find a node of the walk with untraversed edges, or begin at the start if we're just
        // starting. We will do a traversal from this node and merge it into the walk there. If
        // there are no nodes with untraversed edges, we are done.
        let mut merge_ix: usize = 0;
        let mut n: usize = start_n;
        if visit_order.len() > 0 {
            let mut found = false;
            let mut i: usize = 0;
            while i < visit_order.len()
                invariant_except_break
                    !found,
                invariant
                    i <= visit_order@.len(),
                    walk@.len() == visit_order@.len() + 1,
                    edges == euler_graph_edges(*eg),
                    node_count == euler_graph_nodes(*eg).len(),
                    forall|j: int| 0 <= j < walk@.len() ==> #[trigger] walk@[j] < node_count,
                    forall|j: int, e: int|
                        0 <= j < i && 0 <= e < edges.len() && spec_touches(
                            #[trigger] edges[e],
                            #[trigger] walk@[j] as int,
                        ) ==> index_set_contents(visited).contains(e as usize),
                ensures
                    !found ==> i == visit_order@.len(),
                    found ==> merge_ix < visit_order@.len() && n == walk@[merge_ix as int]
                        && exists|j: int|
                        0 <= j < edges.len() && !index_set_contents(visited).contains(j as usize)
                            && spec_touches(#[trigger] edges[j], n as int),
                    found ==> forall|j: int, e: int|
                        0 <= j < merge_ix && 0 <= e < edges.len() && spec_touches(
                            #[trigger] edges[e],
                            #[trigger] walk@[j] as int,
                        ) ==> index_set_contents(visited).contains(e as usize),
                decreases visit_order.len() - i,
            {
                let src = walk[i];
                if has_unvisited_edge(eg, src, &visited) {
                    merge_ix = i;
                    n = src;
                    found = true;
                    break;
                }
                i = i + 1;
            }
            if !found {
                break;
            }
        }
        assert(exists|j: int|
            0 <= j < edges.len() && !index_set_contents(visited).contains(j as usize)
                && spec_touches(#[trigger] edges[j], n as int)) by {
            if visit_order@.len() == 0 {
                assert(n == 0);
                let j = choose|j: int| 0 <= j < edges.len() && spec_touches(#[trigger] edges[j], 0);
                assert(!visit_order@.to_set().contains(j as usize));
                assert(!index_set_contents(visited).contains(j as usize));
                assert(spec_touches(edges[j], n as int));
            }
        }
        assert(n == walk@[merge_ix as int]);
        let ghost old_order = visit_order@;
        let ghost old_walk = walk@;
        let ghost old_visited = index_set_contents(visited);
        let traversal = traverse_unvisited(n, eg, &mut visited, turn_cost);
        let tw = trail_nodes(eg, n, &traversal);
        let (new_visit_order, new_walk) = splice(&visit_order, &walk, merge_ix, &traversal, &tw);
        proof {
            let w0 = choose|w: Seq<int>|
                spec_closed_trail(edges, traversal@, w, n as int) && spec_greedy_traversal(
                    *turn_cost,
                    *eg,
                    old_visited,
                    traversal@,
                    w,
                );
            lemma_closed_trail_unique(edges, traversal@, w0, spec_walk_ints(tw@), n as int);
            let gw = spec_walk_ints(tw@);
            let part: CircuitPart = (merge_ix as int, n, traversal@, gw);
            let old_parts = parts;
            parts = parts.push(part);
            assert(parts.drop_last() =~= old_parts);
            lemma_parts_visited_push(old_parts, part, old_parts.len() as int);
            assert forall|i: int| 0 <= i < parts.len() implies spec_closed_trail(
                edges,
                #[trigger] parts[i].2,
                parts[i].3,
                parts[i].1 as int,
            ) && spec_greedy_traversal(*turn_cost, *eg, spec_parts_visited(parts, i), parts[i].2, parts[i].3) by {
                lemma_parts_visited_push(old_parts, part, i);
                if i < old_parts.len() {
                    assert(parts[i] == old_parts[i]);
                }
            }
            if old_parts.len() == 0 {
                assert(merge_ix == 0 && n == 0);
            } else {
                assert(parts[0] == old_parts[0]);
            }
            lemma_splice(edges, old_order, merge_ix as int, traversal@, old_visited);
            lemma_splice_walk(edges, old_order, old_walk, merge_ix as int, traversal@, tw@, n, node_count as int);
            assert(spec_walk_ints(new_walk@) =~= spec_splice_walk(parts)) by {
                assert(spec_splice_walk(parts.drop_last()) == spec_walk_ints(old_walk));
            }
            assert forall|p: int| 1 <= p < parts.len() implies #[trigger] spec_spliced_at_first_open(*eg, parts, p) by {
                lemma_parts_visited_push(old_parts, part, p);
                if p < old_parts.len() {
                    assert(parts.take(p) =~= old_parts.take(p));
                    assert(parts[p] == old_parts[p]);
                    assert(spec_spliced_at_first_open(*eg, old_parts, p));
                } else {
                    assert(parts.take(p) =~= old_parts);
                    let w = spec_walk_ints(old_walk);
                    assert(spec_splice_walk(parts.take(p)) == w);
                    assert(spec_splice_parts(parts.take(p)) == old_order);
                    assert(spec_parts_visited(parts, p) == old_visited);
                    assert(old_order.len() > 0);
                    assert(merge_ix < old_order.len());
                    assert(w[merge_ix as int] == n as int);
                    assert(parts[p].0 == merge_ix as int && parts[p].1 == n);
                    assert(exists|e: int| 0 <= e < edges.len() && !old_visited.contains(e as usize)
                        && spec_touches(#[trigger] edges[e], w[merge_ix as int]));
                    assert forall|j: int, e: int|
                        0 <= j < merge_ix && 0 <= e < edges.len() && spec_touches(#[trigger] edges[e], #[trigger] w[j])
                        implies old_visited.contains(e as usize) by {
                        assert(w[j] == old_walk[j] as int);
                    }
                }
            }
        }
        visit_order = new_visit_order;
        walk = new_walk;
    }

    // Construct the Euler Circuit.
    let mut ec = euler_circuit_with_capacity(node_count, edge_count);

    // Add the nodes.
    let mut i: usize = 0;
    while i < node_count
        invariant
            i <= node_count,
            node_count == euler_graph_nodes(*eg).len(),
            node_count <= u32::MAX,
            euler_circuit_nodes(ec) == euler_graph_nodes(*eg).take(i as int),
            euler_circuit_edges(ec) == Seq::<EulerEdge>::empty(),
        decreases node_count - i,
    {
        let p = euler_graph_node(eg, i);
        euler_circuit_add_node(&mut ec, p);
        i = i + 1;
        assert(euler_circuit_nodes(ec) =~= euler_graph_nodes(*eg).take(i as int));
    }
    assert(euler_graph_nodes(*eg).take(node_count as int) =~= euler_graph_nodes(*eg));

    // Now re-add all edges, each directed the way the walk takes it, in order of visitation.
    let mut k: usize = 0;
    while k < visit_order.len()
        invariant
            k <= visit_order@.len(),
            edges == euler_graph_edges(*eg),
            edge_count == edges.len(),
            edge_count <= u32::MAX,
            spec_distinct(visit_order@),
            walk@.len() == visit_order@.len() + 1,
            forall|j: int| 0 <= j < walk@.len() ==> #[trigger] walk@[j] < node_count,
            forall|j: int| 0 <= j < visit_order@.len() ==> #[trigger] visit_order@[j] < edges.len(),
            euler_circuit_nodes(ec) == euler_graph_nodes(*eg),
            node_count == euler_graph_nodes(*eg).len(),
            euler_circuit_edges(ec) == spec_walk_edges(edges, visit_order@.take(k as int), walk@),
        decreases visit_order.len() - k,
    {
        proof {
            lemma_distinct_len_bound(visit_order@, edges.len() as int);
        }
        let e = euler_graph_edge(eg, visit_order[k]);
        let from = walk[k];
        let to = walk[k + 1];
        euler_circuit_add_edge(&mut ec, (from, to, e.2));
        k = k + 1;
        assert(euler_circuit_edges(ec) =~= spec_walk_edges(edges, visit_order@.take(k as int), walk@));
    }
    proof {
        assert(visit_order@.take(visit_order@.len() as int) =~= visit_order@);
        let order = visit_order@;
        let w = walk@;
        assert forall|j: int, i: int|
            0 <= j < w.len() && 0 <= i < edges.len() && spec_touches(
                #[trigger] edges[i],
                #[trigger] w[j] as int,
            ) implies order.contains(i as usize) by {
            let jj = if j == order.len() { 0 } else { j };
            assert(spec_walk_ints(w)[j] == w[j] as int);
            assert(spec_walk_ints(w)[jj] == w[jj] as int);
            assert(w[jj] == w[j]);
            assert(spec_touches(edges[i], w[jj] as int));
            assert(order.to_set().contains(i as usize));
        }
        assert(spec_euler_circuit(edges, order, w));
    }
    ec
}

/// Whether `ec` is a circuit that `euler_graph_to_euler_circuit` may return for `eg` and the turn
/// cost `f`: the nodes of `eg`; with one node or none its edges as they are; with two or more an
/// Euler circuit from node 0 spliced from traversals that each take the cheapest turn.
pub open spec fn spec_is_circuit_of<F: Fn(usize, usize, usize) -> u32>(
    eg: EulerGraph,
    f: F,
    ec: EulerCircuit,
) -> bool {
    &&& euler_circuit_nodes(ec) == euler_graph_nodes(eg)
    &&& euler_graph_nodes(eg).len() <= 1 ==> euler_circuit_edges(ec) == euler_graph_edges(eg)
    &&& euler_graph_nodes(eg).len() >= 2 ==> exists|
        order: Seq<usize>,
        walk: Seq<usize>,
        parts: Seq<CircuitPart>,
    |
        spec_euler_circuit(euler_graph_edges(eg), order, walk) && euler_circuit_edges(ec)
            == spec_walk_edges(euler_graph_edges(eg), order, walk) && order == spec_splice_parts(
            parts,
        ) && spec_greedy_parts(f, eg, parts)
}

/// Whether an Euler graph meets what `euler_graph_to_euler_circuit` asks of it: every edge joins
/// two of its nodes, every node has an even number of edges that are not self-loops, and with two
/// nodes or more node 0 has an edge.
pub open spec fn spec_circuit_ready(eg: EulerGraph) -> bool {
    &&& spec_euler_edges_valid(euler_graph_nodes(eg).len() as int, euler_graph_edges(eg))
    &&& spec_non_loop_degrees_even(euler_graph_edges(eg))
    &&& euler_graph_nodes(eg).len() >= 2 ==> exists|i: int|
        0 <= i < euler_graph_edges(eg).len() && spec_touches(#[trigger] euler_graph_edges(eg)[i], 0)
}

proof fn lemma_non_loop_degree_untouched(edges: Seq<EulerEdge>, x: int, k: int)
    requires
        0 <= k <= edges.len(),
        forall|e: int| 0 <= e < k ==> !spec_touches(#[trigger] edges[e], x),
    ensures
        spec_non_loop_degree(edges, x, k) == 0,
    decreases k,
{
    if k > 0 {
        lemma_non_loop_degree_untouched(edges, x, k - 1);
        assert(!spec_touches(edges[k - 1], x));
    }
}

/// `euler_graph_to_euler_circuit` where the Euler graph meets what it asks for, and `None`
/// otherwise.
pub fn checked_euler_graph_to_euler_circuit<F>(eg: &EulerGraph, turn_cost: &F) -> (r: Option<EulerCircuit>)
    where
        F: Fn(usize, usize, usize) -> u32,
    requires
        forall|a: usize, b: usize, c: usize| turn_cost.requires((a, b, c)),
        spec_cost_deterministic(*turn_cost),
    ensures
        r is Some <==> spec_circuit_ready(*eg),
        r matches Some(ec) ==> spec_is_circuit_of(*eg, *turn_cost, ec),
{
    let ghost edges = euler_graph_edges(*eg);
    let ghost nc = euler_graph_nodes(*eg).len() as int;
    let node_count = euler_graph_node_count(eg);
    let edge_count = euler_graph_edge_count(eg);
    let mut degrees: Vec<usize> = Vec::new();
    while degrees.len() < node_count
        invariant
            degrees@.len() <= node_count,
            forall|x: int| 0 <= x < degrees@.len() ==> degrees@[x] == 0,
        decreases node_count - degrees.len(),
    {
        degrees.push(0);
    }
    let mut k: usize = 0;
    while k < edge_count
        invariant
            k <= edge_count,
            edge_count == edges.len(),
            edges == euler_graph_edges(*eg),
            node_count == nc,
            nc == euler_graph_nodes(*eg).len(),
            degrees@.len() == node_count,
            spec_euler_edges_valid(nc, edges.take(k as int)),
            forall|x: int| 0 <= x < node_count ==> #[trigger] degrees@[x] == spec_non_loop_degree(edges, x, k as int),
            forall|x: int| 0 <= x < node_count ==> #[trigger] degrees@[x] <= k,
        decreases edge_count - k,
    {
        let e = euler_graph_edge(eg, k);
        if e.0 >= node_count || e.1 >= node_count {
            proof {
                assert(!spec_euler_edges_valid(nc, edges)) by {
                    assert(edges[k as int] == e);
                }
            }
            return None;
        }
        if e.0 != e.1 {
            degrees.set(e.0, degrees[e.0] + 1);
            degrees.set(e.1, degrees[e.1] + 1);
        }
        k = k + 1;
        proof {
            assert(spec_euler_edges_valid(nc, edges.take(k as int))) by {
                assert forall|i: int| 0 <= i < k implies (#[trigger] edges.take(k as int)[i]).0 < nc
                    && edges.take(k as int)[i].1 < nc by {
                    if i < k - 1 {
                        assert(edges.take(k - 1)[i] == edges[i]);
                    }
                }
            }
        }
    }
    assert(edges.take(k as int) =~= edges);
    let mut x: usize = 0;
    while x < node_count
        invariant
            x <= node_count,
            k == edge_count,
            edge_count == edges.len(),
            edges == euler_graph_edges(*eg),
            node_count == nc,
            degrees@.len() == node_count,
            forall|y: int| 0 <= y < node_count ==> #[trigger] degrees@[y] == spec_non_loop_degree(edges, y, k as int),
            forall|y: int| 0 <= y < x ==> #[trigger] spec_non_loop_degree(edges, y, k as int) % 2 == 0,
        decreases node_count - x,
    {
        if degrees[x] % 2 != 0 {
            proof {
                assert(spec_non_loop_degree(edges, x as int, edges.len() as int) % 2 != 0);
            }
            return None;
        }
        x = x + 1;
    }
    assert(spec_non_loop_degrees_even(edges)) by {
        assert forall|y: int| #[trigger] spec_non_loop_degree(edges, y, edges.len() as int) % 2 == 0 by {
            if !(0 <= y < nc) {
                assert forall|e: int| 0 <= e < edges.len() implies !spec_touches(#[trigger] edges[e], y) by {
                    assert(edges[e].0 < nc && edges[e].1 < nc);
                }
                lemma_non_loop_degree_untouched(edges, y, edges.len() as int);
            }
        }
    }
    if node_count >= 2 {
        let none = index_set_new();
        if !has_unvisited_edge(eg, 0, &none) {
            return None;
        }
    }
    let ec = euler_graph_to_euler_circuit(eg, turn_cost);
    Some(ec)
}

/// The nodes of the walk along the closed trail `traversal` from `n`: each node is the end of the
/// previous edge other than the previous node.
fn trail_nodes(eg: &EulerGraph, n: usize, traversal: &Vec<usize>) -> (tw: Vec<usize>)
    requires
        n < euler_graph_nodes(*eg).len(),
        spec_euler_edges_valid(euler_graph_nodes(*eg).len() as int, euler_graph_edges(*eg)),
        exists|w: Seq<int>| spec_closed_trail(euler_graph_edges(*eg), traversal@, w, n as int),
    ensures
        spec_closed_trail(euler_graph_edges(*eg), traversal@, spec_walk_ints(tw@), n as int),
{
    let ghost edges = euler_graph_edges(*eg);
    let ghost node_count = euler_graph_nodes(*eg).len();
    let ghost tw_g = choose|w: Seq<int>| spec_closed_trail(edges, traversal@, w, n as int);
    let mut tw: Vec<usize> = Vec::new();
    tw.push(n);
    let mut cur: usize = n;
    let mut j: usize = 0;
    while j < traversal.len()
        invariant
            spec_closed_trail(edges, traversal@, tw_g, n as int),
            edges == euler_graph_edges(*eg),
            node_count == euler_graph_nodes(*eg).len(),
            spec_euler_edges_valid(node_count as int, edges),
            j <= traversal@.len(),
            tw@.len() == j + 1,
            forall|q: int| 0 <= q <= j ==> tw@[q] as int == #[trigger] tw_g[q],
            cur == tw@[j as int],
            cur < node_count,
        decreases traversal.len() - j,
    {
        let e = euler_graph_edge(eg, traversal[j]);
        let nxt = if e.0 == cur {
            e.1
        } else {
            e.0
        };
        proof {
            assert(spec_touches(edges[traversal@[j as int] as int], tw_g[j as int]));
        }
        tw.push(nxt);
        cur = nxt;
        j = j + 1;
    }
    assert(spec_walk_ints(tw@) =~= tw_g);
    tw
}

/// The visiting order and walk with the trail `traversal`, walked along `tw`, inserted at
/// position `merge_ix`.
fn splice(
    visit_order: &Vec<usize>,
    walk: &Vec<usize>,
    merge_ix: usize,
    traversal: &Vec<usize>,
    tw: &Vec<usize>,
) -> (r: (Vec<usize>, Vec<usize>))
    requires
        merge_ix <= visit_order@.len(),
        walk@.len() == visit_order@.len() + 1,
        tw@.len() == traversal@.len() + 1,
    ensures
        r.0@ == visit_order@.take(merge_ix as int) + traversal@ + visit_order@.subrange(
            merge_ix as int,
            visit_order@.len() as int,
        ),
        r.1@ == walk@.take(merge_ix as int) + tw@.take(traversal@.len() as int) + walk@.subrange(
            merge_ix as int,
            walk@.len() as int,
        ),
{
    let mut new_visit_order: Vec<usize> = Vec::new();
    let mut new_walk: Vec<usize> = Vec::new();
    let mut k: usize = 0;
    while k < merge_ix
        invariant
            k <= merge_ix <= visit_order@.len(),
            walk@.len() == visit_order@.len() + 1,
            new_visit_order@ == visit_order@.take(k as int),
            new_walk@ == walk@.take(k as int),
        decreases merge_ix - k,
    {
        new_visit_order.push(visit_order[k]);
        new_walk.push(walk[k]);
        k = k + 1;
        assert(new_visit_order@ =~= visit_order@.take(k as int));
        assert(new_walk@ =~= walk@.take(k as int));
    }
    let mut k: usize = 0;
    while k < traversal.len()
        invariant
            k <= traversal@.len(),
            tw@.len() == traversal@.len() + 1,
            merge_ix <= visit_order@.len(),
            walk@.len() == visit_order@.len() + 1,
            new_visit_order@ == visit_order@.take(merge_ix as int) + traversal@.take(k as int),
            new_walk@ == walk@.take(merge_ix as int) + tw@.take(k as int),
        decreases traversal.len() - k,
    {
        new_visit_order.push(traversal[k]);
        new_walk.push(tw[k]);
        k = k + 1;
        assert(new_visit_order@ =~= visit_order@.take(merge_ix as int) + traversal@.take(k as int));
        assert(new_walk@ =~= walk@.take(merge_ix as int) + tw@.take(k as int));
    }
    assert(traversal@.take(traversal@.len() as int) =~= traversal@);
    let mut k: usize = merge_ix;
    while k < walk.len()
        invariant
            merge_ix <= k <= walk@.len(),
            walk@.len() == visit_order@.len() + 1,
            k <= visit_order@.len() ==> new_visit_order@ == visit_order@.take(merge_ix as int) + traversal@
                + visit_order@.subrange(merge_ix as int, k as int),
            k == walk@.len() ==> new_visit_order@ == visit_order@.take(merge_ix as int) + traversal@
                + visit_order@.subrange(merge_ix as int, visit_order@.len() as int),
            new_walk@ == walk@.take(merge_ix as int) + tw@.take(traversal@.len() as int) + walk@.subrange(
                merge_ix as int,
                k as int,
            ),
        decreases walk.len() - k,
    {
        if k < visit_order.len() {
            new_visit_order.push(visit_order[k]);
        }
        new_walk.push(walk[k]);
        k = k + 1;
        if k <= visit_order.len() {
            assert(new_visit_order@ =~= visit_order@.take(merge_ix as int) + traversal@
                + visit_order@.subrange(merge_ix as int, k as int));
        }
        assert(new_walk@ =~= walk@.take(merge_ix as int) + tw@.take(traversal@.len() as int)
            + walk@.subrange(merge_ix as int, k as int));
    }
    (new_visit_order, new_walk)
}

/// Splicing a closed trail into the walk at a node where the walk is keeps a closed walk through
/// nodes of the graph.
#[verifier::rlimit(100)]
proof fn lemma_splice_walk(
    edges: Seq<EulerEdge>,
    o: Seq<usize>,
    w: Seq<usize>,
    k: int,
    t: Seq<usize>,
    tw: Seq<usize>,
    n: usize,
    node_count: int,
)
    requires
        spec_closed_trail(edges, o, spec_walk_ints(w), 0),
        spec_closed_trail(edges, t, spec_walk_ints(tw), n as int),
        spec_euler_edges_valid(node_count, edges),
        0 <= k <= o.len(),
        w.len() == o.len() + 1,
        w[k] == n,
        n < node_count,
        forall|j: int| 0 <= j < w.len() ==> #[trigger] w[j] < node_count,
    ensures
        ({
            let no = o.take(k) + t + o.subrange(k, o.len() as int);
            let nw = w.take(k) + tw.take(t.len() as int) + w.subrange(k, w.len() as int);
            &&& nw.len() == no.len() + 1
            &&& spec_closed_trail(edges, no, spec_walk_ints(nw), 0)
            &&& forall|j: int| 0 <= j < nw.len() ==> #[trigger] nw[j] < node_count
        }),
{
    let wi = spec_walk_ints(w);
    let ti = spec_walk_ints(tw);
    let nw = w.take(k) + tw.take(t.len() as int) + w.subrange(k, w.len() as int);
    lemma_splice_trail(edges, o, wi, k, t, ti, n as int);
    assert(spec_walk_ints(nw) =~= wi.take(k) + ti.take(t.len() as int) + wi.subrange(k, wi.len() as int));
    let p = t.len() as int;
    assert forall|q: int| 0 <= q < nw.len() implies #[trigger] nw[q] < node_count by {
        if q < k {
            assert(nw[q] == w[q]);
        } else if q < k + p {
            assert(nw[q] == tw[q - k]);
            lemma_trail_nodes_bounded(edges, t, ti, n as int, node_count, q - k);
            assert(ti[q - k] == tw[q - k] as int);
        } else {
            assert(nw[q] == w[q - p]);
        }
    }
}

/// The nodes of a trail's walk are nodes of the graph.
proof fn lemma_trail_nodes_bounded(edges: Seq<EulerEdge>, t: Seq<usize>, tw: Seq<int>, n: int, node_count: int, q: int)
    requires
        spec_closed_trail(edges, t, tw, n),
        spec_euler_edges_valid(node_count, edges),
        0 <= n < node_count,
        0 <= q < tw.len(),
    ensures
        0 <= tw[q] < node_count,
    decreases q,
{
    if q > 0 {
        lemma_trail_nodes_bounded(edges, t, tw, n, node_count, q - 1);
        assert(tw[q] == spec_other_end(edges[t[q - 1] as int], tw[q - 1]));
    }
}

/// Inserting a closed trail from node `n` into a closed walk at a position where the walk is at
/// `n` gives a closed walk.
proof fn lemma_splice_trail(edges: Seq<EulerEdge>, o: Seq<usize>, w: Seq<int>, k: int, t: Seq<usize>, tw: Seq<int>, n: int)
    requires
        spec_closed_trail(edges, o, w, 0),
        spec_closed_trail(edges, t, tw, n),
        0 <= k <= o.len(),
        w[k] == n,
    ensures
        spec_closed_trail(
            edges,
            o.take(k) + t + o.subrange(k, o.len() as int),
            w.take(k) + tw.take(t.len() as int) + w.subrange(k, w.len() as int),
            0,
        ),
{
    let no = o.take(k) + t + o.subrange(k, o.len() as int);
    let nw = w.take(k) + tw.take(t.len() as int) + w.subrange(k, w.len() as int);
    let p = t.len() as int;
    assert(nw.len() == no.len() + 1);
    assert(nw[0] == 0) by {
        if k == 0 {
            if p == 0 {
                assert(nw[0] == w[0]);
            } else {
                assert(nw[0] == tw[0]);
            }
        } else {
            assert(nw[0] == w[0]);
        }
    }
    assert(nw.last() == w.last());
    assert forall|q: int| 0 <= q < no.len() implies #[trigger] no[q] < edges.len() by {
        if q < k {
            assert(no[q] == o[q]);
        } else if q < k + p {
            assert(no[q] == t[q - k]);
        } else {
            assert(no[q] == o[q - p]);
        }
    }
    assert forall|q: int| 0 <= q < no.len() implies spec_touches(edges[no[q] as int], #[trigger] nw[q])
        && nw[q + 1] == spec_other_end(edges[no[q] as int], nw[q]) by {
        if q < k {
            assert(no[q] == o[q]);
            assert(nw[q] == w[q]);
            if q + 1 < k {
                assert(nw[q + 1] == w[q + 1]);
            } else if p > 0 {
                assert(nw[q + 1] == tw[0]);
            } else {
                assert(nw[q + 1] == w[k]);
            }
        } else if q < k + p {
            assert(no[q] == t[q - k]);
            assert(nw[q] == tw[q - k]);
            if q + 1 < k + p {
                assert(nw[q + 1] == tw[q + 1 - k]);
            } else {
                assert(nw[q + 1] == w[k]);
                assert(tw[p] == n);
            }
        } else {
            assert(no[q] == o[q - p]);
            assert(nw[q] == w[q - p]);
            assert(nw[q + 1] == w[q + 1 - p]);
        }
    }
}

/// Splicing a traversal of fresh edges into a visiting order keeps the order free of
/// duplicates and matches the visited set.
proof fn lemma_splice(edges: Seq<EulerEdge>, old_order: Seq<usize>, merge_ix: int, b: Seq<usize>, old_visited: Set<usize>)
    requires
        0 <= merge_ix <= old_order.len(),
        old_visited == old_order.to_set(),
        spec_distinct(old_order),
        spec_distinct(b),
        forall|k: int| 0 <= k < b.len() ==> !old_visited.contains(#[trigger] b[k]),
        forall|k: int| 0 <= k < old_order.len() ==> #[trigger] old_order[k] < edges.len(),
        forall|k: int| 0 <= k < b.len() ==> #[trigger] b[k] < edges.len(),
    ensures
        ({
            let nv = old_order.take(merge_ix) + b + old_order.subrange(merge_ix, old_order.len() as int);
            &&& nv.to_set() == old_visited.union(b.to_set())
            &&& spec_distinct(nv)
            &&& forall|k: int| 0 <= k < nv.len() ==> #[trigger] nv[k] < edges.len()
            &&& nv.len() == old_order.len() + b.len()
        }),
{
    let a = old_order.take(merge_ix);
    let c = old_order.subrange(merge_ix, old_order.len() as int);
    let nv = a + b + c;
    assert(old_order =~= a + c);
    assert forall|x: usize| nv.to_set().contains(x) <==> (old_order.to_set().contains(x) || b.to_set().contains(x)) by {
        if nv.to_set().contains(x) {
            let j = choose|j: int| 0 <= j < nv.len() && nv[j] == x;
            if j < a.len() {
                assert(old_order[j] == x);
            } else if j < a.len() + b.len() {
                assert(b[j - a.len()] == x);
            } else {
                assert(old_order[j - b.len()] == x);
            }
        }
        if old_order.to_set().contains(x) {
            let j = choose|j: int| 0 <= j < old_order.len() && old_order[j] == x;
            if j < a.len() {
                assert(nv[j] == x);
            } else {
                assert(nv[j + b.len()] == x);
            }
        }
        if b.to_set().contains(x) {
            let j = choose|j: int| 0 <= j < b.len() && b[j] == x;
            assert(nv[j + a.len()] == x);
        }
    }
    assert(nv.to_set() =~= old_visited.union(b.to_set()));
    assert forall|p: int, q: int| 0 <= p < q < nv.len() implies nv[p] != nv[q] by {
        let in_b = |j: int| a.len() <= j < a.len() + b.len();
        let old_ix = |j: int| if j < a.len() { j } else { j - b.len() };
        if in_b(p) && in_b(q) {
            assert(b[p - a.len()] != b[q - a.len()]);
        } else if in_b(p) {
            assert(nv[q] == old_order[old_ix(q)]);
            assert(old_visited.contains(old_order[old_ix(q)]));
            assert(!old_visited.contains(b[p - a.len()]));
        } else if in_b(q) {
            assert(nv[p] == old_order[old_ix(p)]);
            assert(old_visited.contains(old_order[old_ix(p)]));
            assert(!old_visited.contains(b[q - a.len()]));
        } else {
            assert(nv[p] == old_order[old_ix(p)]);
            assert(nv[q] == old_order[old_ix(q)]);
        }
    }
    assert forall|k: int| 0 <= k < nv.len() implies #[trigger] nv[k] < edges.len() by {
        if k < a.len() {
            assert(nv[k] == old_order[k]);
        } else if k < a.len() + b.len() {
            assert(nv[k] == b[k - a.len()]);
        } else {
            assert(nv[k] == old_order[k - b.len()]);
        }
    }
}

/// Distinct indices below `bound` number at most `bound`.
proof fn lemma_distinct_len_bound(order: Seq<usize>, bound: int)
    requires
        spec_distinct(order),
        forall|k: int| 0 <= k < order.len() ==> #[trigger] order[k] < bound,
        0 <= bound,
    ensures
        order.len() <= bound,
{
    let s = order.to_set();
    order.unique_seq_to_set();
    let r = Set::new(|x: usize| (x as int) < bound);
    assert(s.subset_of(r));
    lemma_usize_range_len(bound);
    vstd::set_lib::lemma_len_subset(s, r);
}

proof fn lemma_usize_range_len(bound: int)
    requires
        0 <= bound,
    ensures
        Set::new(|x: usize| (x as int) < bound).finite(),
        Set::new(|x: usize| (x as int) < bound).len() <= bound,
    decreases bound,
{
    let r = Set::new(|x: usize| (x as int) < bound);
    if bound == 0 {
        assert(r =~= Set::<usize>::empty());
    } else {
        lemma_usize_range_len(bound - 1);
        let r0 = Set::new(|x: usize| (x as int) < bound - 1);
        if bound - 1 <= usize::MAX {
            let m = (bound - 1) as usize;
            assert(r =~= r0.insert(m));
        } else {
            assert(r =~= r0);
        }
    }
}

/// The edge index that `Graph::edges_directed(n, Outgoing).next()` yields on an Euler circuit:
/// the head of `n`'s list of outgoing edges, which depends on the graph alone.
pub uninterp spec fn euler_circuit_outgoing_head(g: EulerCircuit, n: usize) -> usize;

/// `Graph::edges_directed(n, Outgoing).next()` on an Euler circuit: the head of `n`'s outgoing
/// edge list, an edge leaving `n`, or `None` exactly when no edge leaves `n`. Which of the edges
/// leaving `n` comes first (the list's order changes as edges are removed) is left to the name.
#[verifier::external_body]
fn euler_circuit_first_outgoing(g: &EulerCircuit, n: usize) -> (r: Option<usize>)
    requires
        n < euler_circuit_nodes(*g).len(),
    ensures
        match r {
            Some(e) => e < euler_circuit_edges(*g).len() && euler_circuit_edges(*g)[e as int].0 == n
                && e == euler_circuit_outgoing_head(*g, n),
            None => forall|j: int|
                0 <= j < euler_circuit_edges(*g).len() ==> (#[trigger] euler_circuit_edges(*g)[j]).0
                    != n,
        },
{
    g.edges_directed(NodeIndex::new(n), petgraph::Outgoing).next().map(|e| e.id().index())
}

/// `Graph::node_count` of an Euler circuit.
#[verifier::external_body]
fn euler_circuit_node_count(g: &EulerCircuit) -> (r: usize)
    ensures
        r == euler_circuit_nodes(*g).len(),
{
    g.node_count()
}

/// `Graph::raw_edges()[i]` of an Euler circuit: its source, target and kind.
#[verifier::external_body]
fn euler_circuit_edge(g: &EulerCircuit, i: usize) -> (e: EulerEdge)
    requires
        i < euler_circuit_edges(*g).len(),
    ensures
        e == euler_circuit_edges(*g)[i as int],
{
    let e = &g.raw_edges()[i];
    (e.source().index(), e.target().index(), e.weight)
}

/// A walker for traversing a Eulerian circuit.
///
/// Note that the resulting walk is an infinite walk, and care should be taken to break when
/// returning to the starting node if necessary.
#[derive(Clone, Copy)]
pub struct EulerCircuitWalk {
    pub current_node: usize,
}

impl EulerCircuitWalk {
    /// Construct a walk from the starting node.
    pub fn new(current_node: usize) -> (r: Self)
        ensures
            r.current_node == current_node,
    {
        EulerCircuitWalk { current_node }
    }

    /// The index of the next edge in the given `EulerCircuit`: the first edge petgraph lists as
    /// leaving the current node, whose target becomes the current node.
    ///
    /// A current node that no edge leaves has no next edge; `requires` rules it out.
    pub fn next(&mut self, ec: &EulerCircuit) -> (e: usize)
        requires
            old(self).current_node < euler_circuit_nodes(*ec).len(),
            exists|j: int|
                0 <= j < euler_circuit_edges(*ec).len() && (#[trigger] euler_circuit_edges(*ec)[j]).0
                    == old(self).current_node,
        ensures
            e == euler_circuit_outgoing_head(*ec, old(self).current_node),
            e < euler_circuit_edges(*ec).len(),
            euler_circuit_edges(*ec)[e as int].0 == old(self).current_node,
            final(self).current_node == euler_circuit_edges(*ec)[e as int].1,
    {
        match euler_circuit_first_outgoing(ec, self.current_node) {
            Some(e) => {
                let edge = euler_circuit_edge(ec, e);
                self.current_node = edge.1;
                e
            },
            None => {
                proof {
                    let j = choose|j: int|
                        0 <= j < euler_circuit_edges(*ec).len() && (#[trigger] euler_circuit_edges(
                            *ec,
                        )[j]).0 == self.current_node;
                    assert(euler_circuit_edges(*ec)[j].0 != self.current_node);
                }
                0
            },
        }
    }

    /// The next edge as `next` gives it, or `None`, leaving the walk where it is, where the
    /// current node is no node of the circuit or no edge leaves it.
    pub fn try_next(&mut self, ec: &EulerCircuit) -> (r: Option<usize>)
        ensures
            ({
                let edges = euler_circuit_edges(*ec);
                let n = old(self).current_node;
                let has_edge = n < euler_circuit_nodes(*ec).len() && exists|j: int|
                    0 <= j < edges.len() && (#[trigger] edges[j]).0 == n;
                &&& has_edge ==> r == Some(euler_circuit_outgoing_head(*ec, n)) && r->0 < edges.len()
                    && edges[r->0 as int].0 == n && final(self).current_node == edges[r->0 as int].1
                &&& !has_edge ==> r is None && final(self).current_node == n
            }),
    {
        if self.current_node >= euler_circuit_node_count(ec) {
            return None;
        }
        match euler_circuit_first_outgoing(ec, self.current_node) {
            Some(e) => {
                let edge = euler_circuit_edge(ec, e);
                self.current_node = edge.1;
                Some(e)
            },
            None => None,
        }
    }
}

// ---------------------------------------------------------------------------------------------
// The blanks make every degree even

proof fn lemma_degree_concat(a: Seq<(usize, usize)>, b: Seq<(usize, usize)>, x: int)
    ensures
        spec_degree(a + b, x) == spec_degree(a, x) + spec_degree(b, x),
    decreases b.len(),
{
    if b.len() == 0 {
        assert(a + b =~= a);
    } else {
        lemma_degree_concat(a, b.drop_last(), x);
        assert((a + b).drop_last() =~= a + b.drop_last());
    }
}

proof fn lemma_chunk_pairs_degree(inner: Seq<usize>, x: usize)
    requires
        spec_no_dups(inner),
        inner.len() % 2 == 0,
    ensures
        spec_degree(spec_chunk_pairs(inner), x as int) == (if inner.contains(x) {
            1nat
        } else {
            0nat
        }),
        forall|k: int|
            0 <= k < spec_chunk_pairs(inner).len() ==> (#[trigger] spec_chunk_pairs(inner)[k]).0
                != spec_chunk_pairs(inner)[k].1,
    decreases inner.len(),
{
    let cp = spec_chunk_pairs(inner);
    if inner.len() == 0 {
        assert(!inner.contains(x));
    } else {
        let s = inner.take(inner.len() - 2);
        assert(spec_no_dups(s)) by {
            assert forall|j: int, l: int| 0 <= j < l < s.len() implies s[j] != s[l] by {
                assert(s[j] == inner[j] && s[l] == inner[l]);
            }
        }
        lemma_chunk_pairs_degree(s, x);
        let a = inner[inner.len() - 2];
        let b = inner[inner.len() - 1];
        assert(cp =~= spec_chunk_pairs(s).push((a, b)));
        assert(cp.drop_last() =~= spec_chunk_pairs(s));
        assert(a != b);
        assert forall|y: usize| inner.contains(y) <==> (s.contains(y) || y == a || y == b) by {
            if inner.contains(y) {
                let j = choose|j: int| 0 <= j < inner.len() && inner[j] == y;
                if j < s.len() {
                    assert(s[j] == y);
                }
            }
            if s.contains(y) {
                let j = choose|j: int| 0 <= j < s.len() && s[j] == y;
                assert(inner[j] == y);
            }
            if y == a {
                assert(inner[inner.len() - 2] == y);
            }
            if y == b {
                assert(inner[inner.len() - 1] == y);
            }
        }
        assert(!s.contains(a)) by {
            if s.contains(a) {
                let j = choose|j: int| 0 <= j < s.len() && s[j] == a;
                assert(inner[j] == inner[inner.len() - 2]);
            }
        }
        assert(!s.contains(b)) by {
            if s.contains(b) {
                let j = choose|j: int| 0 <= j < s.len() && s[j] == b;
                assert(inner[j] == inner[inner.len() - 1]);
            }
        }
        assert forall|k: int| 0 <= k < cp.len() implies (#[trigger] cp[k]).0 != cp[k].1 by {
            assert(inner[2 * k] != inner[2 * k + 1]);
        }
    }
}

/// The facts about the nodes a component contributes to the blanks.
proof fn lemma_to_connect_facts(ccs: Seq<Seq<usize>>, edges: Seq<(usize, usize)>, node_count: int, i: int)
    requires
        spec_components_partition(node_count, edges, ccs),
        spec_odd_counts_even(edges, ccs),
        0 <= i < ccs.len(),
    ensures
        ({
            let t = spec_to_connect(ccs[i], edges);
            &&& ccs[i].contains(t.0)
            &&& ccs[i].contains(t.2)
            &&& forall|k: int| 0 <= k < t.1.len() ==> ccs[i].contains(#[trigger] t.1[k])
            &&& spec_no_dups(t.1)
            &&& t.1.len() % 2 == 0
            &&& !t.1.contains(t.0)
            &&& !t.1.contains(t.2)
            &&& spec_is_euler_component(ccs[i], edges) ==> t.0 == t.2 && t.1.len() == 0
            &&& !spec_is_euler_component(ccs[i], edges) ==> t.0 != t.2
            &&& forall|x: usize|
                #[trigger] ccs[i].contains(x) ==> ((if t.1.contains(x) {
                    1int
                } else {
                    0int
                }) + (if x == t.0 {
                    1int
                } else {
                    0int
                }) + (if x == t.2 {
                    1int
                } else {
                    0int
                })) % 2 == spec_degree(edges, x as int) % 2
        }),
{
    let c = ccs[i];
    let t = spec_to_connect(c, edges);
    assert(spec_no_dups(c)) by {
        assert forall|j: int, l: int| 0 <= j < l < c.len() implies c[j] != c[l] by {}
    }
    assert(c.len() > 0);
    assert(c.contains(c[0]));
    if spec_is_euler_component(c, edges) {
        assert forall|x: usize| #[trigger] c.contains(x) implies ((if t.1.contains(x) {
            1int
        } else {
            0int
        }) + (if x == t.0 {
            1int
        } else {
            0int
        }) + (if x == t.2 {
            1int
        } else {
            0int
        })) % 2 == spec_degree(edges, x as int) % 2 by {
            let j = choose|j: int| 0 <= j < c.len() && c[j] == x;
            assert(spec_degree(edges, c[j] as int) % 2 == 0);
        }
    } else {
        let v = spec_odd_nodes(c, edges);
        assert forall|e: int| 0 <= e < edges.len() implies (c.contains(#[trigger] edges[e].0)
            <==> c.contains(edges[e].1)) by {}
        assert(spec_odd_nodes(ccs[i], edges).len() % 2 == 0);
        lemma_odd_nodes_members(c, edges);
        lemma_odd_nodes_no_dups(c, edges);
        let j = choose|j: int| 0 <= j < c.len() && spec_degree(edges, c[j] as int) % 2 != 0;
        assert(v.contains(c[j]));
        assert(v.len() >= 2);
        let inner = v.subrange(1, v.len() - 1);
        assert(t.1 == inner);
        assert(spec_no_dups(inner)) by {
            assert forall|p: int, q: int| 0 <= p < q < inner.len() implies inner[p] != inner[q] by {
                assert(inner[p] == v[p + 1] && inner[q] == v[q + 1]);
            }
        }
        assert(v[0] != v[v.len() - 1]);
        assert forall|k: int| 0 <= k < inner.len() implies c.contains(#[trigger] inner[k]) by {
            assert(inner[k] == v[k + 1]);
        }
        assert(!inner.contains(t.0)) by {
            if inner.contains(t.0) {
                let k = choose|k: int| 0 <= k < inner.len() && inner[k] == t.0;
                assert(v[k + 1] == v[0]);
            }
        }
        assert(!inner.contains(t.2)) by {
            if inner.contains(t.2) {
                let k = choose|k: int| 0 <= k < inner.len() && inner[k] == t.2;
                assert(v[k + 1] == v[v.len() - 1]);
            }
        }
        assert forall|x: usize| #[trigger] c.contains(x) implies ((if t.1.contains(x) {
            1int
        } else {
            0int
        }) + (if x == t.0 {
            1int
        } else {
            0int
        }) + (if x == t.2 {
            1int
        } else {
            0int
        })) % 2 == spec_degree(edges, x as int) % 2 by {
            let jx = choose|jx: int| 0 <= jx < c.len() && c[jx] == x;
            if spec_degree(edges, x as int) % 2 == 1 {
                assert(v.contains(c[jx]));
                let k = choose|k: int| 0 <= k < v.len() && v[k] == x;
                if k == 0 {
                } else if k == v.len() - 1 {
                } else {
                    assert(inner[k - 1] == x);
                }
            } else {
                if v.contains(x) {
                    let k = choose|k: int| 0 <= k < v.len() && v[k] == x;
                    assert(spec_degree(edges, v[k] as int) % 2 == 1);
                }
                if inner.contains(x) {
                    let k = choose|k: int| 0 <= k < inner.len() && inner[k] == x;
                    assert(v[k + 1] == x);
                }
            }
        }
    }
}

proof fn lemma_odd_nodes_no_dups(c: Seq<usize>, edges: Seq<(usize, usize)>)
    requires
        spec_no_dups(c),
    ensures
        spec_no_dups(spec_odd_nodes(c, edges)),
    decreases c.len(),
{
    if c.len() > 0 {
        let p = c.drop_last();
        assert(spec_no_dups(p)) by {
            assert forall|j: int, l: int| 0 <= j < l < p.len() implies p[j] != p[l] by {
                assert(p[j] == c[j] && p[l] == c[l]);
            }
        }
        lemma_odd_nodes_no_dups(p, edges);
        lemma_odd_nodes_members(p, edges);
        let pv = spec_odd_nodes(p, edges);
        let v = spec_odd_nodes(c, edges);
        assert forall|j: int, l: int| 0 <= j < l < v.len() implies v[j] != v[l] by {
            if l == pv.len() {
                assert(p.contains(pv[j]));
                let m = choose|m: int| 0 <= m < p.len() && p[m] == pv[j];
                assert(c[m] != c[c.len() - 1]);
            }
        }
    }
}

proof fn lemma_degree_single(a: usize, b: usize, x: int)
    requires
        a != b,
    ensures
        spec_degree(seq![(a, b)], x) == (if x == a {
            1nat
        } else {
            0nat
        }) + (if x == b {
            1nat
        } else {
            0nat
        }),
{
    let s = seq![(a, b)];
    assert(s.drop_last() =~= Seq::<(usize, usize)>::empty());
    assert(spec_degree(s.drop_last(), x) == 0);
    assert(s.last() == (a, b));
}

proof fn lemma_in_one_component(ccs: Seq<Seq<usize>>, edges: Seq<(usize, usize)>, node_count: int, i: int, j: int, x: usize)
    requires
        spec_components_partition(node_count, edges, ccs),
        0 <= i < ccs.len(),
        0 <= j < ccs.len(),
        ccs[i].contains(x),
        ccs[j].contains(x),
    ensures
        i == j,
{
    let a = choose|a: int| 0 <= a < ccs[i].len() && ccs[i][a] == x;
    let b = choose|b: int| 0 <= b < ccs[j].len() && ccs[j][b] == x;
    assert(ccs[i][a] == ccs[j][b]);
}

/// The number of blank pairs touching `x` among those of the first `k` components, for a node `x`
/// of component `c`, when there are at least two components.
proof fn lemma_blank_pairs_degree(ccs: Seq<Seq<usize>>, edges: Seq<(usize, usize)>, node_count: int, x: usize, c: int, k: int)
    requires
        spec_components_partition(node_count, edges, ccs),
        spec_odd_counts_even(edges, ccs),
        ccs.len() >= 2,
        0 <= c < ccs.len(),
        ccs[c].contains(x),
        0 <= k <= ccs.len(),
    ensures
        ({
            let t = spec_to_connect(ccs[c], edges);
            spec_degree(spec_blank_pairs(ccs, edges, k), x as int) == (if c < k {
                (if t.1.contains(x) {
                    1int
                } else {
                    0int
                }) + (if x == t.2 {
                    1int
                } else {
                    0int
                })
            } else {
                0int
            }) + (if x == t.0 && ((1 <= c <= k) || k == ccs.len()) {
                1int
            } else {
                0int
            })
        }),
        forall|m: int|
            0 <= m < spec_blank_pairs(ccs, edges, k).len() ==> (#[trigger] spec_blank_pairs(
                ccs,
                edges,
                k,
            )[m]).0 != spec_blank_pairs(ccs, edges, k)[m].1,
    decreases k,
{
    if k == 0 {
        assert(spec_blank_pairs(ccs, edges, 0) =~= Seq::<(usize, usize)>::empty());
    } else {
        let i = k - 1;
        lemma_blank_pairs_degree(ccs, edges, node_count, x, c, i);
        let prev = spec_blank_pairs(ccs, edges, i);
        let cp = spec_component_pairs(ccs, edges, i);
        assert(spec_blank_pairs(ccs, edges, k) == prev + cp);
        lemma_degree_concat(prev, cp, x as int);
        let ti = spec_to_connect(ccs[i], edges);
        lemma_to_connect_facts(ccs, edges, node_count, i);
        lemma_chunk_pairs_degree(ti.1, x);
        let j = if i + 1 < ccs.len() { i + 1 } else { 0 };
        let tj = spec_to_connect(ccs[j], edges);
        lemma_to_connect_facts(ccs, edges, node_count, j);
        assert(j != i);
        let link = seq![(ti.2, tj.0)];
        assert(ti.2 != tj.0) by {
            if ti.2 == tj.0 {
                lemma_in_one_component(ccs, edges, node_count, i, j, ti.2);
            }
        }
        assert(cp == spec_chunk_pairs(ti.1) + link);
        lemma_degree_concat(spec_chunk_pairs(ti.1), link, x as int);
        lemma_degree_single(ti.2, tj.0, x as int);
        // Contributions of component `i` vanish unless it is `c`.
        if ti.1.contains(x) {
            let m = choose|m: int| 0 <= m < ti.1.len() && ti.1[m] == x;
            assert(ccs[i].contains(ti.1[m]));
            lemma_in_one_component(ccs, edges, node_count, i, c, x);
        }
        if x == ti.2 {
            lemma_in_one_component(ccs, edges, node_count, i, c, x);
        }
        if x == tj.0 {
            lemma_in_one_component(ccs, edges, node_count, j, c, x);
        }
        let bp = spec_blank_pairs(ccs, edges, k);
        assert forall|m: int| 0 <= m < bp.len() implies (#[trigger] bp[m]).0 != bp[m].1 by {
            if m < prev.len() {
                assert(bp[m] == prev[m]);
            } else if m < prev.len() + spec_chunk_pairs(ti.1).len() {
                assert(bp[m] == spec_chunk_pairs(ti.1)[m - prev.len()]);
            } else {
                assert(bp[m] == link[0]);
            }
        }
    }
}

/// With a single component, its blank pairs touch each of its nodes as often as the inner,
/// first and last nodes name it.
proof fn lemma_single_component_pairs(ccs: Seq<Seq<usize>>, edges: Seq<(usize, usize)>, node_count: int, x: usize)
    requires
        spec_components_partition(node_count, edges, ccs),
        spec_odd_counts_even(edges, ccs),
        ccs.len() == 1,
        ccs[0].contains(x),
    ensures
        ({
            let t = spec_to_connect(ccs[0], edges);
            let bp = spec_blank_pairs(ccs, edges, 1);
            &&& spec_degree(bp, x as int) % 2 == spec_degree(edges, x as int) % 2
            &&& forall|m: int| 0 <= m < bp.len() ==> (#[trigger] bp[m]).0 != bp[m].1
        }),
{
    let t = spec_to_connect(ccs[0], edges);
    lemma_to_connect_facts(ccs, edges, node_count, 0);
    lemma_chunk_pairs_degree(t.1, x);
    assert(spec_blank_pairs(ccs, edges, 0) =~= Seq::<(usize, usize)>::empty());
    let cp = spec_component_pairs(ccs, edges, 0);
    let bp = spec_blank_pairs(ccs, edges, 1);
    assert(bp =~= cp);
    if spec_is_euler_component(ccs[0], edges) {
        assert(cp =~= spec_chunk_pairs(t.1));
    } else {
        let link = seq![(t.2, t.0)];
        assert(cp == spec_chunk_pairs(t.1) + link);
        lemma_degree_concat(spec_chunk_pairs(t.1), link, x as int);
        lemma_degree_single(t.2, t.0, x as int);
        assert forall|m: int| 0 <= m < bp.len() implies (#[trigger] bp[m]).0 != bp[m].1 by {
            if m < spec_chunk_pairs(t.1).len() {
                assert(bp[m] == spec_chunk_pairs(t.1)[m]);
            } else {
                assert(bp[m] == link[0]);
            }
        }
    }
}

proof fn lemma_degree_untouched(edges: Seq<(usize, usize)>, x: int)
    requires
        forall|e: int| 0 <= e < edges.len() ==> (#[trigger] edges[e]).0 != x && edges[e].1 != x,
    ensures
        spec_degree(edges, x) == 0,
    decreases edges.len(),
{
    if edges.len() > 0 {
        let p = edges.drop_last();
        assert forall|e: int| 0 <= e < p.len() implies (#[trigger] p[e]).0 != x && p[e].1 != x by {
            assert(p[e] == edges[e]);
        }
        lemma_degree_untouched(p, x);
    }
}

/// The endpoints of a sequence of Euler edges.
pub open spec fn spec_endpoints(edges: Seq<EulerEdge>) -> Seq<(usize, usize)> {
    edges.map_values(|e: EulerEdge| (e.0, e.1))
}

proof fn lemma_non_loop_degree(edges: Seq<EulerEdge>, x: int, k: int)
    requires
        0 <= k <= edges.len(),
        forall|e: int| 0 <= e < edges.len() ==> (#[trigger] edges[e]).0 != edges[e].1,
    ensures
        spec_non_loop_degree(edges, x, k) == spec_degree(spec_endpoints(edges).take(k), x),
    decreases k,
{
    if k > 0 {
        lemma_non_loop_degree(edges, x, k - 1);
        assert(spec_endpoints(edges).take(k).drop_last() =~= spec_endpoints(edges).take(k - 1));
    }
}

/// Whether no edge joins a node to itself.
pub open spec fn spec_no_self_loops(edges: Seq<(usize, usize)>) -> bool {
    forall|e: int| 0 <= e < edges.len() ==> #[trigger] edges[e].0 != edges[e].1
}

/// Whether each component has an even number of odd-degree nodes.
pub open spec fn spec_odd_counts_even(edges: Seq<(usize, usize)>, ccs: Seq<Seq<usize>>) -> bool {
    forall|i: int| 0 <= i < ccs.len() ==> #[trigger] spec_odd_nodes(ccs[i], edges).len() % 2 == 0
}

/// In a graph without self-loops, each component has an even number of odd-degree nodes.
pub proof fn lemma_no_loops_odd_counts_even(node_count: int, edges: Seq<(usize, usize)>, ccs: Seq<Seq<usize>>)
    requires
        spec_components_partition(node_count, edges, ccs),
        spec_no_self_loops(edges),
    ensures
        spec_odd_counts_even(edges, ccs),
{
    assert forall|i: int| 0 <= i < ccs.len() implies #[trigger] spec_odd_nodes(ccs[i], edges).len() % 2 == 0 by {
        let c = ccs[i];
        assert(spec_no_dups(c)) by {
            assert forall|j: int, l: int| 0 <= j < l < c.len() implies c[j] != c[l] by {}
        }
        assert forall|e: int| 0 <= e < edges.len() implies (c.contains(#[trigger] edges[e].0)
            <==> c.contains(edges[e].1)) by {}
        lemma_component_odd_nodes_even(c, edges);
    }
}

/// Adding the blank pairs to a point graph whose components each have an even number of
/// odd-degree nodes gives every node an even degree and adds no self-loop.
pub proof fn lemma_euler_blanks_make_degrees_even(node_count: int, edges: Seq<(usize, usize)>, ccs: Seq<Seq<usize>>)
    requires
        spec_components_partition(node_count, edges, ccs),
        spec_edges_valid(node_count, edges),
        spec_odd_counts_even(edges, ccs),
    ensures
        ({
            let pairs = spec_blank_pairs(ccs, edges, ccs.len() as int);
            &&& spec_no_self_loops(pairs)
            &&& forall|x: int| #[trigger] (spec_degree(edges, x) + spec_degree(pairs, x)) % 2 == 0
        }),
{
    let pairs = spec_blank_pairs(ccs, edges, ccs.len() as int);
    if ccs.len() == 0 {
        assert(pairs =~= Seq::<(usize, usize)>::empty());
        assert forall|x: int| #[trigger] (spec_degree(edges, x) + spec_degree(pairs, x)) % 2 == 0 by {
            assert forall|e: int| 0 <= e < edges.len() implies (#[trigger] edges[e]).0 != x && edges[e].1 != x by {
                assert(edges[e].0 < node_count);
                assert(spec_in_some_component(ccs, edges[e].0 as int));
            }
            lemma_degree_untouched(edges, x);
        }
    } else {
        let some = spec_to_connect(ccs[0], edges);
        lemma_to_connect_facts(ccs, edges, node_count, 0);
        if ccs.len() == 1 {
            lemma_single_component_pairs(ccs, edges, node_count, some.0);
        } else {
            lemma_blank_pairs_degree(ccs, edges, node_count, some.0, 0, ccs.len() as int);
        }
        assert forall|x: int| #[trigger] (spec_degree(edges, x) + spec_degree(pairs, x)) % 2 == 0 by {
            if 0 <= x < node_count {
                assert(spec_in_some_component(ccs, x));
                let (c, jj) = choose|c: int, jj: int| 0 <= c < ccs.len() && 0 <= jj < ccs[c].len() && #[trigger] ccs[c][jj] == x;
                let xu = x as usize;
                assert(ccs[c].contains(xu));
                lemma_to_connect_facts(ccs, edges, node_count, c);
                if ccs.len() == 1 {
                    lemma_single_component_pairs(ccs, edges, node_count, xu);
                } else {
                    lemma_blank_pairs_degree(ccs, edges, node_count, xu, c, ccs.len() as int);
                }
            } else {
                assert forall|e: int| 0 <= e < edges.len() implies (#[trigger] edges[e]).0 != x && edges[e].1 != x by {}
                lemma_degree_untouched(edges, x);
                assert forall|e: int| 0 <= e < pairs.len() implies (#[trigger] pairs[e]).0 != x && pairs[e].1 != x by {
                    lemma_blank_pairs_in_range(ccs, edges, node_count, ccs.len() as int);
                }
                lemma_degree_untouched(pairs, x);
            }
        }
    }
}

proof fn lemma_blank_pairs_prefix(ccs: Seq<Seq<usize>>, edges: Seq<(usize, usize)>, k: int, l: int, m: int)
    requires
        0 <= k <= l <= ccs.len(),
        0 <= m < spec_blank_pairs(ccs, edges, k).len(),
    ensures
        m < spec_blank_pairs(ccs, edges, l).len(),
        spec_blank_pairs(ccs, edges, l)[m] == spec_blank_pairs(ccs, edges, k)[m],
    decreases l - k,
{
    if k < l {
        lemma_blank_pairs_prefix(ccs, edges, k, l - 1, m);
    }
}

/// Whether a blank joins a node of component `i` to a node of the component after it, the first
/// one after the last.
pub open spec fn spec_blank_links(ccs: Seq<Seq<usize>>, edges: Seq<(usize, usize)>, i: int) -> bool {
    let blanks = spec_blank_pairs(ccs, edges, ccs.len() as int);
    exists|m: int|
        0 <= m < blanks.len() && ccs[i].contains(#[trigger] blanks[m].0) && ccs[(i + 1) % (
        ccs.len() as int)].contains(blanks[m].1)
}

proof fn lemma_blank_link(node_count: int, edges: Seq<(usize, usize)>, ccs: Seq<Seq<usize>>, i: int)
    requires
        spec_components_partition(node_count, edges, ccs),
        spec_odd_counts_even(edges, ccs),
        ccs.len() >= 2,
        0 <= i < ccs.len(),
    ensures
        spec_blank_links(ccs, edges, i),
{
    let n = ccs.len() as int;
    let j = if i + 1 < n {
        i + 1
    } else {
        0
    };
    assert((i + 1) % n == j) by (nonlinear_arith)
        requires
            0 <= i < n,
            j == (if i + 1 < n {
                i + 1
            } else {
                0
            }),
    ;
    lemma_to_connect_facts(ccs, edges, node_count, i);
    lemma_to_connect_facts(ccs, edges, node_count, j);
    let t = spec_to_connect(ccs[i], edges);
    let before = spec_blank_pairs(ccs, edges, i);
    let cp = spec_component_pairs(ccs, edges, i);
    let chunks = spec_chunk_pairs(t.1);
    assert(spec_blank_pairs(ccs, edges, i + 1) == before + cp);
    let m: int = (before.len() + chunks.len()) as int;
    assert(cp[chunks.len() as int] == (t.2, spec_to_connect(ccs[j], edges).0));
    assert((before + cp)[m] == cp[chunks.len() as int]);
    lemma_blank_pairs_prefix(ccs, edges, i + 1, n, m);
    let blanks = spec_blank_pairs(ccs, edges, n);
    assert(ccs[i].contains(blanks[m].0) && ccs[j].contains(blanks[m].1));
}

/// The blanks join two or more components into one: each component is joined to the next by a
/// blank from one of its nodes to one of the next component's nodes, and the last to the first.
pub proof fn lemma_blanks_link_components(node_count: int, edges: Seq<(usize, usize)>, ccs: Seq<Seq<usize>>)
    requires
        spec_components_partition(node_count, edges, ccs),
        spec_odd_counts_even(edges, ccs),
        ccs.len() >= 2,
    ensures
        forall|i: int| 0 <= i < ccs.len() ==> #[trigger] spec_blank_links(ccs, edges, i),
{
    assert forall|i: int| 0 <= i < ccs.len() implies #[trigger] spec_blank_links(ccs, edges, i) by {
        lemma_blank_link(node_count, edges, ccs, i);
    }
}

proof fn lemma_blank_pairs_in_range(ccs: Seq<Seq<usize>>, edges: Seq<(usize, usize)>, node_count: int, k: int)
    requires
        spec_components_partition(node_count, edges, ccs),
        spec_odd_counts_even(edges, ccs),
        0 <= k <= ccs.len(),
    ensures
        forall|m: int|
            0 <= m < spec_blank_pairs(ccs, edges, k).len() ==> (#[trigger] spec_blank_pairs(
                ccs,
                edges,
                k,
            )[m]).0 < node_count && spec_blank_pairs(ccs, edges, k)[m].1 < node_count,
    decreases k,
{
    if k > 0 {
        let i = k - 1;
        lemma_blank_pairs_in_range(ccs, edges, node_count, i);
        let prev = spec_blank_pairs(ccs, edges, i);
        let cp = spec_component_pairs(ccs, edges, i);
        let bp = spec_blank_pairs(ccs, edges, k);
        let ti = spec_to_connect(ccs[i], edges);
        lemma_to_connect_facts(ccs, edges, node_count, i);
        lemma_to_connect_facts(ccs, edges, node_count, 0);
        if i + 1 < ccs.len() {
            lemma_to_connect_facts(ccs, edges, node_count, i + 1);
        }
        assert forall|y: usize, j: int| 0 <= j < ccs.len() && #[trigger] ccs[j].contains(y) implies y < node_count by {
            let a = choose|a: int| 0 <= a < ccs[j].len() && ccs[j][a] == y;
            assert(ccs[j][a] < node_count);
        }
        let ch = spec_chunk_pairs(ti.1);
        assert forall|m: int| 0 <= m < bp.len() implies (#[trigger] bp[m]).0 < node_count && bp[m].1 < node_count by {
            if m < prev.len() {
                assert(bp[m] == prev[m]);
            } else if m < prev.len() + ch.len() {
                let q = m - prev.len();
                assert(bp[m] == ch[q]);
                assert(ccs[i].contains(ti.1[2 * q]));
                assert(ccs[i].contains(ti.1[2 * q + 1]));
            } else {
                assert(bp[m] == cp[m - prev.len()]);
            }
        }
    }
}

} // verus!
