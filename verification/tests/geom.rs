use nannou::geom::line::join::miter::{next_pair, PairStep, VertexPairs};
use nannou::geom::polygon;
use nannou::geom::graph::edge::{self, Axis, Edge, Euler, Kind, Rad, Relative};
use nannou::geom::line::join::miter::triangle_indices;
use nannou::geom::point::{pt2, pt3};
use nannou::geom::point_path::{self, PointPath};
use nannou::geom::polyline::{self, Polyline};
use nannou::geom::quad::{self, Quad};
use nannou::geom::tri::{flatten_index_tris, iter_from_vertices, vertices_from_iter, Tri};
use nannou::geom::vector::{vec2, vec3, Vector2, Vector3, Vector4};
use nannou::geom::vertex::iter_from_indices;

#[test]
fn vector_basics() {
    let v = Vector2::new(3i64, 4);
    assert_eq!(v.extend(5), Vector3::new(3, 4, 5));
    assert_eq!(Vector4::new(1i64, 2, 3, 4).truncate(), Vector3::new(1, 2, 3));
    assert_eq!(Vector4::new(1i64, 2, 3, 4).truncate_n(1), Vector3::new(1, 3, 4));
    assert_eq!(Vector4::new(1i64, 2, 3, 4).truncate_n(3), Vector3::new(1, 2, 3));
    assert_eq!(Vector2::<i64>::unit_x(), vec2(1, 0));
    assert_eq!(vec2(2i64, 3).perp_dot(vec2(5, 7)), 2 * 7 - 3 * 5);
    assert_eq!(vec3(1i64, 0, 0).cross(vec3(0, 1, 0)), vec3(0, 0, 1));
    assert_eq!(vec3(2i64, 3, 4).sum(), 9);
    assert_eq!(vec3(2i64, 3, 4).product(), 24);
    assert!(Vector3::<i64>::zero().is_zero());
    assert!(Vector4::<i64>::one().is_one());
}

#[test]
fn perp_dot_is_antisymmetric() {
    let a = vec2(3i64, -8);
    let b = vec2(-5i64, 2);
    assert_eq!(a.perp_dot(b), -b.perp_dot(a));
}

#[test]
fn cross_is_orthogonal_to_operands() {
    let a = vec3(1i64, 2, 3);
    let b = vec3(4i64, 5, 6);
    let c = a.cross(b);
    assert_eq!(c, vec3(-3, 6, -3));
    assert_eq!(c.x * a.x + c.y * a.y + c.z * a.z, 0);
    assert_eq!(c.x * b.x + c.y * b.y + c.z * b.z, 0);
}

#[test]
fn edge_constructors() {
    let e = Edge::y_orientation(2.5f32);
    assert_eq!(e.kind, Kind::new(Axis::Y, Relative::Orientation));
    assert_eq!(e.weight, 2.5);
    let d = edge::displace(Vector3::new(1, 2, 3));
    assert_eq!(d[0], Edge::x_position(1));
    assert_eq!(d[1], Edge::y_position(2));
    assert_eq!(d[2], Edge::z_position(3));
    let s = edge::scale(7);
    assert_eq!(s[2].kind, Kind::z_scale());
    assert_eq!(s[1].weight, 7);
    let r = edge::rotate(Euler { x: Rad(1), y: Rad(2), z: Rad(3) });
    assert_eq!(r[0], Edge::x_orientation(1));
    assert_eq!(r[1], Edge::y_orientation(2));
    assert_eq!(r[2], Edge::z_orientation(3));
}

#[test]
fn tri_from_vertices_and_indices() {
    let vs = [pt2(0i64, 0), pt2(4, 0), pt2(0, 4), pt2(9, 9)];
    assert_eq!(Tri::from_vertices(&vs[..2]), None);
    assert_eq!(Tri::from_vertices(&vs), Some(Tri([vs[0], vs[1], vs[2]])));
    assert_eq!(Tri::from_index_tri(&vs, &[3, 1, 0]), Tri([vs[3], vs[1], vs[0]]));
    let mut it = Tri([1, 2, 3]).vertices();
    assert_eq!(it.len(), 3);
    assert_eq!(it.next(), Some(1));
    assert_eq!(it.next(), Some(2));
    assert_eq!(it.next(), Some(3));
    assert_eq!(it.next(), None);
    assert_eq!(it.len(), 0);
    assert_eq!(Tri([1, 2, 3]).map_vertices(|v| v * 10), Tri([10, 20, 30]));
}

#[test]
fn tri_contains() {
    let t = Tri([pt2(0i64, 0), pt2(0, 10), pt2(10, 0)]);
    assert!(t.contains(&pt2(2, 2)));
    assert!(!t.contains(&pt2(20, 20)));
    assert!(!t.contains(&pt2(-1, 5)));
    let rotated = Tri([t.0[1], t.0[2], t.0[0]]);
    for p in [pt2(2i64, 2), pt2(20, 20), pt2(-1, 5), pt2(0, 0)] {
        assert_eq!(t.contains(&p), rotated.contains(&p));
    }
    let tris = [Tri([pt2(20i64, 20), pt2(20, 30), pt2(30, 20)]), t];
    assert_eq!(nannou::geom::tri::iter_contains(&tris, &pt2(1, 1)), Some(t));
    assert_eq!(nannou::geom::tri::iter_contains(&tris, &pt2(100, 100)), None);
}

#[test]
fn tris_grouped_and_flattened() {
    let mut tris = iter_from_vertices(vec![1, 2, 3, 4, 5, 6, 7, 8]);
    assert_eq!(tris.next(), Some(Tri([1, 2, 3])));
    assert_eq!(tris.next(), Some(Tri([4, 5, 6])));
    assert_eq!(tris.next(), None);
    assert_eq!(tris.next(), None);

    let mut vs = vertices_from_iter(vec![Tri([1, 2, 3]), Tri([4, 5, 6])]);
    let mut out = vec![];
    while let Some(v) = vs.next() {
        out.push(v);
    }
    assert_eq!(out, vec![1, 2, 3, 4, 5, 6]);

    let mut flat = flatten_index_tris(vec![[0, 1, 2], [0, 2, 3]]);
    assert_eq!(flat.len(), 6);
    let mut out = vec![];
    while let Some(i) = flat.next() {
        out.push(i);
    }
    assert_eq!(out, vec![0, 1, 2, 0, 2, 3]);
    assert_eq!(flat.len(), 0);
}

#[test]
fn quad_triangles() {
    let q = Quad([pt3(0i64, 0, 0), pt3(1, 0, 0), pt3(1, 1, 0), pt3(0, 1, 0)]);
    let (a, b) = q.triangles();
    assert_eq!(a, Tri([q.0[0], q.0[1], q.0[2]]));
    assert_eq!(b, Tri([q.0[0], q.0[2], q.0[3]]));
    let mut it = quad::triangles_iter(&q);
    assert_eq!(it.len(), 2);
    assert_eq!(it.next(), Some(a));
    assert_eq!(it.len(), 0);
    assert_eq!(it.next(), Some(b));
    assert_eq!(it.len(), 1);
    assert_eq!(it.next(), None);
    let mut back = q.triangles_iter();
    assert_eq!(back.next_back(), Some(b));
    assert_eq!(back.next_back(), Some(a));
    assert_eq!(back.next_back(), None);
    let mut vs = q.vertices();
    assert_eq!(vs.len(), 4);
    assert_eq!(vs.next(), Some(q.0[0]));
    assert_eq!(vs.len(), 3);
}

#[test]
fn miter_triangle_indices() {
    let mut it = triangle_indices(3);
    assert_eq!(it.len(), 4);
    assert_eq!(it.next(), Some([0, 1, 2]));
    assert_eq!(it.next(), Some([1, 3, 2]));
    assert_eq!(it.next(), Some([2, 3, 4]));
    assert_eq!(it.next(), Some([3, 5, 4]));
    assert_eq!(it.next(), None);
    assert_eq!(it.len(), 0);
    let mut one = triangle_indices(1);
    assert_eq!(one.next(), None);
}

#[test]
fn miter_indices_name_normal_vertices() {
    let n_points = 5;
    let mut it = triangle_indices(n_points);
    while let Some(trio) = it.next() {
        for i in trio {
            assert!(i < 2 * n_points);
        }
    }
}

#[test]
fn vertices_from_indices() {
    let vs = ['a', 'b', 'c'];
    let mut it = iter_from_indices(vec![2, 0, 2, 1], &vs);
    assert_eq!(it.len(), 4);
    assert_eq!(it.next(), Some(&'c'));
    assert_eq!(it.next_back(), Some(&'b'));
    assert_eq!(it.next(), Some(&'a'));
    assert_eq!(it.next(), Some(&'c'));
    assert_eq!(it.next(), None);
    assert_eq!(it.next_back(), None);
}

#[test]
fn path_builders() {
    let p: PointPath<_, _, _, _> = point_path::new(vec![pt2(0i64, 0), pt2(1, 1)], 3u32);
    let p = p.cap_round().join_bevel();
    assert_eq!(p.thickness, 3);
    assert_eq!(p.points.len(), 2);
    let _: PointPath<point_path::cap::Round, point_path::join::Bevel, Vec<_>, u32> = p;
    let l: Polyline<_, _, _, _> = polyline::new(vec![pt2(0i64, 0)], 2u32).cap_square().join_round();
    let l = l.join(polyline::join::Bevel).cap(polyline::cap::Butt);
    assert_eq!(l.thickness, 2);
}

#[test]
fn polygon_fan() {
    assert!(polygon::triangles(vec![pt2(0i64, 0)]).is_none());
    let square = vec![pt2(0i64, 0), pt2(0, 10), pt2(10, 10), pt2(10, 0)];
    let mut ts = polygon::triangles(square.clone()).unwrap();
    assert_eq!(ts.next(), Some(Tri([square[0], square[1], square[2]])));
    assert_eq!(ts.next(), Some(Tri([square[0], square[2], square[3]])));
    assert_eq!(ts.next(), None);
    assert_eq!(
        polygon::contains(square.clone(), pt2(8, 2)),
        Some(Tri([square[0], square[2], square[3]]))
    );
    assert_eq!(polygon::contains(square, pt2(50, 50)), None);
}

#[test]
fn vector_map_and_zip_map() {
    assert_eq!(vec2(1i64, 2).map(|c| c * 3), vec2(3, 6));
    assert_eq!(vec3(1i64, 2, 3).zip_map(vec3(10i64, 20, 30), |a, b| a + b), vec3(11, 22, 33));
    assert_eq!(
        Vector4::new(1i64, 2, 3, 4).zip_map(Vector4::new(4i64, 3, 2, 1), |a, b| a * b),
        Vector4::new(4, 6, 6, 4)
    );
}

#[test]
fn miter_pair_steps() {
    let (a, b, c) = ((0, 0), (2, 0), (2, 2));
    let mut pairs = VertexPairs::new(vec![a, b, c]);
    assert_eq!(pairs.len(), 2);
    assert_eq!(pairs.next(), PairStep::Start { b: a, c: b });
    assert_eq!(pairs.len(), 2);
    assert_eq!(pairs.next(), PairStep::Join { a, b, c });
    assert_eq!(pairs.next(), PairStep::End { a: b, b: c });
    assert_eq!(pairs.len(), 0);
    assert_eq!(pairs.next(), PairStep::Done);
    let mut single = VertexPairs::new(vec![a]);
    assert_eq!(single.next(), PairStep::Done);
}

#[test]
fn next_pair_updates_points() {
    let mut pa = None;
    let mut pb = Some(1);
    assert_eq!(next_pair(&mut pa, &mut pb, Some(2)), PairStep::Start { b: 1, c: 2 });
    assert_eq!((pa, pb), (Some(1), Some(2)));
    assert_eq!(next_pair(&mut pa, &mut pb, None), PairStep::End { a: 1, b: 2 });
    assert_eq!((pa, pb), (Some(2), None));
    assert_eq!(next_pair(&mut pa, &mut pb, Some(3)), PairStep::Done);
    assert_eq!((pa, pb), (None, None));
}

#[test]
fn flattened_index_tris_group_back() {
    let ts = vec![[0, 1, 2], [2, 3, 0]];
    let mut flat = flatten_index_tris(ts.clone());
    let mut out = vec![];
    while let Some(i) = flat.next() {
        out.push(i);
    }
    assert_eq!(out, vec![0, 1, 2, 2, 3, 0]);
    let mut tris = iter_from_vertices(out);
    let mut back = vec![];
    while let Some(t) = tris.next() {
        back.push(t.0);
    }
    assert_eq!(back, ts);
}
