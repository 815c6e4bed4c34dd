use nannou::geom::point::pt2;
use nannou::geom::tri::Tri;
use nannou::mesh::vertex::{WithColor, WithNormal};
use nannou::mesh::{
    from_points, raw_vertices, triangles, vertices, with_colors, with_indices, with_normals,
    with_tex_coords, Channel, ChannelMut, Colors, GetVertex, Indices, Normals, Points, TexCoords,
};

#[test]
fn points_mesh_vertices() {
    let mesh = from_points(vec![10, 20, 30]);
    assert_eq!(mesh.get_vertex(1), Some(20));
    assert_eq!(mesh.get_vertex(3), None);
    let mut raw = raw_vertices(mesh);
    assert_eq!(raw.next(), Some(10));
    assert_eq!(raw.next(), Some(20));
    assert_eq!(raw.next(), Some(30));
    assert_eq!(raw.next(), None);
}

#[test]
fn colored_mesh_vertices() {
    let mesh = with_colors(from_points(vec![1, 2, 3]), vec!['r', 'g']);
    assert_eq!(mesh.get_vertex(0), Some(WithColor { vertex: 1, color: 'r' }));
    // A vertex without a color is no vertex of the colored mesh.
    assert_eq!(mesh.get_vertex(2), None);
    assert_eq!(mesh.colors().channel(), &['r', 'g'][..]);
    assert_eq!(mesh.points().channel(), &[1, 2, 3][..]);
}

#[test]
fn indexed_mesh_vertices_and_triangles() {
    let mesh = with_indices(from_points(vec![pt2(0i64, 0), pt2(1, 0), pt2(1, 1), pt2(0, 1)]), vec![0, 1, 2, 0, 2, 3]);
    assert_eq!(mesh.indices().channel(), &[0, 1, 2, 0, 2, 3][..]);
    let mut vs = vertices(&mesh);
    assert_eq!(vs.len(), 6);
    assert_eq!(vs.next(), Some(pt2(0, 0)));
    // Both ends share one count of yielded vertices: after one vertex from the front, the back
    // yields the second-to-last index.
    assert_eq!(vs.next_back(), Some(pt2(1, 1)));
    assert_eq!(vs.len(), 4);
    let mut tris = triangles(&mesh);
    assert_eq!(tris.next(), Some(Tri([pt2(0, 0), pt2(1, 0), pt2(1, 1)])));
    assert_eq!(tris.next(), Some(Tri([pt2(0, 0), pt2(1, 1), pt2(0, 1)])));
    assert_eq!(tris.next(), None);
}

#[test]
fn adaptors_keep_inner_channels() {
    let mesh = with_normals(
        with_tex_coords::<_, _, i64>(
            with_colors(with_indices(from_points(vec![5, 6]), vec![1, 0]), vec![7u8, 8]),
            vec![pt2(0i64, 1), pt2(2, 3)],
        ),
        vec![-1, -2],
    );
    assert_eq!(mesh.points().channel(), &[5, 6][..]);
    assert_eq!(mesh.indices().channel(), &[1, 0][..]);
    assert_eq!(mesh.colors().channel(), &[7, 8][..]);
    assert_eq!(mesh.tex_coords().channel(), &[pt2(0, 1), pt2(2, 3)][..]);
    assert_eq!(mesh.normals().channel(), &[-1, -2][..]);
    let v = mesh.get_vertex(1).unwrap();
    assert_eq!(v.normal, -2);
    assert_eq!(v.vertex.tex_coords, pt2(2, 3));
    assert_eq!(v.vertex.vertex.color, 8);
    assert_eq!(v.vertex.vertex.vertex, 6);
    let _ = WithNormal { vertex: 0, normal: 0 };
}

#[test]
fn channel_mut_writes_through() {
    let mut v = vec![1, 2, 3];
    v.channel_mut()[1] = 9;
    assert_eq!(v, vec![1, 9, 3]);
    let arr = [4, 5];
    assert_eq!(arr.channel(), &[4, 5][..]);
}
