//! Geometry: vectors and points, triangles, quads, graph edges, line joins and paths.

pub mod graph;
pub mod line;
pub mod point;
pub mod polygon;
pub mod point_path;
pub mod polyline;
pub mod quad;
pub mod rect;
pub mod tri;
pub mod vector;
pub mod vertex;
