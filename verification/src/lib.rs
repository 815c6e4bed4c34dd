//! A verified core of the nannou creative-coding toolkit: integer geometry (vectors, triangles,
//! quads, polygons, graph edges, line joins), mesh channels, text line breaking and font maps,
//! laser frame graph optimisation, OSC packets, mouse button state, and timeline periods, bars
//! and ruler markers.

pub mod bars;
pub mod geom;
pub mod math;
pub mod mesh;
pub mod osc;
pub mod period;
pub mod ruler;
pub mod state;
pub mod stream;
pub mod text;
pub mod vk;
