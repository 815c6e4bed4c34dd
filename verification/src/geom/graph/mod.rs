//! Items of the geometry graph.

pub mod edge;
