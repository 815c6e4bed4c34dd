//! Line join styles.

pub mod miter;
