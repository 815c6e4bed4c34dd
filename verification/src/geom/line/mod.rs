//! Line joins and caps.

pub mod cap;
pub mod join;
