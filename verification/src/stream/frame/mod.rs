//! Frame-based laser streams.

pub mod opt;
