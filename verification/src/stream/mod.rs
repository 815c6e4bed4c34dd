//! Laser stream logic: frame optimisation passes and stream timing helpers.

pub mod frame;
pub mod raw;
