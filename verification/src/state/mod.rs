//! Tracked state related to input devices.

pub mod mouse;
