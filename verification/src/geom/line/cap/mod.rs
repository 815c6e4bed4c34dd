//! Items related to capping the ends of lines or polylines.
//!
//! - **round**: ends the line with a half circle whose radius is half the line thickness.
//! - **square**: extends the line on either end by half the thickness.

pub mod round;
pub mod square;
