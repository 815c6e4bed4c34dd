//! Raw laser stream helpers.
use vstd::prelude::*;

verus! {

/// The number of points emitted per frame at the given point and frame rates.
pub open spec fn spec_points_per_frame(point_hz: u32, frame_hz: u32) -> int
    recommends
        frame_hz > 0,
{
    point_hz as int / frame_hz as int
}

/// The number of points emitted per frame at the given point and frame rates.
pub fn points_per_frame(point_hz: u32, frame_hz: u32) -> (r: u32)
    requires
        frame_hz > 0,
    ensures
        r == spec_points_per_frame(point_hz, frame_hz),
{
    point_hz / frame_hz
}

/// Given the point rate, determine a default latency at ~16ms.
pub fn default_latency_points(point_hz: u32) -> (r: u32)
    ensures
        r == spec_points_per_frame(point_hz, 60),
{
    points_per_frame(point_hz, 60)
}

/// The number of points the DAC's buffer can still take: its capacity less one, less the
/// points already in it.
pub fn dac_remaining_buffer_capacity(buffer_capacity: u16, buffer_fullness: u16) -> (r: u16)
    requires
        buffer_fullness + 1 <= buffer_capacity,
    ensures
        r == buffer_capacity - 1 - buffer_fullness,
{
    buffer_capacity - 1 - buffer_fullness
}

/// The number of points needed to fill the DAC up to `latency_points`, limited by the room left
/// in its buffer.
pub fn points_to_generate(buffer_capacity: u16, buffer_fullness: u16, latency_points: u16) -> (r:
    u16)
    requires
        buffer_fullness + 1 <= buffer_capacity,
    ensures
        r == crate::math::spec_partial_min(
            if buffer_fullness < latency_points {
                latency_points - buffer_fullness
            } else {
                0
            },
            buffer_capacity - 1 - buffer_fullness,
        ),
        r + buffer_fullness <= buffer_capacity - 1,
        buffer_fullness + r <= latency_points || r == 0,
{
    let remaining_capacity = dac_remaining_buffer_capacity(buffer_capacity, buffer_fullness);
    let n = if buffer_fullness < latency_points {
        latency_points - buffer_fullness
    } else {
        0
    };
    if n <= remaining_capacity {
        n
    } else {
        remaining_capacity
    }
}

} // verus!
