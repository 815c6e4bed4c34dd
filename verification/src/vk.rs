//! Choosing Vulkan settings from the limits that a physical device reports.
use vstd::prelude::*;

verus! {

/// The multisampling sample count to use: the `target_msaa_samples` limited to the minimum of
/// the device's color and depth sample count limits.
///
/// This is useful for attempting a specific multisampling sample count but falling back to a
/// supported count in the case that the desired count is unsupported.
pub fn msaa_samples_limited(color_limit: u32, depth_limit: u32, target_msaa_samples: u32) -> (r:
    u32)
    ensures
        r == crate::math::spec_partial_min(
            crate::math::spec_partial_min(color_limit as int, depth_limit as int),
            target_msaa_samples as int,
        ),
        r <= color_limit && r <= depth_limit && r <= target_msaa_samples,
{
    let msaa_limit = if color_limit <= depth_limit {
        color_limit
    } else {
        depth_limit
    };
    if msaa_limit <= target_msaa_samples {
        msaa_limit
    } else {
        target_msaa_samples
    }
}

} // verus!
