//! Capability negotiation: reports, for a given surface, the supported
//! formats, the legal backbuffer-count range, and the legal extent range.

use vstd::prelude::*;
use crate::format::{Format, format_catalog, surface_format_list};
use crate::surface::{Extent2d, SurfaceDescriptor};

verus! {

/// Smallest backbuffer count the flip-discard presentation mode supports;
/// a policy constant, not negotiated with the native engine.
pub const MIN_IMAGE_COUNT: u32 = 2;

/// Largest backbuffer count the flip-discard presentation mode supports.
pub const MAX_IMAGE_COUNT: u32 = 16;

/// Array (stereo/layered) swapchains are not supported.
pub const MAX_IMAGE_LAYERS: u32 = 1;

/// Immutable snapshot of the bounds a swapchain built on a surface must
/// respect. Recomputed on demand; never cached across a surface resize.
#[derive(Clone, Copy, PartialEq, Eq, Debug)]
pub struct Capabilities {
    pub min_image_count: u32,
    pub max_image_count: u32,
    /// The extent the engine will present at. Always populated: the engine
    /// is tied to a single window whose size is known at query time.
    pub current_extent: Option<Extent2d>,
    /// Smallest legal swapchain extent; collapses to `current_extent`.
    pub min_extent: Extent2d,
    /// Largest legal swapchain extent; collapses to `current_extent` — the
    /// surface does not support mismatched swapchain/window extents.
    pub max_extent: Extent2d,
    pub max_image_layers: u32,
}

/// Pure capability query for a presentable surface. No device state is
/// consulted and no query is made against the native engine: under the
/// flip-model assumption the answer is intrinsic to the surface.
///
/// Returns the capability snapshot together with the fixed format catalog;
/// it never fails, and the same surface always yields the same answer.
pub fn capabilities_and_formats(surface: &SurfaceDescriptor) -> (result: (
    Capabilities,
    Vec<Format>,
))
    requires
        surface.wf(),
    ensures
        result.0.min_image_count == MIN_IMAGE_COUNT,
        result.0.max_image_count == MAX_IMAGE_COUNT,
        result.0.max_image_layers == MAX_IMAGE_LAYERS,
        result.0.current_extent == Some(surface.spec_extent()),
        result.0.min_extent == surface.spec_extent(),
        result.0.max_extent == surface.spec_extent(),
        result.1@ == format_catalog(),
{
    let extent = Extent2d { width: surface.width, height: surface.height };
    let capabilities = Capabilities {
        min_image_count: MIN_IMAGE_COUNT,
        max_image_count: MAX_IMAGE_COUNT,
        current_extent: Some(extent),
        min_extent: extent,
        max_extent: extent,
        max_image_layers: MAX_IMAGE_LAYERS,
    };
    (capabilities, surface_format_list())
}

} // verus!
