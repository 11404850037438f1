//! The fixed catalog of pixel formats renderable as presentable targets
//! under flip-discard presentation.

use vstd::prelude::*;

verus! {

/// Channel layout of a pixel format.
#[derive(Clone, Copy, PartialEq, Eq, Structural, Debug)]
pub enum SurfaceType {
    B8G8R8A8,
    R8G8B8A8,
    R10G10B10A2,
    R16G16B16A16,
}

/// Encoding of the stored channel values.
#[derive(Clone, Copy, PartialEq, Eq, Structural, Debug)]
pub enum ChannelType {
    /// Implicit gamma correction on scan-out; handled internally as Unorm.
    Srgb,
    /// Linear-storage normalized values.
    Unorm,
    /// 16-bit floating-point storage (an encoding tag only; no host-side
    /// float arithmetic is involved).
    Float,
}

/// A pixel format: a channel layout together with an encoding.
#[derive(Clone, Copy, PartialEq, Eq, Structural, Debug)]
pub struct Format {
    pub surface: SurfaceType,
    pub channel: ChannelType,
}

/// The fixed, compile-time-known catalog of formats valid as presentable
/// targets under flip-discard presentation: the 8-bit and 10-bit
/// normalized layouts plus the 16-bit floating-point layout, each exposed
/// in its gamma-corrected and linear-storage variants where both exist,
/// ordered by presentation-engine popularity. Consumers pick the first
/// entry satisfying their own constraints.
pub open spec fn format_catalog() -> Seq<Format> {
    seq![
        Format { surface: SurfaceType::B8G8R8A8, channel: ChannelType::Srgb },
        Format { surface: SurfaceType::B8G8R8A8, channel: ChannelType::Unorm },
        Format { surface: SurfaceType::R8G8B8A8, channel: ChannelType::Srgb },
        Format { surface: SurfaceType::R8G8B8A8, channel: ChannelType::Unorm },
        Format { surface: SurfaceType::R10G10B10A2, channel: ChannelType::Unorm },
        Format { surface: SurfaceType::R16G16B16A16, channel: ChannelType::Float },
    ]
}

/// The catalog as an ordered list. Every call returns the same list in the
/// same order: the result equals `format_catalog()` unconditionally.
pub fn surface_format_list() -> (formats: Vec<Format>)
    ensures
        formats@ == format_catalog(),
{
    let mut formats: Vec<Format> = Vec::new();
    formats.push(Format { surface: SurfaceType::B8G8R8A8, channel: ChannelType::Srgb });
    formats.push(Format { surface: SurfaceType::B8G8R8A8, channel: ChannelType::Unorm });
    formats.push(Format { surface: SurfaceType::R8G8B8A8, channel: ChannelType::Srgb });
    formats.push(Format { surface: SurfaceType::R8G8B8A8, channel: ChannelType::Unorm });
    formats.push(Format { surface: SurfaceType::R10G10B10A2, channel: ChannelType::Unorm });
    formats.push(Format { surface: SurfaceType::R16G16B16A16, channel: ChannelType::Float });
    proof {
        assert(formats@ =~= format_catalog());
    }
    formats
}

/// The format catalog is non-empty and holds no duplicate entries.
pub proof fn lemma_format_catalog_well_formed()
    ensures
        format_catalog().len() > 0,
        forall|i: int, j: int|
            0 <= i < j < format_catalog().len() ==> format_catalog()[i] != format_catalog()[j],
{
}

} // verus!
