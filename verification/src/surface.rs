//! Surface descriptors: the immutable record of a presentable target and
//! its construction from a native window handle.

use vstd::prelude::*;

verus! {

/// A width/height pair in pixels.
#[derive(Clone, Copy, PartialEq, Eq, Structural, Debug)]
pub struct Extent2d {
    pub width: u32,
    pub height: u32,
}

/// Multisampling mode of an image; the presentation path only ever uses
/// single-sampled images.
#[derive(Clone, Copy, PartialEq, Eq, Structural, Debug)]
pub enum AaMode {
    Single,
}

/// Dimensionality of the image a surface presents as.
#[derive(Clone, Copy, PartialEq, Eq, Structural, Debug)]
pub enum Kind {
    D2(u32, u32, AaMode),
}

/// Errors arising while constructing a surface descriptor.
#[derive(Clone, Copy, PartialEq, Eq, Structural, Debug)]
pub enum SurfaceError {
    /// The platform rejected the native window handle (for example, a null
    /// handle); fatal, the caller must supply a valid window.
    InvalidHandle,
}

/// Immutable record of a presentable target: an opaque native window handle
/// (borrowed, never owned) and the last known client-area extent.
///
/// The extent may go stale if the underlying window is resized; detecting
/// staleness and recreating the swapchain is the caller's responsibility.
#[derive(Clone, Copy, PartialEq, Eq, Structural, Debug)]
pub struct SurfaceDescriptor {
    /// Opaque native window handle; non-zero in a well-formed descriptor.
    /// The window's lifetime is managed by the windowing collaborator.
    pub native_handle: u64,
    pub width: u32,
    pub height: u32,
}

impl SurfaceDescriptor {
    /// A descriptor is well formed when its handle is non-null and its
    /// client area is non-empty.
    pub open spec fn wf(self) -> bool {
        self.native_handle != 0 && self.width > 0 && self.height > 0
    }

    /// The client-area extent the descriptor was built with.
    pub open spec fn spec_extent(self) -> Extent2d {
        Extent2d { width: self.width, height: self.height }
    }

    /// Every queue family may present to a surface under the flip-model
    /// presentation engine.
    pub fn supports_queue_family(&self) -> (supported: bool)
        ensures
            supported,
    {
        true
    }

    /// The surface presents as a single-sampled two-dimensional image of
    /// the descriptor's extent.
    pub fn get_kind(&self) -> (kind: Kind)
        ensures
            kind == Kind::D2(self.width, self.height, AaMode::Single),
    {
        Kind::D2(self.width, self.height, AaMode::Single)
    }
}

/// Builds the descriptor for a native window handle whose client-area
/// extent has already been measured as `width` by `height` pixels.
///
/// Querying the client area is the windowing collaborator's part; this
/// function validates the handle and records the extent. A null handle is
/// rejected with `InvalidHandle`; a zero-area extent is a caller error and
/// excluded by precondition.
pub fn create_surface(native_handle: u64, width: u32, height: u32) -> (result: Result<
    SurfaceDescriptor,
    SurfaceError,
>)
    requires
        width > 0,
        height > 0,
    ensures
        result is Ok <==> native_handle != 0,
        result matches Ok(surface) ==> surface == (SurfaceDescriptor {
            native_handle,
            width,
            height,
        }) && surface.wf(),
        result matches Err(e) ==> e == SurfaceError::InvalidHandle,
{
    if native_handle == 0 {
        Err(SurfaceError::InvalidHandle)
    } else {
        Ok(SurfaceDescriptor { native_handle, width, height })
    }
}

/// Builds the descriptor from a native window handle and the client
/// rectangle the windowing system reported for it, given as left/top/
/// right/bottom pixel coordinates; the extent is the rectangle's width and
/// height. An empty rectangle is a caller error and excluded by
/// precondition.
pub fn create_surface_from_hwnd(hwnd: u64, left: i32, top: i32, right: i32, bottom: i32) -> (result:
    Result<SurfaceDescriptor, SurfaceError>)
    requires
        left < right,
        top < bottom,
    ensures
        result is Ok <==> hwnd != 0,
        result matches Ok(surface) ==> {
            &&& surface.native_handle == hwnd
            &&& surface.width == right - left
            &&& surface.height == bottom - top
            &&& surface.wf()
        },
        result matches Err(e) ==> e == SurfaceError::InvalidHandle,
{
    let width = ((right as i64) - (left as i64)) as u32;
    let height = ((bottom as i64) - (top as i64)) as u32;
    create_surface(hwnd, width, height)
}

} // verus!
