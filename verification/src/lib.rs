//! Presentation subsystem of a graphics abstraction layer: negotiation of a
//! drawable surface's capabilities and the lifecycle of a swapchain that
//! cycles a bounded ring of backbuffers between the application and a
//! flip-discard display engine.

pub mod capability;
pub mod format;
pub mod surface;
pub mod swapchain;
