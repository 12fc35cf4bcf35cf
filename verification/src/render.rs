//! What a renderer decides on: the swap chain, the device, the memory, the planes
//! of a decoded frame, the glyphs of an overlay. Talking to the graphics system is
//! done outside.

pub mod atlas;
pub mod device;
pub mod planes;
pub mod presentation;
pub mod shader;
pub mod swapchain;
