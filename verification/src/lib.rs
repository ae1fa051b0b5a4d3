//! The frame buffer pipeline of a headless compositor: the buffers that the
//! renderer draws into, the protocol that hands a finished frame to a capture
//! client, the commands by which a media pipeline asks for a frame, and the
//! buffer pool and allocators of that pipeline.

pub mod allocators;
pub mod buffer_pool;
pub mod capture;
pub mod comp;
pub mod dmabuf;
pub mod export_dmabuf;
pub mod swapchain;
pub mod time;
pub mod utils;
pub mod video;
pub mod waylandsrc;
pub mod window;
