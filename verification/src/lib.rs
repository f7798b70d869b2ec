//! Orchestration logic for live video compositing: which scene an output
//! shows, which frame a consumer sees, and how a rendered texture becomes a
//! tightly packed RGBA8 pixel buffer.

pub mod scene;
pub mod outputs;
pub mod scheduler;
pub mod texture;
pub mod readback;
pub mod frames;
pub mod convert;
pub mod compositor;
