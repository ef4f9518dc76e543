//! Particle simulation core for a video-style effects pipeline: compute
//! dispatch planning, the buffer layout shared by host and device,
//! deterministic spawn bookkeeping, quality budgets and timeline pass
//! sequencing.

pub mod compute;
pub mod gpu;
pub mod quality;
pub mod spawn;
pub mod timeline;
