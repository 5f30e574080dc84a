//! Verified discrete core of the HoloEngine topological engine.
pub mod union_find;
pub mod topology;
pub mod tda;
pub mod shaders;
pub mod gpu_compute;
pub mod world;
pub mod telemetry;
pub mod chunks;
