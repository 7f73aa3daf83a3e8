//! Host-side runtime for data-parallel GPU kernels: capability sets, kernel
//! artifacts, specialization, buffers, the pipeline cache and dispatch
//! validation, each with a machine-checked contract.

pub mod artifact;
pub mod cache;
pub mod decode;
pub mod device;
pub mod encode;
pub mod engine;
pub mod error;
pub mod features;
pub mod kernel;
pub mod scalar;
pub mod slice;
pub mod specialize;
pub mod spirv;
