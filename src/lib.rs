//! Tensor operator kernels: strided index decomposition, resampling taps,
//! a small kernel IR with a deterministic text compiler, the max-pool
//! gradient kernel built on top of it, and sum-reduction steps.
pub mod cache;
pub mod compiler;
pub mod index;
pub mod interpolate;
pub mod ir;
pub mod launch;
pub mod pool_gradient;
pub mod pool_kernel;
pub mod reduce;
pub mod text;
