//! Two-dimensional convolution over matrices of numbers: a filter slides a
//! kernel over a padded input and samples it by a stride; a layer sums the
//! maps of its filters and applies an activation.

pub mod activation;
pub mod error;
pub mod filter;
pub mod laws;
pub mod layer;
pub mod matrices;
pub mod random;
pub mod scalar;
pub mod window;
