//! Run-time sized, heap-backed arrays and a tensor that stores its elements
//! in one of them.

pub mod data;

pub use data::fhr::{FixedHeapArray, IntoIter};
pub use data::tensor::Tensor;
