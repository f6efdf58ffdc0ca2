//! Reverse-mode automatic differentiation over n-dimensional integer tensors.
//!
//! Tensors live in a [`tensor::Tape`], an arena of records addressed by
//! [`tensor::Tensor`] handles. Every forward operation in [`operations`] appends a
//! record that remembers the operation that produced it; [`tensor::Tensor::backward`]
//! walks those records back to the leaves, accumulating gradients as
//! [`backward::propagate`] describes. Elements are `i64`, and all element arithmetic
//! is two's-complement wrapping arithmetic, so every kernel is total.
pub mod backward;
pub mod kernels;
pub mod operations;
pub mod shape;
pub mod tensor;
