//! A small numerical-learning sandbox, verified with Verus.
//!
//! The crate fits scalar and small-matrix models to boolean-gate truth
//! tables by gradient descent, where the gradient is estimated by
//! one-sided finite differences. Scalars are IEEE-754 double bit
//! patterns computed by a software floating-point library behind a thin
//! trusted boundary; everything structural — flat-buffer matrices with
//! stride addressing, shape checking, the forward pass, the loss sweep,
//! the perturb/restore gradient estimation and the training loop — is
//! verified.

pub mod matrix;
pub mod model;
pub mod neuron;
pub mod scalar;
pub mod xor_net;
