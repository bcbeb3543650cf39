//! Composable verified algebra: Cayley-Dickson pairs over any conjugated
//! ring, a modular field element, and variance-tagged fixed-length tensors
//! with contraction.

pub mod cayley;
pub mod galois;
pub mod tensor;
