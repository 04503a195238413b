//! Freivalds' probabilistic check of a matrix product over the base field of BLS12-381.
//!
//! A `Freivald` store holds `k` challenge vectors `(1, r, r^2, ..., r^(n-1))`, each from its
//! own seed `r`. `verify` decides whether `A·B = C` for `n × n` matrices by testing
//! `A·(B·x) = C·x` for each vector `x`, with `O(k·n^2)` field operations. A true product is
//! always accepted; a false one is accepted with probability at most `((n-1)/p)^k`.
use vstd::prelude::*;

pub mod field;
pub mod freivald;
pub mod lemmas;
pub mod matrix;

pub use field::Fe;
pub use freivald::{Freivald, FreivaldError};
pub use matrix::{check_matrix_dimensions, Matrix};

verus! {

} // verus!
