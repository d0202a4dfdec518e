use vstd::prelude::*;

pub use crate::utils::math::{AsI32, AsU32};

verus! {

/// Rounding to a multiple of a step, reading the value by reference.
pub trait RoundBy: Sized {
    fn round_by(&self, n: Self) -> Self;
}

} // verus!
