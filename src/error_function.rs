//! The loss functions that compare the network's output with its target.

use vstd::prelude::*;

verus! {

/// The loss of a network: half the mean squared error, or the binary cross
/// entropy of values clamped away from `0` and `1`.
#[derive(Debug, Clone, Copy, PartialEq, Eq, Structural)]
pub enum ErrorFunction {
    HalfMeanSquaredError,
    BinaryCrossEntropy,
}

} // verus!
