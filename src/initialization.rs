//! Schemes that fill a layer's weights and biases before training.

use vstd::prelude::*;

verus! {

/// How a layer's parameters are drawn: uniform or normal, scaled by the
/// Xavier rule (fan-in and fan-out) or the He rule (fan-in alone).
#[derive(Debug, Clone, Copy, PartialEq, Eq, Structural)]
pub enum Initialization {
    UniformXavier,
    UniformHe,
    NormalXavier,
    NormalHe,
}

impl Initialization {
    /// Whether the scheme draws from a uniform distribution; otherwise it
    /// draws from a normal one centred on zero.
    pub open spec fn uniform_spec(self) -> bool {
        self is UniformXavier || self is UniformHe
    }

    /// The scale of the distribution is `sqrt(numerator / denominator)`: the
    /// bound of a uniform draw, the standard deviation of a normal one.
    pub open spec fn scale_spec(self, fan_in: int, fan_out: int) -> (int, int) {
        match self {
            Initialization::UniformXavier => (6, fan_in + fan_out),
            Initialization::UniformHe => (6, fan_in),
            Initialization::NormalXavier => (2, fan_in + fan_out),
            Initialization::NormalHe => (2, fan_in),
        }
    }

    /// Whether the scheme draws from a uniform distribution.
    pub fn is_uniform(&self) -> (r: bool)
        ensures
            r == self.uniform_spec(),
    {
        match self {
            Initialization::UniformXavier | Initialization::UniformHe => true,
            Initialization::NormalXavier | Initialization::NormalHe => false,
        }
    }

    /// Numerator and denominator of the squared scale for a layer with the
    /// given fan counts: `6` for a uniform bound, `2` for a normal deviation,
    /// over `fan_in + fan_out` (Xavier) or `fan_in` (He).
    pub fn scale_ratio(&self, fan_in: usize, fan_out: usize) -> (r: (usize, usize))
        requires
            fan_in + fan_out <= usize::MAX,
        ensures
            (r.0 as int, r.1 as int) == self.scale_spec(fan_in as int, fan_out as int),
    {
        match self {
            Initialization::UniformXavier => (6, fan_in + fan_out),
            Initialization::UniformHe => (6, fan_in),
            Initialization::NormalXavier => (2, fan_in + fan_out),
            Initialization::NormalHe => (2, fan_in),
        }
    }
}

} // verus!
