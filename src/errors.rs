use vstd::prelude::*;

verus! {

/// The closed set of failures that the engine reports.
#[derive(Debug, Clone, Copy, PartialEq, Eq, Structural)]
pub enum Error {
    /// A declared shape disagrees with the shape inferred from its neighbour.
    DimensionMismatch,
    /// An operation was asked of a layer kind or position that cannot do it.
    IncompatibleLayers,
    /// A stride, kernel and padding combination that yields no output.
    ImpossibleOutputDimension,
    /// A supplied vector or index does not fit what it is used for.
    InvalidInput,
}

impl Error {
    /// The sentence that describes the failure.
    pub open spec fn message_spec(self) -> Seq<char> {
        match self {
            Error::DimensionMismatch => "Layer dimensions do not match"@,
            Error::IncompatibleLayers => "Layers are incompatible or don't exist"@,
            Error::ImpossibleOutputDimension => "Output dimension is impossible"@,
            Error::InvalidInput => "Input arguments to this function are invalid"@,
        }
    }

    /// A sentence that describes the failure, for people to read.
    pub fn message(&self) -> (r: &'static str)
        ensures
            r@ == self.message_spec(),
    {
        match self {
            Error::DimensionMismatch => "Layer dimensions do not match",
            Error::IncompatibleLayers => "Layers are incompatible or don't exist",
            Error::ImpossibleOutputDimension => "Output dimension is impossible",
            Error::InvalidInput => "Input arguments to this function are invalid",
        }
    }
}

} // verus!
