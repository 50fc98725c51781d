//! The ways in which building or applying a filter or a layer can fail.

use vstd::prelude::*;

verus! {

/// Why a filter or a layer could not be built or applied.
#[derive(Clone, Copy, Debug, PartialEq, Eq, Structural)]
pub enum ConvError {
    /// A layer needs at least one filter.
    EmptyFilterSet,
    /// Two matrices that must have one shape have different shapes.
    DimensionMismatch,
    /// A stride or a kernel dimension is not positive.
    InvalidConfiguration,
}

} // verus!
