//! Failures of a run.

use vstd::prelude::*;

verus! {

/// Why a computation stopped without a result.
#[derive(Clone, Copy, Debug, PartialEq, Eq, Structural)]
pub enum TraceError {
    /// The inputs do not describe a system: a mass or the time step is not
    /// positive, or the collections disagree in length.
    InvalidConfiguration,
    /// A query point coincides with a source of gravity, where the field is
    /// singular.
    DegenerateGeometry,
    /// A quantity left the range of [`crate::fixed::Fixed`].
    Overflow,
    /// An iteration ran out of resolution before it met its tolerance.
    NotConverged,
}

} // verus!
