use vstd::prelude::*;

verus! {

/// The structural failures a mesh operation can report.
///
/// Absence conditions (a missing neighbor, an unknown id) are not errors:
/// they are returned as `None` by the lookup operations.
#[derive(Clone, Copy, Debug, PartialEq, Eq, Structural)]
pub enum MeshError {
    /// An operation received a container, vertex or cell of the wrong
    /// dimensionality, or a non-2D container where only 2D is supported.
    DimensionMismatch,
    /// An interior lattice inconsistency: an expected neighbor of a
    /// neighbor is missing while building cells.
    TopologyError,
    /// A grid-generation parameter is invalid: a clustering strength of
    /// zero, a degenerate axis, or a coordinate table of the wrong size.
    InvalidParameter,
}

} // verus!
