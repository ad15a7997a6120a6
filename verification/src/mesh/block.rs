use vstd::prelude::*;

use crate::geometry::points::Dimensions;
use crate::geometry::vertices::Vertices;
use crate::mesh::nodes::Nodes;

verus! {

/// The side of a block that a boundary condition can be attached to.
pub enum BoundaryType {
    /// 2D
    North,
    /// 2D
    South,
    /// 2D
    East,
    /// 2D
    West,
    /// 3D
    Top,
    /// 3D
    Bottom,
}

/// A mesh block: a point container together with the cells built
/// from it.
pub struct Block<'a, S> {
    pub id: usize,
    pub vertices: Vertices<S>,
    pub nodes: Nodes<'a, S>,
}

/// Step-by-step configuration for a block: the shape stays open until
/// it is supplied, and construction validates what was gathered.
pub struct BlockBuilder {
    pub id: usize,
    pub dimensions: Option<Dimensions>,
}

impl BlockBuilder {
    /// A fresh builder for a block with the given id; no shape has
    /// been chosen yet.
    pub fn new(id: usize) -> (r: BlockBuilder)
        ensures
            r.id == id,
            r.dimensions is None,
    {
        BlockBuilder { id, dimensions: None }
    }

    /// Chooses the shape of the block under construction.
    pub fn with_dimensions(self, dimensions: Dimensions) -> (r: BlockBuilder)
        ensures
            r.id == self.id,
            r.dimensions == Some(dimensions),
    {
        BlockBuilder { id: self.id, dimensions: Some(dimensions) }
    }
}

} // verus!
