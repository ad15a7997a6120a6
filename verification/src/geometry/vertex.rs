use vstd::prelude::*;

use crate::geometry::points::{Dimensioned, Point};

verus! {

/// A point together with the integer id that addresses it inside its
/// container. The id is the container's sole addressing key.
#[derive(Clone, Copy, Debug, PartialEq)]
pub struct Vertex<S> {
    pub id: usize,
    pub coords: Point<S>,
}

impl<S: Copy> Vertex<S> {
    pub fn get_id(&self) -> (r: usize)
        ensures
            r == self.id,
    {
        self.id
    }

    pub fn get_x(&self) -> (r: S)
        ensures
            r == self.coords.spec_x(),
    {
        self.coords.x()
    }

    pub fn get_y(&self) -> (r: S)
        ensures
            r == self.coords.spec_y(),
    {
        self.coords.y()
    }

    /// The third coordinate; defined for 3D vertices only.
    pub fn get_z(&self) -> (r: S)
        requires
            self.coords is ThreeD,
        ensures
            r == self.coords.spec_z(),
    {
        self.coords.z()
    }

    pub fn new_2d(id: usize, x: S, y: S) -> (r: Vertex<S>)
        ensures
            r == (Vertex { id, coords: Point::TwoD { x, y } }),
    {
        Vertex { id, coords: Point::TwoD { x, y } }
    }

    pub fn new_3d(id: usize, x: S, y: S, z: S) -> (r: Vertex<S>)
        ensures
            r == (Vertex { id, coords: Point::ThreeD { x, y, z } }),
    {
        Vertex { id, coords: Point::ThreeD { x, y, z } }
    }
}

impl<S: Copy> Dimensioned for Vertex<S> {
    open spec fn dims_known(&self) -> bool {
        true
    }

    open spec fn spec_dimensions(&self) -> int {
        self.coords.spec_dimensions()
    }

    fn is_2d(&self) -> (r: bool)
    {
        let r = self.coords.is_2d();
        proof {
            assert(self.spec_dimensions() == self.coords.spec_dimensions());
        }
        r
    }

    fn dimensions(&self) -> (r: usize)
    {
        self.coords.dimensions()
    }
}

} // verus!
