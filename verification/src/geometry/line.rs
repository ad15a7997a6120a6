use vstd::prelude::*;

use crate::errors::MeshError;
use crate::geometry::points::Dimensioned;
use crate::geometry::vertex::Vertex;

verus! {

/// A straight face between two vertices. The endpoints are borrowed
/// from the container that owns them: the container must outlive every
/// line built from it.
pub struct Line<'a, S> {
    pub start: &'a Vertex<S>,
    pub end: &'a Vertex<S>,
}

impl<'a, S: Copy> Line<'a, S> {
    /// Both endpoints of a 2D line must themselves be 2D.
    pub fn new_2d(v1: &'a Vertex<S>, v2: &'a Vertex<S>) -> (r: Line<'a, S>)
        requires
            v1.coords is TwoD,
            v2.coords is TwoD,
        ensures
            r.start == v1,
            r.end == v2,
    {
        Line { start: v1, end: v2 }
    }

    /// Both endpoints of a 3D line must themselves be 3D.
    pub fn new_3d(v1: &'a Vertex<S>, v2: &'a Vertex<S>) -> (r: Line<'a, S>)
        requires
            v1.coords is ThreeD,
            v2.coords is ThreeD,
        ensures
            r.start == v1,
            r.end == v2,
    {
        Line { start: v1, end: v2 }
    }

    /// The endpoints agree on their dimensionality.
    pub open spec fn wf(&self) -> bool {
        self.start.coords is TwoD <==> self.end.coords is TwoD
    }
}

impl<'a, S: Copy> Dimensioned for Line<'a, S> {
    open spec fn dims_known(&self) -> bool {
        true
    }

    open spec fn spec_dimensions(&self) -> int {
        self.start.coords.spec_dimensions()
    }

    fn is_2d(&self) -> (r: bool)
    {
        self.start.is_2d()
    }

    fn dimensions(&self) -> (r: usize)
    {
        self.start.dimensions()
    }
}

/// An ordered collection of lines of one shared dimensionality.
pub struct LineCollection<'a, S> {
    lines: Vec<Line<'a, S>>,
}

impl<'a, S: Copy> LineCollection<'a, S> {
    pub closed spec fn spec_lines(&self) -> Seq<Line<'a, S>> {
        self.lines@
    }

    /// Every stored line is internally consistent and agrees with the
    /// first line on dimensionality.
    pub open spec fn wf(&self) -> bool {
        forall|k: int|
            0 <= k < self.spec_lines().len() ==> (#[trigger] self.spec_lines()[k]).wf()
                && (self.spec_lines()[k].start.coords is TwoD
                    <==> self.spec_lines()[0].start.coords is TwoD)
    }

    pub fn new() -> (r: LineCollection<'a, S>)
        ensures
            r.wf(),
            r.spec_lines().len() == 0,
    {
        LineCollection { lines: Vec::new() }
    }

    pub fn is_empty(&self) -> (r: bool)
        ensures
            r <==> self.spec_lines().len() == 0,
    {
        self.lines.len() == 0
    }

    /// Appends a line of the collection's dimensionality; a line of the
    /// other dimensionality is refused. The first line fixes the
    /// collection's dimensionality.
    pub fn add_line(&mut self, l: Line<'a, S>) -> (r: Result<(), MeshError>)
        requires
            old(self).wf(),
            l.wf(),
        ensures
            final(self).wf(),
            r is Ok <==> (old(self).spec_lines().len() == 0
                || (l.start.coords is TwoD
                    <==> old(self).spec_lines()[0].start.coords is TwoD)),
            r is Ok ==> final(self).spec_lines() == old(self).spec_lines().push(l),
            r is Err ==> final(self).spec_lines() == old(self).spec_lines()
                && r == Err::<(), MeshError>(MeshError::DimensionMismatch),
    {
        if self.lines.len() == 0 {
            self.lines.push(l);
            return Ok(());
        }
        let same = self.lines[0].is_2d() == l.is_2d();
        if same {
            self.lines.push(l);
            Ok(())
        } else {
            Err(MeshError::DimensionMismatch)
        }
    }
}

impl<'a, S: Copy> Dimensioned for LineCollection<'a, S> {
    open spec fn dims_known(&self) -> bool {
        self.spec_lines().len() > 0
    }

    open spec fn spec_dimensions(&self) -> int {
        self.spec_lines()[0].spec_dimensions()
    }

    fn is_2d(&self) -> (r: bool)
    {
        self.lines[0].is_2d()
    }

    fn dimensions(&self) -> (r: usize)
    {
        self.lines[0].dimensions()
    }
}

} // verus!
