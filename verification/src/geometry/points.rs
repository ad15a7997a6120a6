use vstd::prelude::*;

verus! {

/// Shared behavior of every value that has a fixed dimensionality:
/// a shape descriptor, a point, a vertex, a collection of either.
///
/// `dims_known` guards the values on which the dimensionality is
/// defined at all (an empty collection of lines has none).
pub trait Dimensioned {
    /// Whether the dimensionality of this value is defined.
    spec fn dims_known(&self) -> bool;

    /// The dimensionality as a mathematical value: 2 or 3.
    spec fn spec_dimensions(&self) -> int;

    fn is_2d(&self) -> (r: bool)
        requires
            self.dims_known(),
        ensures
            r <==> self.spec_dimensions() == 2,
    ;

    fn dimensions(&self) -> (r: usize)
        requires
            self.dims_known(),
        ensures
            r == self.spec_dimensions(),
    ;
}

/// The logical shape of a structured lattice: how many points stand
/// along each axis, and whether the lattice is 2D or 3D.
#[derive(Clone, Copy, Debug, PartialEq, Eq, Structural)]
pub enum Dimensions {
    Two { nx: usize, ny: usize },
    Three { nx: usize, ny: usize, nz: usize },
}

impl Dimensions {
    /// A shape is valid when every axis holds at least two points:
    /// a degenerate axis has no interior and no valid neighbor queries.
    pub open spec fn valid(&self) -> bool {
        match *self {
            Dimensions::Two { nx, ny } => 2 <= nx && 2 <= ny,
            Dimensions::Three { nx, ny, nz } => 2 <= nx && 2 <= ny && 2 <= nz,
        }
    }

    pub open spec fn spec_nx(&self) -> int {
        match *self {
            Dimensions::Two { nx, .. } => nx as int,
            Dimensions::Three { nx, .. } => nx as int,
        }
    }

    pub open spec fn spec_ny(&self) -> int {
        match *self {
            Dimensions::Two { ny, .. } => ny as int,
            Dimensions::Three { ny, .. } => ny as int,
        }
    }

    /// The point count along the third axis; 1 for a 2D shape, so that
    /// the row-major formula `i + j*nx + k*nx*ny` covers both cases.
    pub open spec fn spec_nz(&self) -> int {
        match *self {
            Dimensions::Two { .. } => 1,
            Dimensions::Three { nz, .. } => nz as int,
        }
    }

    /// The number of lattice points: the product of the axis counts.
    pub open spec fn spec_total(&self) -> int {
        match *self {
            Dimensions::Two { nx, ny } => nx * ny,
            Dimensions::Three { nx, ny, nz } => nx * ny * nz,
        }
    }

    pub fn total_points(&self) -> (r: usize)
        requires
            self.valid(),
            self.spec_total() <= usize::MAX,
        ensures
            r == self.spec_total(),
    {
        match self {
            Dimensions::Two { nx, ny } => *nx * *ny,
            Dimensions::Three { nx, ny, nz } => {
                proof {
                    assert((*nx * *ny) <= (*nx * *ny * *nz)) by (nonlinear_arith)
                        requires 1 <= *nz, 0 <= *nx, 0 <= *ny;
                }
                *nx * *ny * *nz
            },
        }
    }

    /// The axis counts as a flat tuple; the third axis is `None` for a
    /// 2D shape.
    pub fn as_tuple(&self) -> (r: (usize, usize, Option<usize>))
        ensures
            r.0 == self.spec_nx(),
            r.1 == self.spec_ny(),
            match *self {
                Dimensions::Two { .. } => r.2 is None,
                Dimensions::Three { nz, .. } => r.2 == Some(nz),
            },
    {
        match self {
            Dimensions::Two { nx, ny } => (*nx, *ny, None),
            Dimensions::Three { nx, ny, nz } => (*nx, *ny, Some(*nz)),
        }
    }
}

impl Dimensioned for Dimensions {
    open spec fn dims_known(&self) -> bool {
        true
    }

    open spec fn spec_dimensions(&self) -> int {
        if self is Two {
            2
        } else {
            3
        }
    }

    fn is_2d(&self) -> (r: bool)
    {
        matches!(self, Dimensions::Two { .. })
    }

    fn dimensions(&self) -> (r: usize)
    {
        match self {
            Dimensions::Two { .. } => 2,
            Dimensions::Three { .. } => 3,
        }
    }
}

/// An immutable coordinate tuple: either `(x, y)` or `(x, y, z)`.
///
/// The scalar type is a container-wide parameter. The verified logic
/// never reads a coordinate's numeric value, only the arity, so any
/// scalar can be carried: callers outside the library use a
/// floating-point scalar, the reference lattice of `populate_uniform`
/// uses the exact [`Frac`] scalar.
#[derive(Clone, Copy, Debug, PartialEq)]
pub enum Point<S> {
    TwoD { x: S, y: S },
    ThreeD { x: S, y: S, z: S },
}

impl<S: Copy> Point<S> {
    pub open spec fn spec_x(&self) -> S {
        match *self {
            Point::TwoD { x, .. } => x,
            Point::ThreeD { x, .. } => x,
        }
    }

    pub open spec fn spec_y(&self) -> S {
        match *self {
            Point::TwoD { y, .. } => y,
            Point::ThreeD { y, .. } => y,
        }
    }

    pub open spec fn spec_z(&self) -> S
        recommends
            self is ThreeD,
    {
        match *self {
            Point::ThreeD { z, .. } => z,
            Point::TwoD { .. } => arbitrary(),
        }
    }

    pub fn x(&self) -> (r: S)
        ensures
            r == self.spec_x(),
    {
        match self {
            Point::TwoD { x, .. } => *x,
            Point::ThreeD { x, .. } => *x,
        }
    }

    pub fn y(&self) -> (r: S)
        ensures
            r == self.spec_y(),
    {
        match self {
            Point::TwoD { y, .. } => *y,
            Point::ThreeD { y, .. } => *y,
        }
    }

    /// The third coordinate. Asking a 2D point for it is a caller error,
    /// so the input is excluded rather than answered.
    pub fn z(&self) -> (r: S)
        requires
            self is ThreeD,
        ensures
            r == self.spec_z(),
    {
        match self {
            Point::ThreeD { z, .. } => *z,
            Point::TwoD { x, .. } => *x,
        }
    }
}

impl<S: Copy> Dimensioned for Point<S> {
    open spec fn dims_known(&self) -> bool {
        true
    }

    open spec fn spec_dimensions(&self) -> int {
        if self is TwoD {
            2
        } else {
            3
        }
    }

    fn is_2d(&self) -> (r: bool)
    {
        matches!(self, Point::TwoD { .. })
    }

    fn dimensions(&self) -> (r: usize)
    {
        match self {
            Point::TwoD { .. } => 2,
            Point::ThreeD { .. } => 3,
        }
    }
}

/// An exact ratio `num / den`, the scalar of the unit reference lattice:
/// the lattice coordinate `i / (nx - 1)` is held as numerator and
/// denominator instead of being rounded to a machine float.
#[derive(Clone, Copy, Debug, PartialEq, Eq, Structural)]
pub struct Frac {
    pub num: usize,
    pub den: usize,
}

impl Frac {
    pub fn new(num: usize, den: usize) -> (r: Frac)
        ensures
            r == (Frac { num, den }),
    {
        Frac { num, den }
    }
}

} // verus!
