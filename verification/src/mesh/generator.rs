use vstd::prelude::*;

use crate::errors::MeshError;
use crate::geometry::points::{Dimensioned, Dimensions, Point};
use crate::geometry::vertex::Vertex;
use crate::geometry::vertices::Vertices;

verus! {

/// The validity judgments over the numeric grid-generation inputs.
///
/// The clustering laws and the boundary contour are evaluated in
/// machine floating point outside the verified core; what the
/// algorithm's control flow reads of those inputs are the plain
/// yes-or-no judgments gathered here. Each field states the property
/// of the caller's numbers that it stands for.
pub struct GridParams {
    /// The effective clustering strength — the given `beta`, or the
    /// default when none was given — is finite and nonzero.
    pub beta_nonzero: bool,
    /// The domain length along x is strictly positive.
    pub length_positive: bool,
    /// The boundary contour is strictly positive at every sampled x.
    pub heights_positive: bool,
}

impl GridParams {
    pub open spec fn valid(&self) -> bool {
        self.beta_nonzero && self.length_positive && self.heights_positive
    }
}

/// The vertex that the generator stores under a linear id: the id
/// itself, with the coordinate pair computed for that lattice point.
pub open spec fn spec_grid_vertex<S>(points: Seq<(S, S)>, id: int) -> Vertex<S> {
    Vertex { id: id as usize, coords: Point::TwoD { x: points[id].0, y: points[id].1 } }
}

/// Checks the grid-generation inputs at entry, before any point is
/// computed or written: only a valid 2D shape with positive length,
/// positive contour heights and a usable clustering strength is
/// accepted.
pub fn validate_grid_params(dimensions: &Dimensions, params: &GridParams) -> (r: Result<
    (),
    MeshError,
>)
    ensures
        r is Ok <==> dimensions is Two && dimensions.valid() && params.valid(),
        r == Err::<(), MeshError>(MeshError::DimensionMismatch) <==> !(dimensions is Two),
        r == Err::<(), MeshError>(MeshError::InvalidParameter) <==> dimensions is Two && !(
        dimensions.valid() && params.valid()),
    {
    match dimensions {
        Dimensions::Three { .. } => Err(MeshError::DimensionMismatch),
        Dimensions::Two { nx, ny } => {
            if *nx < 2 || *ny < 2 {
                Err(MeshError::InvalidParameter)
            } else if !params.beta_nonzero || !params.length_positive
                || !params.heights_positive {
                Err(MeshError::InvalidParameter)
            } else {
                Ok(())
            }
        },
    }
}

/// Fills an empty 2D container with the generated grid: the point for
/// lattice cell `(i, j)` is stored under the row-major id `i + j*nx`.
///
/// `points` is the coordinate table the caller computed with its
/// chosen clustering law, indexed by that same row-major id. Invalid
/// parameters, a non-2D container and a table of the wrong size are
/// rejected at entry, before any point is written: on every failure
/// the container comes back unchanged, still empty.
#[verifier::rlimit(40)]
pub fn generate_mesh_2d<S: Copy>(
    vertices: &mut Vertices<S>,
    params: &GridParams,
    points: &Vec<(S, S)>,
) -> (r: Result<(), MeshError>)
    requires
        old(vertices).wf(),
        forall|id: int| 0 <= id < old(vertices).total() ==> !(#[trigger] old(vertices).present(id)),
    ensures
        final(vertices).wf(),
        final(vertices).spec_dims() == old(vertices).spec_dims(),
        r is Ok <==> old(vertices).spec_dims() is Two && params.valid() && points@.len()
            == old(vertices).total(),
        r == Err::<(), MeshError>(MeshError::DimensionMismatch)
            <==> !(old(vertices).spec_dims() is Two),
        r == Err::<(), MeshError>(MeshError::InvalidParameter)
            <==> old(vertices).spec_dims() is Two && !(params.valid() && points@.len()
            == old(vertices).total()),
        r is Err ==> *final(vertices) == *old(vertices),
        r is Ok ==> final(vertices).fully_populated() && final(vertices).count()
            == final(vertices).total(),
        r is Ok ==> forall|id: int|
            0 <= id < final(vertices).total() ==> #[trigger] final(vertices).vertex_at(id)
                == spec_grid_vertex(points@, id),
    {
    if !vertices.is_2d() {
        return Err(MeshError::DimensionMismatch);
    }
    if !params.beta_nonzero || !params.length_positive || !params.heights_positive {
        return Err(MeshError::InvalidParameter);
    }
    let total = vertices.vertices().len();
    if points.len() != total {
        return Err(MeshError::InvalidParameter);
    }
    let ghost dims = vertices.spec_dims();
    let mut id: usize = 0;
    while id < total
        invariant
            vertices.wf(),
            vertices.spec_dims() == dims,
            dims is Two,
            total == vertices.total(),
            points@.len() == total,
            id <= total,
            forall|t: int|
                0 <= t < id ==> #[trigger] vertices.present(t) && vertices.vertex_at(t)
                    == spec_grid_vertex(points@, t),
            forall|t: int| id <= t < total ==> !(#[trigger] vertices.present(t)),
        decreases total - id,
    {
        let (x, y) = points[id];
        let v = Vertex::new_2d(id, x, y);
        let ghost prev = *vertices;
        vertices.add_vertex(v);
        proof {
            let idn = id as int;
            assert(prev.can_add(v));
            assert forall|t: int| 0 <= t < idn + 1 implies #[trigger] vertices.present(t)
                && vertices.vertex_at(t) == spec_grid_vertex(points@, t) by {
                if t != idn {
                    assert(prev.present(t));
                    assert(prev.vertex_at(t) == spec_grid_vertex(points@, t));
                }
            }
            assert forall|t: int| idn + 1 <= t < total implies !(#[trigger] vertices.present(
                t,
            )) by {
                assert(!prev.present(t));
            }
        }
        id = id + 1;
    }
    proof {
        assert forall|t: int| 0 <= t < vertices.total() implies (
        #[trigger] vertices.spec_slots()[t]) is Some by {
            assert(vertices.present(t));
        }
        assert forall|t: int|
            0 <= t < vertices.total() implies #[trigger] vertices.vertex_at(t)
            == spec_grid_vertex(points@, t) by {
            assert(vertices.present(t));
        }
        crate::geometry::vertices::lemma_count_full(vertices.spec_slots());
    }
    Ok(())
}

} // verus!
