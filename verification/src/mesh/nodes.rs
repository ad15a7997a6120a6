use vstd::prelude::*;

use crate::errors::MeshError;
use crate::geometry::line::Line;
use crate::geometry::points::Dimensioned;
use crate::geometry::vertices::{Direction, Vertices};

verus! {

/// A quadrilateral cell bounded by four faces. The faces borrow their
/// endpoint vertices from the container that owns them, so the
/// container must outlive every cell built from it.
pub struct Node<'a, S> {
    pub id: usize,
    pub north_face: Line<'a, S>,
    pub south_face: Line<'a, S>,
    pub east_face: Line<'a, S>,
    pub west_face: Line<'a, S>,
}

impl<'a, S: Copy> Node<'a, S> {
    pub fn new(id: usize, nf: Line<'a, S>, sf: Line<'a, S>, ef: Line<'a, S>, wf: Line<'a, S>) -> (r:
        Node<'a, S>)
        ensures
            r.id == id,
            r.north_face == nf,
            r.south_face == sf,
            r.east_face == ef,
            r.west_face == wf,
    {
        Node { id, north_face: nf, south_face: sf, east_face: ef, west_face: wf }
    }
}

impl<'a, S: Copy> Dimensioned for Node<'a, S> {
    open spec fn dims_known(&self) -> bool {
        true
    }

    open spec fn spec_dimensions(&self) -> int {
        self.north_face.start.coords.spec_dimensions()
    }

    fn is_2d(&self) -> (r: bool)
    {
        self.north_face.is_2d()
    }

    fn dimensions(&self) -> (r: usize)
    {
        self.north_face.dimensions()
    }
}

/// Whether a stored vertex anchors a cell: it has both an eastern and
/// a northern neighbor, so the quadrilateral toward north-east exists.
pub open spec fn is_anchor<S: Copy>(c: &Vertices<S>, id: int) -> bool {
    c.spec_adjacent(id, Direction::East) is Some && c.spec_adjacent(id, Direction::North) is Some
}

/// The id of the eastern neighbor of an anchor.
pub open spec fn spec_east_id<S: Copy>(c: &Vertices<S>, id: int) -> int
    recommends
        is_anchor(c, id),
{
    c.spec_neighbor_id(id, Direction::East)->Some_0
}

/// The id of the northern neighbor of a stored vertex.
pub open spec fn spec_north_id<S: Copy>(c: &Vertices<S>, id: int) -> int
    recommends
        c.spec_adjacent(id, Direction::North) is Some,
{
    c.spec_neighbor_id(id, Direction::North)->Some_0
}

/// An anchor is complete when its north-eastern corner — the northern
/// neighbor of its eastern neighbor — is also stored. On a rectangular
/// lattice an interior anchor is always complete; an incomplete anchor
/// marks a malformed, partially populated container.
pub open spec fn anchor_complete<S: Copy>(c: &Vertices<S>, id: int) -> bool
    recommends
        is_anchor(c, id),
{
    c.spec_adjacent(spec_east_id(c, id), Direction::North) is Some
}

/// Every anchored cell of the container has its north-eastern corner.
pub open spec fn topology_consistent<S: Copy>(c: &Vertices<S>) -> bool {
    forall|id: int| 0 <= id < c.total() && #[trigger] is_anchor(c, id) ==> anchor_complete(c, id)
}

/// How many anchors lie below `upto`, in id order.
pub open spec fn anchor_count<S: Copy>(c: &Vertices<S>, upto: int) -> int
    decreases upto,
{
    if upto <= 0 {
        0
    } else {
        anchor_count(c, upto - 1) + if is_anchor(c, upto - 1) {
            1int
        } else {
            0int
        }
    }
}

/// The cell emitted for the anchor `id`: its south face runs from
/// the anchor to its eastern neighbor, its west face from the anchor
/// to its northern neighbor,
/// and the far faces close the quadrilateral at the north-eastern
/// corner. `idx` is the sequential cell id.
pub open spec fn node_matches_anchor<'a, S: Copy>(
    n: Node<'a, S>,
    c: &Vertices<S>,
    id: int,
    idx: int,
) -> bool
    recommends
        is_anchor(c, id),
        anchor_complete(c, id),
{
    let e = spec_east_id(c, id);
    let nn = spec_north_id(c, id);
    let ne = spec_north_id(c, e);
    &&& n.id == idx
    &&& *n.south_face.start == c.vertex_at(id)
    &&& *n.south_face.end == c.vertex_at(e)
    &&& *n.west_face.start == c.vertex_at(id)
    &&& *n.west_face.end == c.vertex_at(nn)
    &&& *n.north_face.start == c.vertex_at(nn)
    &&& *n.north_face.end == c.vertex_at(ne)
    &&& *n.east_face.start == c.vertex_at(e)
    &&& *n.east_face.end == c.vertex_at(ne)
}

/// In a fully populated 2D lattice, a vertex anchors a cell exactly
/// when it stands strictly left of the last column and strictly below
/// the last row; such an anchor always has its north-eastern corner.
proof fn lemma_anchor_characterization<S: Copy>(c: &Vertices<S>, id: int)
    requires
        c.wf(),
        c.spec_dims() is Two,
        c.fully_populated(),
        0 <= id < c.total(),
    ensures
        is_anchor(c, id) <==> (c.spec_id_to_i(id) < c.spec_nx() - 1 && c.spec_id_to_j(id)
            < c.spec_ny() - 1),
        is_anchor(c, id) ==> anchor_complete(c, id),
{
    let i = c.spec_id_to_i(id);
    let j = c.spec_id_to_j(id);
    let k = c.spec_id_to_k(id);
    c.lemma_linear_to_grid_to_linear(id);
    assert(k == 0);
    assert(c.present(id));
    if i < c.spec_nx() - 1 {
        c.lemma_grid_to_linear_to_grid(i + 1, j, 0);
        assert(c.present(c.spec_ijk_to_id(i + 1, j, 0)));
    }
    if j < c.spec_ny() - 1 {
        c.lemma_grid_to_linear_to_grid(i, j + 1, 0);
        assert(c.present(c.spec_ijk_to_id(i, j + 1, 0)));
    }
    if i < c.spec_nx() - 1 && j < c.spec_ny() - 1 {
        let e = spec_east_id(c, id);
        assert(e == c.spec_ijk_to_id(i + 1, j, 0));
        c.lemma_grid_to_linear_to_grid(i + 1, j + 1, 0);
        assert(c.present(c.spec_ijk_to_id(i + 1, j + 1, 0)));
        assert(anchor_complete(c, id));
    }
}

/// A fully populated container never trips the interior-consistency
/// check: building its cells is owed to succeed.
pub proof fn lemma_full_topology_consistent<S: Copy>(c: &Vertices<S>)
    requires
        c.wf(),
        c.spec_dims() is Two,
        c.fully_populated(),
    ensures
        topology_consistent(c),
{
    assert forall|id: int| 0 <= id < c.total() && #[trigger] is_anchor(c, id) implies
        anchor_complete(c, id) by {
        lemma_anchor_characterization(c, id);
    }
}

/// Within one row, each step over an anchored column adds one cell.
proof fn lemma_anchor_count_row<S: Copy>(c: &Vertices<S>, j: int, i: int)
    requires
        c.wf(),
        c.spec_dims() is Two,
        c.fully_populated(),
        0 <= j < c.spec_ny(),
        0 <= i <= c.spec_nx(),
    ensures
        anchor_count(c, j * c.spec_nx() + i) == anchor_count(c, j * c.spec_nx()) + if j
            < c.spec_ny() - 1 {
            if i <= c.spec_nx() - 1 {
                i
            } else {
                c.spec_nx() - 1
            }
        } else {
            0int
        },
    decreases i,
{
    if i > 0 {
        lemma_anchor_count_row(c, j, i - 1);
        let id = j * c.spec_nx() + (i - 1);
        c.lemma_grid_to_linear_to_grid(i - 1, j, 0);
        assert(c.spec_ijk_to_id(i - 1, j, 0) == id);
        lemma_anchor_characterization(c, id);
    }
}

/// Row by row, the rows below the last contribute `nx - 1` cells each.
proof fn lemma_anchor_count_grid<S: Copy>(c: &Vertices<S>, j: int)
    requires
        c.wf(),
        c.spec_dims() is Two,
        c.fully_populated(),
        0 <= j <= c.spec_ny(),
    ensures
        anchor_count(c, j * c.spec_nx()) == (if j <= c.spec_ny() - 1 {
            j
        } else {
            c.spec_ny() - 1
        }) * (c.spec_nx() - 1),
    decreases j,
{
    let nx = c.spec_nx();
    let ny = c.spec_ny();
    if j == 0 {
        assert(j * nx == 0) by (nonlinear_arith)
            requires
                j == 0,
        ;
        assert(j * (nx - 1) == 0) by (nonlinear_arith)
            requires
                j == 0,
        ;
    } else {
        lemma_anchor_count_grid(c, j - 1);
        lemma_anchor_count_row(c, j - 1, nx);
        assert(j * nx == (j - 1) * nx + nx) by (nonlinear_arith);
        if j - 1 < ny - 1 {
            assert((if j <= ny - 1 {
                j
            } else {
                ny - 1
            }) * (nx - 1) == (j - 1) * (nx - 1) + (nx - 1)) by (nonlinear_arith)
                requires
                    j <= ny - 1,
            ;
        }
    }
}

/// Cell count: a fully populated `nx` by `ny` container anchors
/// exactly `(nx-1)*(ny-1)` cells, and all of them are complete.
pub proof fn lemma_cell_count<S: Copy>(c: &Vertices<S>)
    requires
        c.wf(),
        c.spec_dims() is Two,
        c.fully_populated(),
    ensures
        anchor_count(c, c.total()) == (c.spec_nx() - 1) * (c.spec_ny() - 1),
        topology_consistent(c),
{
    let nx = c.spec_nx();
    let ny = c.spec_ny();
    lemma_full_topology_consistent(c);
    lemma_anchor_count_grid(c, ny);
    assert(ny * nx == nx * ny) by (nonlinear_arith);
    assert((ny - 1) * (nx - 1) == (nx - 1) * (ny - 1)) by (nonlinear_arith);
}

/// An ordered collection of cells of one shared dimensionality.
pub struct Nodes<'a, S> {
    pub nodes: Vec<Node<'a, S>>,
}

impl<'a, S: Copy> Nodes<'a, S> {
    pub fn is_empty(&self) -> (r: bool)
        ensures
            r <==> self.nodes@.len() == 0,
    {
        self.nodes.len() == 0
    }

    /// Appends a cell of the collection's dimensionality; a cell of
    /// the other dimensionality is silently ignored. The first cell
    /// fixes the collection's dimensionality.
    pub fn add_node(&mut self, node: Node<'a, S>)
        ensures
            (old(self).nodes@.len() == 0 || node.spec_dimensions() == old(
                self,
            ).spec_dimensions()) ==> final(self).nodes@ == old(self).nodes@.push(node),
            !(old(self).nodes@.len() == 0 || node.spec_dimensions() == old(
                self,
            ).spec_dimensions()) ==> final(self).nodes@ == old(self).nodes@,
    {
        if self.nodes.len() == 0 {
            self.nodes.push(node);
        } else {
            let same = node.dimensions() == self.dimensions();
            if same {
                self.nodes.push(node);
            }
        }
    }

    pub fn new_2d() -> (r: Nodes<'a, S>)
        ensures
            r.nodes@.len() == 0,
    {
        Nodes { nodes: Vec::new() }
    }

    /// Builds the cell list of a 2D container: one cell per anchor
    /// vertex, taken in ascending id order, with sequential cell ids
    /// from 0. A container that is not 2D is refused outright. A
    /// missing north-eastern corner is an interior inconsistency: the
    /// build aborts with `TopologyError` and leaves the collection
    /// empty instead of half-built.
    #[verifier::rlimit(40)]
    pub fn populate(&mut self, vertices: &'a Vertices<S>) -> (r: Result<(), MeshError>)
        requires
            old(self).nodes@.len() == 0,
            vertices.wf(),
        ensures
            r is Ok <==> vertices.spec_dims() is Two && topology_consistent(vertices),
            r == Err::<(), MeshError>(MeshError::DimensionMismatch) <==> !(vertices.spec_dims()
                is Two),
            r == Err::<(), MeshError>(MeshError::TopologyError) <==> vertices.spec_dims() is Two
                && !topology_consistent(vertices),
            r is Err ==> final(self).nodes@.len() == 0,
            r is Ok ==> final(self).nodes@.len() == anchor_count(vertices, vertices.total()),
            r is Ok ==> forall|id: int|
                0 <= id < vertices.total() && #[trigger] is_anchor(vertices, id)
                    ==> node_matches_anchor(
                    final(self).nodes@[anchor_count(vertices, id)],
                    vertices,
                    id,
                    anchor_count(vertices, id),
                ),
    {
        if !vertices.is_2d() {
            return Err(MeshError::DimensionMismatch);
        }
        let len = vertices.vertices().len();
        let mut out: Vec<Node<'a, S>> = Vec::new();
        let mut id: usize = 0;
        while id < len
            invariant
                vertices.wf(),
                vertices.spec_dims() is Two,
                len == vertices.total(),
                id <= len,
                self.nodes@.len() == 0,
                out@.len() == anchor_count(vertices, id as int),
                forall|t: int|
                    0 <= t < id && #[trigger] is_anchor(vertices, t) ==> anchor_complete(
                        vertices,
                        t,
                    ) && node_matches_anchor(
                        out@[anchor_count(vertices, t)],
                        vertices,
                        t,
                        anchor_count(vertices, t),
                    ),
            decreases len - id,
        {
            match vertices.get_vertex(id) {
                None => {
                    proof {
                        assert(!is_anchor(vertices, id as int));
                    }
                },
                Some(v) => {
                    let east = vertices.get_adjacent_vertex(id, Direction::East);
                    let north = vertices.get_adjacent_vertex(id, Direction::North);
                    match (east, north) {
                        (Some(east_v), Some(north_v)) => {
                            proof {
                                assert(is_anchor(vertices, id as int));
                                let e = spec_east_id(vertices, id as int);
                                assert(vertices.present(e));
                                assert(east_v.id == e);
                            }
                            let east_id = east_v.get_id();
                            match vertices.get_adjacent_vertex(east_id, Direction::North) {
                                None => {
                                    proof {
                                        assert(!anchor_complete(vertices, id as int));
                                        assert(!topology_consistent(vertices));
                                    }
                                    return Err(MeshError::TopologyError);
                                },
                                Some(ne_v) => {
                                    proof {
                                        let idn = id as int;
                                        let e = spec_east_id(vertices, idn);
                                        let nn = spec_north_id(vertices, idn);
                                        let ne = spec_north_id(vertices, e);
                                        assert(vertices.present(nn));
                                        assert(vertices.present(ne));
                                        assert(v.coords is TwoD);
                                        assert(east_v.coords is TwoD);
                                        assert(north_v.coords is TwoD);
                                        assert(ne_v.coords is TwoD);
                                    }
                                    let south = Line::new_2d(v, east_v);
                                    let west = Line::new_2d(v, north_v);
                                    let north_f = Line::new_2d(north_v, ne_v);
                                    let east_f = Line::new_2d(east_v, ne_v);
                                    let node_id = out.len();
                                    let node = Node::new(node_id, north_f, south, east_f, west);
                                    let ghost prev_out = out@;
                                    out.push(node);
                                    proof {
                                        let idn = id as int;
                                        assert forall|t: int|
                                            0 <= t < idn + 1 && #[trigger] is_anchor(
                                                vertices,
                                                t,
                                            ) implies anchor_complete(vertices, t)
                                            && node_matches_anchor(
                                            out@[anchor_count(vertices, t)],
                                            vertices,
                                            t,
                                            anchor_count(vertices, t),
                                        ) by {
                                            if t < idn {
                                                lemma_anchor_count_bump(vertices, t, idn);
                                                assert(out@[anchor_count(vertices, t)]
                                                    == prev_out[anchor_count(vertices, t)]);
                                            }
                                        }
                                    }
                                },
                            }
                        },
                        _ => {
                            proof {
                                assert(!is_anchor(vertices, id as int));
                            }
                        },
                    }
                },
            }
            id = id + 1;
        }
        self.nodes = out;
        Ok(())
    }
}

/// Counting anchors never decreases as the range grows.
proof fn lemma_anchor_count_monotonic<S: Copy>(c: &Vertices<S>, a: int, b: int)
    requires
        a <= b,
    ensures
        anchor_count(c, a) <= anchor_count(c, b),
    decreases b - a,
{
    if a < b {
        lemma_anchor_count_monotonic(c, a, b - 1);
    }
}

/// An anchor below the end of the range occupies a cell index below
/// the range's anchor count.
proof fn lemma_anchor_count_bump<S: Copy>(c: &Vertices<S>, t: int, b: int)
    requires
        0 <= t < b,
        is_anchor(c, t),
    ensures
        0 <= anchor_count(c, t) < anchor_count(c, b),
    decreases b - t,
{
    lemma_anchor_count_monotonic(c, 0, t);
    lemma_anchor_count_monotonic(c, t + 1, b);
}

impl<'a, S: Copy> Dimensioned for Nodes<'a, S> {
    open spec fn dims_known(&self) -> bool {
        true
    }

    /// An empty collection counts as 2D until its first cell arrives.
    open spec fn spec_dimensions(&self) -> int {
        if self.nodes@.len() == 0 {
            2
        } else {
            self.nodes@[0].spec_dimensions()
        }
    }

    fn is_2d(&self) -> (r: bool)
    {
        if self.nodes.len() == 0 {
            true
        } else {
            self.nodes[0].is_2d()
        }
    }

    fn dimensions(&self) -> (r: usize)
    {
        if self.nodes.len() == 0 {
            2
        } else {
            self.nodes[0].dimensions()
        }
    }
}

} // verus!
