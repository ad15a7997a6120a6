use vstd::prelude::*;
use vstd::arithmetic::div_mod::{
    lemma_div_denominator, lemma_div_pos_is_pos, lemma_fundamental_div_mod,
    lemma_fundamental_div_mod_converse,
    lemma_mod_division_less_than_divisor, lemma_multiply_divide_lt,
};

use crate::geometry::points::{Dimensioned, Dimensions, Frac, Point};
use crate::geometry::vertex::Vertex;

verus! {

/// A unit step through the lattice in index space.
pub enum Direction {
    /// +j
    North,
    /// -j
    South,
    /// +i
    East,
    /// -i
    West,
    /// +k, 3D only
    Up,
    /// -k, 3D only
    Down,
}

/// How many of the slots hold a vertex.
pub open spec fn count_present<S>(s: Seq<Option<Vertex<S>>>) -> int
    decreases s.len(),
{
    if s.len() == 0 {
        0
    } else {
        count_present(s.drop_last()) + if s.last() is Some {
            1int
        } else {
            0int
        }
    }
}

proof fn lemma_count_bounds<S>(s: Seq<Option<Vertex<S>>>)
    ensures
        0 <= count_present(s) <= s.len(),
    decreases s.len(),
{
    if s.len() > 0 {
        lemma_count_bounds(s.drop_last());
    }
}

proof fn lemma_count_none<S>(s: Seq<Option<Vertex<S>>>)
    requires
        forall|i: int| 0 <= i < s.len() ==> (#[trigger] s[i]) is None,
    ensures
        count_present(s) == 0,
    decreases s.len(),
{
    if s.len() > 0 {
        assert(s.last() == s[s.len() - 1]);
        lemma_count_none(s.drop_last());
    }
}

proof fn lemma_count_update<S>(s: Seq<Option<Vertex<S>>>, i: int, v: Vertex<S>)
    requires
        0 <= i < s.len(),
        s[i] is None,
    ensures
        count_present(s.update(i, Some(v))) == count_present(s) + 1,
    decreases s.len(),
{
    let t = s.update(i, Some(v));
    if i == s.len() - 1 {
        assert(t.drop_last() =~= s.drop_last());
        assert(s.last() == s[i]);
    } else {
        assert(t.drop_last() =~= s.drop_last().update(i, Some(v)));
        assert(t.last() == s.last());
        lemma_count_update(s.drop_last(), i, v);
    }
}

proof fn lemma_count_take_step<S>(s: Seq<Option<Vertex<S>>>, k: int)
    requires
        0 <= k < s.len(),
    ensures
        count_present(s.take(k + 1)) == count_present(s.take(k)) + if s[k] is Some {
            1int
        } else {
            0int
        },
{
    assert(s.take(k + 1).drop_last() =~= s.take(k));
    assert(s.take(k + 1).last() == s[k]);
}

pub proof fn lemma_count_full<S>(s: Seq<Option<Vertex<S>>>)
    requires
        forall|i: int| 0 <= i < s.len() ==> (#[trigger] s[i]) is Some,
    ensures
        count_present(s) == s.len(),
    decreases s.len(),
{
    if s.len() > 0 {
        assert(s.last() == s[s.len() - 1]);
        lemma_count_full(s.drop_last());
    }
}

/// A dense lattice of indexed vertices with a fixed shape.
///
/// The vertex id is the row-major linear index into the lattice:
/// `id = i + j*nx` in 2D, `id = i + j*nx + k*nx*ny` in 3D. The slot
/// array is indexed directly by id, so lookup and adjacency are O(1)
/// index arithmetic, never a search.
pub struct Vertices<S> {
    slots: Vec<Option<Vertex<S>>>,
    dimensions: Dimensions,
}

impl<S: Copy> Vertices<S> {
    /// The slot array: position `id` holds the vertex with that id,
    /// or nothing while the lattice is only partially populated.
    pub closed spec fn spec_slots(&self) -> Seq<Option<Vertex<S>>> {
        self.slots@
    }

    pub closed spec fn spec_dims(&self) -> Dimensions {
        self.dimensions
    }

    pub open spec fn spec_nx(&self) -> int {
        self.spec_dims().spec_nx()
    }

    pub open spec fn spec_ny(&self) -> int {
        self.spec_dims().spec_ny()
    }

    pub open spec fn spec_nz(&self) -> int {
        self.spec_dims().spec_nz()
    }

    /// The capacity of the lattice: the product of the axis counts.
    pub open spec fn total(&self) -> int {
        self.spec_dims().spec_total()
    }

    /// Whether a vertex has the dimensionality of the container.
    pub open spec fn arity_matches(&self, v: Vertex<S>) -> bool {
        v.coords is TwoD <==> self.spec_dims() is Two
    }

    /// The container invariant: a valid shape, one slot per lattice
    /// point, and every stored vertex under its own id with the
    /// container's dimensionality.
    pub open spec fn wf(&self) -> bool {
        &&& self.spec_dims().valid()
        &&& self.total() <= usize::MAX
        &&& self.spec_slots().len() == self.total()
        &&& forall|id: int|
            0 <= id < self.total() ==> match #[trigger] self.spec_slots()[id] {
                Some(v) => v.id == id && self.arity_matches(v),
                None => true,
            }
    }

    pub open spec fn present(&self, id: int) -> bool {
        0 <= id < self.spec_slots().len() && self.spec_slots()[id] is Some
    }

    pub open spec fn vertex_at(&self, id: int) -> Vertex<S>
        recommends
            self.present(id),
    {
        self.spec_slots()[id]->Some_0
    }

    /// How many vertices the container holds so far.
    pub open spec fn count(&self) -> int {
        count_present(self.spec_slots())
    }

    /// Every lattice point holds its vertex.
    pub open spec fn fully_populated(&self) -> bool {
        forall|id: int| 0 <= id < self.total() ==> #[trigger] self.present(id)
    }

    /// An empty 2D container of shape `nx` by `ny`. The shape is fixed
    /// for the container's whole life.
    pub fn new_2d(nx: usize, ny: usize) -> (r: Vertices<S>)
        requires
            2 <= nx,
            2 <= ny,
            nx * ny <= usize::MAX,
        ensures
            r.wf(),
            r.spec_dims() == (Dimensions::Two { nx, ny }),
            r.count() == 0,
            forall|id: int| 0 <= id < r.total() ==> !(#[trigger] r.present(id)),
    {
        let dimensions = Dimensions::Two { nx, ny };
        let total = dimensions.total_points();
        let mut slots: Vec<Option<Vertex<S>>> = Vec::new();
        let mut k: usize = 0;
        while k < total
            invariant
                k <= total,
                slots@.len() == k,
                forall|i: int| 0 <= i < k ==> (#[trigger] slots@[i]) is None,
            decreases total - k,
        {
            slots.push(None);
            k = k + 1;
        }
        proof {
            lemma_count_none(slots@);
        }
        Vertices { slots, dimensions }
    }

    /// An empty 3D container of shape `nx` by `ny` by `nz`.
    pub fn new_3d(nx: usize, ny: usize, nz: usize) -> (r: Vertices<S>)
        requires
            2 <= nx,
            2 <= ny,
            2 <= nz,
            nx * ny * nz <= usize::MAX,
        ensures
            r.wf(),
            r.spec_dims() == (Dimensions::Three { nx, ny, nz }),
            r.count() == 0,
            forall|id: int| 0 <= id < r.total() ==> !(#[trigger] r.present(id)),
    {
        let dimensions = Dimensions::Three { nx, ny, nz };
        let total = dimensions.total_points();
        let mut slots: Vec<Option<Vertex<S>>> = Vec::new();
        let mut k: usize = 0;
        while k < total
            invariant
                k <= total,
                slots@.len() == k,
                forall|i: int| 0 <= i < k ==> (#[trigger] slots@[i]) is None,
            decreases total - k,
        {
            slots.push(None);
            k = k + 1;
        }
        proof {
            lemma_count_none(slots@);
        }
        Vertices { slots, dimensions }
    }

    /// Whether a vertex would be accepted: its dimensionality matches
    /// the container's, its id addresses a lattice point, and that
    /// point is still empty.
    pub open spec fn can_add(&self, v: Vertex<S>) -> bool {
        self.arity_matches(v) && v.id < self.total() && !self.present(v.id as int)
    }

    /// Inserts a vertex under its own id. A vertex of the wrong
    /// dimensionality, one whose id lies outside the lattice, and one
    /// whose slot is already taken are silently ignored, leaving the
    /// container unchanged.
    pub fn add_vertex(&mut self, vertex: Vertex<S>)
        requires
            old(self).wf(),
        ensures
            final(self).wf(),
            final(self).spec_dims() == old(self).spec_dims(),
            old(self).can_add(vertex) ==> final(self).spec_slots() == old(self).spec_slots()
                .update(vertex.id as int, Some(vertex)),
            old(self).can_add(vertex) ==> final(self).count() == old(self).count() + 1,
            !old(self).can_add(vertex) ==> *final(self) == *old(self),
    {
        let dims_match = match (&vertex.coords, &self.dimensions) {
            (Point::TwoD { .. }, Dimensions::Two { .. }) => true,
            (Point::ThreeD { .. }, Dimensions::Three { .. }) => true,
            _ => false,
        };
        if dims_match && vertex.id < self.slots.len() {
            let id = vertex.id;
            if self.slots[id].is_none() {
                proof {
                    lemma_count_update(self.spec_slots(), id as int, vertex);
                }
                self.slots.set(id, Some(vertex));
            }
        }
    }

    /// The vertex stored under `vertex_id`, or nothing if that lattice
    /// point is absent or the id lies outside the lattice.
    pub fn get_vertex(&self, vertex_id: usize) -> (r: Option<&Vertex<S>>)
        ensures
            match r {
                Some(v) => self.present(vertex_id as int) && *v == self.vertex_at(
                    vertex_id as int,
                ),
                None => !self.present(vertex_id as int),
            },
    {
        if vertex_id < self.slots.len() {
            match &self.slots[vertex_id] {
                Some(v) => Some(v),
                None => None,
            }
        } else {
            None
        }
    }

    pub fn vertex_exists(&self, vertex_id: usize) -> (r: bool)
        ensures
            r <==> self.present(vertex_id as int),
    {
        self.get_vertex(vertex_id).is_some()
    }

    /// How many vertices are stored.
    pub fn vertex_count(&self) -> (r: usize)
        ensures
            r == self.count(),
    {
        proof {
            lemma_count_bounds(self.spec_slots());
        }
        let mut cnt: usize = 0;
        let mut k: usize = 0;
        while k < self.slots.len()
            invariant
                k <= self.spec_slots().len(),
                cnt == count_present(self.spec_slots().take(k as int)),
                0 <= cnt <= k,
            decreases self.spec_slots().len() - k,
        {
            proof {
                lemma_count_take_step(self.spec_slots(), k as int);
            }
            if self.slots[k].is_some() {
                cnt = cnt + 1;
            }
            k = k + 1;
        }
        proof {
            assert(self.spec_slots().take(self.spec_slots().len() as int) =~= self
                .spec_slots());
        }
        cnt
    }

    /// The slot array itself, one entry per lattice point in ascending
    /// id order, for read-only consumers.
    pub fn vertices(&self) -> (r: &Vec<Option<Vertex<S>>>)
        ensures
            r@ == self.spec_slots(),
    {
        &self.slots
    }

    /// The 2D axis counts.
    pub fn nx_ny(&self) -> (r: (usize, usize))
        requires
            self.spec_dims() is Two,
        ensures
            r.0 == self.spec_nx(),
            r.1 == self.spec_ny(),
    {
        let (nx, ny, _) = self.dimensions.as_tuple();
        (nx, ny)
    }
}

// The row-major addressing formula and its inverse.
impl<S: Copy> Vertices<S> {
    /// Row-major linear id of a 2D grid coordinate: `i + j*nx`.
    pub open spec fn spec_ij_to_id(&self, i: int, j: int) -> int {
        i + j * self.spec_nx()
    }

    /// Row-major linear id of a 3D grid coordinate:
    /// `i + j*nx + k*nx*ny`.
    pub open spec fn spec_ijk_to_id(&self, i: int, j: int, k: int) -> int {
        i + j * self.spec_nx() + k * (self.spec_nx() * self.spec_ny())
    }

    pub open spec fn in_bounds_ij(&self, i: int, j: int) -> bool {
        0 <= i < self.spec_nx() && 0 <= j < self.spec_ny()
    }

    pub open spec fn in_bounds_ijk(&self, i: int, j: int, k: int) -> bool {
        self.in_bounds_ij(i, j) && 0 <= k < self.spec_nz()
    }

    pub open spec fn spec_id_to_i(&self, id: int) -> int {
        id % self.spec_nx()
    }

    pub open spec fn spec_id_to_j(&self, id: int) -> int {
        (id / self.spec_nx()) % self.spec_ny()
    }

    pub open spec fn spec_id_to_k(&self, id: int) -> int {
        id / (self.spec_nx() * self.spec_ny())
    }

    /// The lattice capacity is the product of all three axis counts
    /// (the third being 1 for a 2D shape).
    pub proof fn lemma_total_is_product(&self)
        ensures
            self.total() == self.spec_nx() * self.spec_ny() * self.spec_nz(),
    {
        let nx = self.spec_nx();
        let ny = self.spec_ny();
        match self.spec_dims() {
            Dimensions::Two { .. } => {
                assert(nx * ny * 1 == nx * ny) by (nonlinear_arith);
            },
            Dimensions::Three { .. } => {},
        }
    }

    /// One direction of the addressing bijection: an in-bounds grid
    /// coordinate maps to an id inside the lattice, and the inverse
    /// formulas recover the coordinate from that id.
    pub proof fn lemma_grid_to_linear_to_grid(&self, i: int, j: int, k: int)
        requires
            self.spec_dims().valid(),
            self.in_bounds_ijk(i, j, k),
        ensures
            0 <= self.spec_ijk_to_id(i, j, k) < self.total(),
            self.spec_id_to_i(self.spec_ijk_to_id(i, j, k)) == i,
            self.spec_id_to_j(self.spec_ijk_to_id(i, j, k)) == j,
            self.spec_id_to_k(self.spec_ijk_to_id(i, j, k)) == k,
    {
        let nx = self.spec_nx();
        let ny = self.spec_ny();
        let nz = self.spec_nz();
        let id = self.spec_ijk_to_id(i, j, k);
        self.lemma_total_is_product();
        assert(0 <= id < nx * ny * nz) by (nonlinear_arith)
            requires
                id == i + j * nx + k * (nx * ny),
                0 <= i < nx,
                0 <= j < ny,
                0 <= k < nz,
        ;
        assert(id == (j + k * ny) * nx + i) by (nonlinear_arith)
            requires
                id == i + j * nx + k * (nx * ny),
        ;
        lemma_fundamental_div_mod_converse(id, nx, j + k * ny, i);
        lemma_fundamental_div_mod_converse(j + k * ny, ny, k, j);
        assert(id == k * (nx * ny) + (i + j * nx)) by (nonlinear_arith)
            requires
                id == i + j * nx + k * (nx * ny),
        ;
        assert(0 <= i + j * nx < nx * ny) by (nonlinear_arith)
            requires
                0 <= i < nx,
                0 <= j < ny,
        ;
        lemma_fundamental_div_mod_converse(id, nx * ny, k, i + j * nx);
    }

    /// The other direction of the addressing bijection: any id inside
    /// the lattice decomposes into in-bounds grid coordinates, and the
    /// forward formula rebuilds the id from them.
    pub proof fn lemma_linear_to_grid_to_linear(&self, id: int)
        requires
            self.spec_dims().valid(),
            0 <= id < self.total(),
        ensures
            self.in_bounds_ijk(
                self.spec_id_to_i(id),
                self.spec_id_to_j(id),
                self.spec_id_to_k(id),
            ),
            self.spec_ijk_to_id(
                self.spec_id_to_i(id),
                self.spec_id_to_j(id),
                self.spec_id_to_k(id),
            ) == id,
    {
        let nx = self.spec_nx();
        let ny = self.spec_ny();
        let nz = self.spec_nz();
        self.lemma_total_is_product();
        let i = id % nx;
        let q = id / nx;
        let j = q % ny;
        let k = id / (nx * ny);
        lemma_mod_division_less_than_divisor(id, nx);
        lemma_fundamental_div_mod(id, nx);
        assert(id < nx * (ny * nz)) by (nonlinear_arith)
            requires
                id < nx * ny * nz,
        ;
        lemma_multiply_divide_lt(id, nx, ny * nz);
        lemma_mod_division_less_than_divisor(q, ny);
        lemma_fundamental_div_mod(q, ny);
        lemma_multiply_divide_lt(q, ny, nz);
        lemma_div_denominator(id, nx, ny);
        assert(k == q / ny);
        assert(0 <= k < nz);
        assert(id == nx * (ny * k + j) + i);
        assert(id == i + j * nx + k * (nx * ny)) by (nonlinear_arith)
            requires
                id == nx * (ny * k + j) + i,
        ;
    }

    /// The inverse of the row-major formula: the grid coordinate of a
    /// stored 2D vertex. Nothing is returned for an id that is not
    /// present — presence, not mere range validity, is required — nor
    /// on a 3D container.
    pub fn vertex_id_to_ij(&self, vertex_id: usize) -> (r: Option<(usize, usize)>)
        requires
            self.wf(),
        ensures
            match r {
                Some((i, j)) => self.spec_dims() is Two && self.present(vertex_id as int)
                    && i == self.spec_id_to_i(vertex_id as int)
                    && j == self.spec_id_to_j(vertex_id as int)
                    && self.in_bounds_ij(i as int, j as int)
                    && self.spec_ij_to_id(i as int, j as int) == vertex_id,
                None => !(self.spec_dims() is Two) || !self.present(vertex_id as int),
            },
    {
        match self.dimensions {
            Dimensions::Two { nx, .. } => {
                if self.vertex_exists(vertex_id) {
                    let i = vertex_id % nx;
                    let j = vertex_id / nx;
                    proof {
                        let idn = vertex_id as int;
                        let nxi = nx as int;
                        let nyi = self.spec_ny();
                        self.lemma_linear_to_grid_to_linear(idn);
                        lemma_mod_division_less_than_divisor(idn, nxi);
                        lemma_fundamental_div_mod(idn, nxi);
                        lemma_div_pos_is_pos(idn, nxi);
                        lemma_multiply_divide_lt(idn, nxi, nyi);
                        lemma_fundamental_div_mod_converse(idn / nxi, nyi, 0, idn / nxi);
                    }
                    Some((i, j))
                } else {
                    None
                }
            },
            Dimensions::Three { .. } => None,
        }
    }

    /// The inverse of the row-major formula for a 3D container: the
    /// grid coordinate of a stored vertex.
    pub fn vertex_id_to_ijk(&self, vertex_id: usize) -> (r: Option<(usize, usize, usize)>)
        requires
            self.wf(),
        ensures
            match r {
                Some((i, j, k)) => self.spec_dims() is Three && self.present(vertex_id as int)
                    && i == self.spec_id_to_i(vertex_id as int)
                    && j == self.spec_id_to_j(vertex_id as int)
                    && k == self.spec_id_to_k(vertex_id as int)
                    && self.in_bounds_ijk(i as int, j as int, k as int)
                    && self.spec_ijk_to_id(i as int, j as int, k as int) == vertex_id,
                None => !(self.spec_dims() is Three) || !self.present(vertex_id as int),
            },
    {
        match self.dimensions {
            Dimensions::Three { nx, ny, .. } => {
                if self.vertex_exists(vertex_id) {
                    proof {
                        self.lemma_linear_to_grid_to_linear(vertex_id as int);
                        assert(nx as int * ny as int <= self.total()) by (nonlinear_arith)
                            requires
                                self.total() == nx as int * ny as int * self.spec_nz(),
                                1 <= self.spec_nz(),
                                0 <= nx as int * ny as int,
                        ;
                        self.lemma_total_is_product();
                    }
                    let i = vertex_id % nx;
                    let j = (vertex_id / nx) % ny;
                    let k = vertex_id / (nx * ny);
                    Some((i, j, k))
                } else {
                    None
                }
            },
            Dimensions::Two { .. } => None,
        }
    }

    /// The row-major formula itself, bounds-checked against the shape
    /// and then checked for presence: the id of the vertex stored at
    /// the 2D grid coordinate `(i, j)`.
    pub fn vertex_ij_to_id(&self, i: usize, j: usize) -> (r: Option<usize>)
        requires
            self.wf(),
        ensures
            match r {
                Some(id) => self.spec_dims() is Two && self.in_bounds_ij(i as int, j as int)
                    && id == self.spec_ij_to_id(i as int, j as int)
                    && self.present(id as int),
                None => !(self.spec_dims() is Two) || !self.in_bounds_ij(i as int, j as int)
                    || !self.present(self.spec_ij_to_id(i as int, j as int)),
            },
    {
        match self.dimensions {
            Dimensions::Two { nx, ny } => {
                if i < nx && j < ny {
                    proof {
                        self.lemma_grid_to_linear_to_grid(i as int, j as int, 0);
                    }
                    let vertex_id = (j * nx) + i;
                    if self.vertex_exists(vertex_id) {
                        Some(vertex_id)
                    } else {
                        None
                    }
                } else {
                    None
                }
            },
            Dimensions::Three { .. } => None,
        }
    }

    /// The row-major formula for a 3D container, bounds-checked and
    /// then checked for presence.
    pub fn vertex_ijk_to_id(&self, i: usize, j: usize, k: usize) -> (r: Option<usize>)
        requires
            self.wf(),
        ensures
            match r {
                Some(id) => self.spec_dims() is Three
                    && self.in_bounds_ijk(i as int, j as int, k as int)
                    && id == self.spec_ijk_to_id(i as int, j as int, k as int)
                    && self.present(id as int),
                None => !(self.spec_dims() is Three)
                    || !self.in_bounds_ijk(i as int, j as int, k as int)
                    || !self.present(self.spec_ijk_to_id(i as int, j as int, k as int)),
            },
    {
        match self.dimensions {
            Dimensions::Three { nx, ny, nz } => {
                if i < nx && j < ny && k < nz {
                    proof {
                        self.lemma_grid_to_linear_to_grid(i as int, j as int, k as int);
                        let m = usize::MAX as int;
                        let id = self.spec_ijk_to_id(i as int, j as int, k as int);
                        assert(j as int * nx as int <= m && k as int * nx as int <= m
                            && k as int * nx as int * ny as int <= m && i as int + j as int
                            * nx as int <= m) by (nonlinear_arith)
                            requires
                                id == i as int + j as int * nx as int + k as int * (nx as int
                                    * ny as int),
                                0 <= id <= m,
                                0 <= i as int,
                                0 <= j as int,
                                0 <= k as int,
                                1 <= nx as int,
                                1 <= ny as int,
                        ;
                        assert(k as int * nx as int * ny as int == k as int * (nx as int
                            * ny as int)) by (nonlinear_arith);
                    }
                    let vertex_id = i + (j * nx) + (k * nx * ny);
                    if self.vertex_exists(vertex_id) {
                        Some(vertex_id)
                    } else {
                        None
                    }
                } else {
                    None
                }
            },
            Dimensions::Two { .. } => None,
        }
    }
}

// Directional adjacency with boundary semantics.
impl<S: Copy> Vertices<S> {
    /// The grid coordinate one unit step away, or nothing if the step
    /// would leave the lattice. In a 2D container the third axis has a
    /// single layer, so Up and Down always step outside.
    pub open spec fn spec_step(&self, i: int, j: int, k: int, dir: Direction) -> Option<
        (int, int, int),
    > {
        match dir {
            Direction::East => if i + 1 < self.spec_nx() {
                Some((i + 1, j, k))
            } else {
                None
            },
            Direction::West => if i > 0 {
                Some((i - 1, j, k))
            } else {
                None
            },
            Direction::North => if j + 1 < self.spec_ny() {
                Some((i, j + 1, k))
            } else {
                None
            },
            Direction::South => if j > 0 {
                Some((i, j - 1, k))
            } else {
                None
            },
            Direction::Up => if k + 1 < self.spec_nz() {
                Some((i, j, k + 1))
            } else {
                None
            },
            Direction::Down => if k > 0 {
                Some((i, j, k - 1))
            } else {
                None
            },
        }
    }

    /// The id one step away from a stored vertex, or nothing if the
    /// vertex is absent or the step leaves the lattice.
    pub open spec fn spec_neighbor_id(&self, id: int, dir: Direction) -> Option<int> {
        if !self.present(id) {
            None
        } else {
            match self.spec_step(
                self.spec_id_to_i(id),
                self.spec_id_to_j(id),
                self.spec_id_to_k(id),
                dir,
            ) {
                Some((i2, j2, k2)) => Some(self.spec_ijk_to_id(i2, j2, k2)),
                None => None,
            }
        }
    }

    /// The neighboring vertex: defined when the neighbor id exists and
    /// the vertex under it is present.
    pub open spec fn spec_adjacent(&self, id: int, dir: Direction) -> Option<Vertex<S>> {
        match self.spec_neighbor_id(id, dir) {
            Some(nid) => if self.present(nid) {
                Some(self.vertex_at(nid))
            } else {
                None
            },
            None => None,
        }
    }

    /// The vertex one step from `vertex_id`. Nothing is returned when
    /// the vertex is absent, when the step crosses the lattice
    /// boundary, or when the stepped-to vertex is itself absent; all
    /// three are expected conditions, not failures.
    pub fn get_adjacent_vertex(&self, vertex_id: usize, direction: Direction) -> (r: Option<
        &Vertex<S>,
    >)
        requires
            self.wf(),
        ensures
            match r {
                Some(v) => self.spec_adjacent(vertex_id as int, direction) == Some(*v),
                None => self.spec_adjacent(vertex_id as int, direction) is None,
            },
    {
        match self.dimensions {
            Dimensions::Two { nx, ny } => {
                match self.vertex_id_to_ij(vertex_id) {
                    None => None,
                    Some((i, j)) => {
                        proof {
                            self.lemma_linear_to_grid_to_linear(vertex_id as int);
                        }
                        let stepped: Option<(usize, usize)> = match direction {
                            Direction::East => if i + 1 >= nx {
                                None
                            } else {
                                Some((i + 1, j))
                            },
                            Direction::West => if i == 0 {
                                None
                            } else {
                                Some((i - 1, j))
                            },
                            Direction::North => if j + 1 >= ny {
                                None
                            } else {
                                Some((i, j + 1))
                            },
                            Direction::South => if j == 0 {
                                None
                            } else {
                                Some((i, j - 1))
                            },
                            Direction::Up => None,
                            Direction::Down => None,
                        };
                        match stepped {
                            None => None,
                            Some((i2, j2)) => match self.vertex_ij_to_id(i2, j2) {
                                Some(new_id) => self.get_vertex(new_id),
                                None => None,
                            },
                        }
                    },
                }
            },
            Dimensions::Three { nx, ny, nz } => {
                match self.vertex_id_to_ijk(vertex_id) {
                    None => None,
                    Some((i, j, k)) => {
                        let stepped: Option<(usize, usize, usize)> = match direction {
                            Direction::East => if i + 1 >= nx {
                                None
                            } else {
                                Some((i + 1, j, k))
                            },
                            Direction::West => if i == 0 {
                                None
                            } else {
                                Some((i - 1, j, k))
                            },
                            Direction::North => if j + 1 >= ny {
                                None
                            } else {
                                Some((i, j + 1, k))
                            },
                            Direction::South => if j == 0 {
                                None
                            } else {
                                Some((i, j - 1, k))
                            },
                            Direction::Up => if k + 1 >= nz {
                                None
                            } else {
                                Some((i, j, k + 1))
                            },
                            Direction::Down => if k == 0 {
                                None
                            } else {
                                Some((i, j, k - 1))
                            },
                        };
                        match stepped {
                            None => None,
                            Some((i2, j2, k2)) => match self.vertex_ijk_to_id(i2, j2, k2) {
                                Some(new_id) => self.get_vertex(new_id),
                                None => None,
                            },
                        }
                    },
                }
            },
        }
    }

    /// Boundary absence: a stored vertex in the last column has no
    /// eastern neighbor, one in the first column no western neighbor,
    /// and symmetrically along the other axes.
    pub proof fn lemma_boundary_has_no_neighbor(&self, id: int)
        requires
            self.wf(),
            self.present(id),
        ensures
            self.spec_id_to_i(id) == self.spec_nx() - 1 ==> self.spec_adjacent(
                id,
                Direction::East,
            ) is None,
            self.spec_id_to_i(id) == 0 ==> self.spec_adjacent(id, Direction::West) is None,
            self.spec_id_to_j(id) == self.spec_ny() - 1 ==> self.spec_adjacent(
                id,
                Direction::North,
            ) is None,
            self.spec_id_to_j(id) == 0 ==> self.spec_adjacent(id, Direction::South) is None,
            self.spec_id_to_k(id) == self.spec_nz() - 1 ==> self.spec_adjacent(
                id,
                Direction::Up,
            ) is None,
            self.spec_id_to_k(id) == 0 ==> self.spec_adjacent(id, Direction::Down) is None,
    {
    }
}

// The unit reference lattice, used for topology work independent of
// the grid generator. Its coordinates are exact ratios: grid point
// (i, j) lies at (i/(nx-1), j/(ny-1)).
impl Vertices<Frac> {
    /// The reference-lattice vertex of 2D grid point `(i, j)`.
    pub open spec fn spec_unit_vertex_2d(&self, i: int, j: int) -> Vertex<Frac> {
        Vertex {
            id: self.spec_ij_to_id(i, j) as usize,
            coords: Point::TwoD {
                x: Frac { num: i as usize, den: (self.spec_nx() - 1) as usize },
                y: Frac { num: j as usize, den: (self.spec_ny() - 1) as usize },
            },
        }
    }

    /// The reference-lattice vertex of 3D grid point `(i, j, k)`.
    pub open spec fn spec_unit_vertex_3d(&self, i: int, j: int, k: int) -> Vertex<Frac> {
        Vertex {
            id: self.spec_ijk_to_id(i, j, k) as usize,
            coords: Point::ThreeD {
                x: Frac { num: i as usize, den: (self.spec_nx() - 1) as usize },
                y: Frac { num: j as usize, den: (self.spec_ny() - 1) as usize },
                z: Frac { num: k as usize, den: (self.spec_nz() - 1) as usize },
            },
        }
    }

    /// The reference-lattice vertex stored under a linear id.
    pub open spec fn spec_unit_vertex_at(&self, id: int) -> Vertex<Frac> {
        if self.spec_dims() is Two {
            self.spec_unit_vertex_2d(self.spec_id_to_i(id), self.spec_id_to_j(id))
        } else {
            self.spec_unit_vertex_3d(
                self.spec_id_to_i(id),
                self.spec_id_to_j(id),
                self.spec_id_to_k(id),
            )
        }
    }

    /// Fills a freshly created container with the unit reference
    /// lattice: every lattice point receives its vertex, under the
    /// row-major id, with coordinates `i/(nx-1)`, `j/(ny-1)` and, in
    /// 3D, `k/(nz-1)`.
    #[verifier::rlimit(40)]
    pub fn populate_uniform(&mut self)
        requires
            old(self).wf(),
            forall|id: int| 0 <= id < old(self).total() ==> !(#[trigger] old(self).present(id)),
        ensures
            final(self).wf(),
            final(self).spec_dims() == old(self).spec_dims(),
            final(self).fully_populated(),
            final(self).count() == final(self).total(),
            forall|id: int|
                0 <= id < final(self).total() ==> #[trigger] final(self).vertex_at(id)
                    == final(self).spec_unit_vertex_at(id),
    {
        let ghost dims = self.spec_dims();
        match self.dimensions {
            Dimensions::Two { nx, ny } => {
                let ghost mut cursor: int = 0;
                let mut j: usize = 0;
                while j < ny
                    invariant
                        self.wf(),
                        self.spec_dims() == dims,
                        dims == (Dimensions::Two { nx, ny }),
                        j <= ny,
                        self.total() == nx as int * ny as int,
                        cursor == j as int * nx as int,
                        0 <= cursor <= self.total(),
                        forall|t: int|
                            0 <= t < cursor ==> #[trigger] self.present(t) && self.vertex_at(t)
                                == self.spec_unit_vertex_at(t),
                        forall|t: int|
                            cursor <= t < self.total() ==> !(#[trigger] self.present(t)),
                    decreases ny - j,
                {
                    let mut i: usize = 0;
                    proof {
                        assert(j as int * nx as int + nx as int <= nx as int * ny as int)
                            by (nonlinear_arith)
                            requires
                                (j as int) < ny as int,
                                0 <= j as int,
                                0 < nx as int,
                        ;
                    }
                    while i < nx
                        invariant
                            self.wf(),
                            self.spec_dims() == dims,
                            dims == (Dimensions::Two { nx, ny }),
                            j < ny,
                            i <= nx,
                            self.total() == nx as int * ny as int,
                            cursor == j as int * nx as int + i as int,
                            j as int * nx as int + nx as int <= self.total(),
                            forall|t: int|
                                0 <= t < cursor ==> #[trigger] self.present(t)
                                    && self.vertex_at(t) == self.spec_unit_vertex_at(t),
                            forall|t: int|
                                cursor <= t < self.total() ==> !(#[trigger] self.present(
                                    t,
                                )),
                        decreases nx - i,
                    {
                        proof {
                            self.lemma_grid_to_linear_to_grid(i as int, j as int, 0);
                        }
                        let id = i + j * nx;
                        let x = Frac::new(i, nx - 1);
                        let y = Frac::new(j, ny - 1);
                        let v = Vertex::new_2d(id, x, y);
                        let ghost prev = *self;
                        self.add_vertex(v);
                        proof {
                            assert(v.id as int == cursor);
                            assert(self.spec_slots() == prev.spec_slots().update(
                                cursor,
                                Some(v),
                            ));
                            assert(self.spec_unit_vertex_at(cursor) == v);
                            assert forall|t: int| 0 <= t < cursor + 1 implies #[trigger] self
                                .present(t) && self.vertex_at(t) == self.spec_unit_vertex_at(
                                t,
                            ) by {
                                if t != cursor {
                                    assert(prev.present(t));
                                    assert(prev.vertex_at(t) == prev.spec_unit_vertex_at(t));
                                }
                            }
                            assert forall|t: int| cursor + 1 <= t < self.total() implies !(
                            #[trigger] self.present(t)) by {
                                assert(!prev.present(t));
                            }
                            cursor = cursor + 1;
                        }
                        i = i + 1;
                    }
                    proof {
                        assert((j as int + 1) * nx as int == j as int * nx as int + nx as int)
                            by (nonlinear_arith);
                        assert((j as int + 1) * nx as int <= nx as int * ny as int)
                            by (nonlinear_arith)
                            requires
                                j as int + 1 <= ny as int,
                                0 <= nx as int,
                        ;
                    }
                    j = j + 1;
                }
                proof {
                    assert(cursor == self.total()) by {
                        assert(ny as int * nx as int == nx as int * ny as int)
                            by (nonlinear_arith);
                    }
                    assert forall|id: int| 0 <= id < self.total() implies #[trigger] self
                        .present(id) by {}
                    assert forall|id: int|
                        0 <= id < self.total() implies #[trigger] self.vertex_at(id) == self
                        .spec_unit_vertex_at(id) by {
                        assert(self.present(id));
                    }
                    assert forall|id: int|
                        0 <= id < self.total() implies (#[trigger] self.spec_slots()[id])
                        is Some by {
                        assert(self.present(id));
                    }
                    lemma_count_full(self.spec_slots());
                }
            },
            Dimensions::Three { nx, ny, nz } => {
                proof {
                    self.lemma_total_is_product();
                }
                let ghost mut cursor: int = 0;
                let mut k: usize = 0;
                while k < nz
                    invariant
                        self.wf(),
                        self.spec_dims() == dims,
                        dims == (Dimensions::Three { nx, ny, nz }),
                        k <= nz,
                        self.total() == nx as int * ny as int * nz as int,
                        cursor == k as int * (nx as int * ny as int),
                        0 <= cursor <= self.total(),
                        forall|t: int|
                            0 <= t < cursor ==> #[trigger] self.present(t) && self.vertex_at(t)
                                == self.spec_unit_vertex_at(t),
                        forall|t: int|
                            cursor <= t < self.total() ==> !(#[trigger] self.present(t)),
                    decreases nz - k,
                {
                    proof {
                        assert(k as int * (nx as int * ny as int) + nx as int * ny as int
                            <= nz as int * (nx as int * ny as int)) by (nonlinear_arith)
                            requires
                                (k as int) < nz as int,
                                0 <= k as int,
                                0 < nx as int,
                                0 < ny as int,
                        ;
                        assert(nz as int * (nx as int * ny as int) == nx as int * ny as int
                            * nz as int) by (nonlinear_arith);
                    }
                    let mut j: usize = 0;
                    while j < ny
                        invariant
                            self.wf(),
                            self.spec_dims() == dims,
                            dims == (Dimensions::Three { nx, ny, nz }),
                            k < nz,
                            j <= ny,
                            self.total() == nx as int * ny as int * nz as int,
                            cursor == k as int * (nx as int * ny as int) + j as int * nx as int,
                            k as int * (nx as int * ny as int) + nx as int * ny as int
                                <= self.total(),
                            0 <= cursor,
                            forall|t: int|
                                0 <= t < cursor ==> #[trigger] self.present(t) && self
                                    .vertex_at(t) == self.spec_unit_vertex_at(t),
                            forall|t: int|
                                cursor <= t < self.total() ==> !(#[trigger] self.present(t)),
                        decreases ny - j,
                    {
                        proof {
                            assert(j as int * nx as int + nx as int <= nx as int * ny as int)
                                by (nonlinear_arith)
                                requires
                                    (j as int) < ny as int,
                                    0 <= j as int,
                                    0 < nx as int,
                            ;
                        }
                        let mut i: usize = 0;
                        while i < nx
                            invariant
                                self.wf(),
                                self.spec_dims() == dims,
                                dims == (Dimensions::Three { nx, ny, nz }),
                                k < nz,
                                j < ny,
                                i <= nx,
                                self.total() == nx as int * ny as int * nz as int,
                                cursor == k as int * (nx as int * ny as int) + j as int
                                    * nx as int + i as int,
                                k as int * (nx as int * ny as int) + nx as int * ny as int
                                    <= self.total(),
                                j as int * nx as int + nx as int <= nx as int * ny as int,
                                forall|t: int|
                                    0 <= t < cursor ==> #[trigger] self.present(t) && self
                                        .vertex_at(t) == self.spec_unit_vertex_at(t),
                                forall|t: int|
                                    cursor <= t < self.total() ==> !(#[trigger] self.present(
                                        t,
                                    )),
                            decreases nx - i,
                        {
                            proof {
                                self.lemma_grid_to_linear_to_grid(i as int, j as int, k as int);
                                let m = usize::MAX as int;
                                let idp = self.spec_ijk_to_id(i as int, j as int, k as int);
                                assert(j as int * nx as int <= m && k as int * nx as int <= m
                                    && k as int * nx as int * ny as int <= m && i as int
                                    + j as int * nx as int <= m) by (nonlinear_arith)
                                    requires
                                        idp == i as int + j as int * nx as int + k as int * (
                                        nx as int * ny as int),
                                        0 <= idp <= m,
                                        0 <= i as int,
                                        0 <= j as int,
                                        0 <= k as int,
                                        1 <= nx as int,
                                        1 <= ny as int,
                                ;
                                assert(k as int * nx as int * ny as int == k as int * (nx as int
                                    * ny as int)) by (nonlinear_arith);
                            }
                            let id = i + j * nx + k * nx * ny;
                            let x = Frac::new(i, nx - 1);
                            let y = Frac::new(j, ny - 1);
                            let z = Frac::new(k, nz - 1);
                            let v = Vertex::new_3d(id, x, y, z);
                            let ghost prev = *self;
                            self.add_vertex(v);
                            proof {
                                assert(v.id as int == cursor);
                                assert(self.spec_slots() == prev.spec_slots().update(
                                    cursor,
                                    Some(v),
                                ));
                                assert(self.spec_unit_vertex_at(cursor) == v);
                                assert forall|t: int| 0 <= t < cursor + 1 implies #[trigger] self
                                    .present(t) && self.vertex_at(t) == self
                                    .spec_unit_vertex_at(t) by {
                                    if t != cursor {
                                        assert(prev.present(t));
                                        assert(prev.vertex_at(t) == prev.spec_unit_vertex_at(
                                            t,
                                        ));
                                    }
                                }
                                assert forall|t: int| cursor + 1 <= t < self.total() implies !(
                                #[trigger] self.present(t)) by {
                                    assert(!prev.present(t));
                                }
                                cursor = cursor + 1;
                            }
                            i = i + 1;
                        }
                        proof {
                            assert((j as int + 1) * nx as int == j as int * nx as int
                                + nx as int) by (nonlinear_arith);
                        }
                        j = j + 1;
                    }
                    proof {
                        assert((k as int + 1) * (nx as int * ny as int) == k as int * (nx as int
                            * ny as int) + nx as int * ny as int) by (nonlinear_arith);
                        assert(ny as int * nx as int == nx as int * ny as int)
                            by (nonlinear_arith);
                        assert((k as int + 1) * (nx as int * ny as int) <= nx as int * ny as int
                            * nz as int) by (nonlinear_arith)
                            requires
                                k as int + 1 <= nz as int,
                                0 <= nx as int * ny as int,
                        ;
                    }
                    k = k + 1;
                }
                proof {
                    assert(cursor == self.total()) by {
                        assert(nz as int * (nx as int * ny as int) == nx as int * ny as int
                            * nz as int) by (nonlinear_arith);
                    }
                    assert forall|id: int| 0 <= id < self.total() implies #[trigger] self
                        .present(id) by {}
                    assert forall|id: int|
                        0 <= id < self.total() implies #[trigger] self.vertex_at(id) == self
                        .spec_unit_vertex_at(id) by {
                        assert(self.present(id));
                    }
                    assert forall|id: int|
                        0 <= id < self.total() implies (#[trigger] self.spec_slots()[id])
                        is Some by {
                        assert(self.present(id));
                    }
                    lemma_count_full(self.spec_slots());
                }
            },
        }
    }
}

impl<S: Copy> Dimensioned for Vertices<S> {
    open spec fn dims_known(&self) -> bool {
        true
    }

    open spec fn spec_dimensions(&self) -> int {
        self.spec_dims().spec_dimensions()
    }

    fn is_2d(&self) -> (r: bool)
    {
        let r = self.dimensions.is_2d();
        proof {
            assert(self.spec_dimensions() == self.spec_dims().spec_dimensions());
        }
        r
    }

    fn dimensions(&self) -> (r: usize)
    {
        let r = self.dimensions.dimensions();
        proof {
            assert(self.spec_dimensions() == self.spec_dims().spec_dimensions());
        }
        r
    }
}

} // verus!
