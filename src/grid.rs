use vstd::prelude::*;

verus! {

/// The largest number of voxels a grid may hold, an empty axis counting as
/// one voxel. It keeps every grid allocation well inside `isize`.
pub const MAX_VOXELS: u64 = 2147483647;

/// `n`, or one when `n` is zero: an empty axis adds no factor to the extent.
pub open spec fn at_least_one(n: int) -> int {
    if n == 0 { 1 } else { n }
}

/// The product of the axis lengths that are not zero.
pub open spec fn extent(x: int, y: int, z: int) -> int {
    at_least_one(x) * at_least_one(y) * at_least_one(z)
}

/// Whether `(i, j, k)` is a cell of a grid of shape `(x, y, z)`.
pub open spec fn in_shape(shape: (usize, usize, usize), i: int, j: int, k: int) -> bool {
    0 <= i < shape.0 && 0 <= j < shape.1 && 0 <= k < shape.2
}

/// A dense three-dimensional array of byte flags, held in an
/// `ndarray::Array3<u8>`.
#[verifier::external_body]
#[derive(Debug)]
pub struct OccupancyGrid {
    cells: ndarray::Array3<u8>,
}

/// The value of each cell of the grid, keyed by its `(i, j, k)` index.
pub uninterp spec fn grid_cells(g: OccupancyGrid) -> Map<(int, int, int), u8>;

/// The lengths of the grid's three axes.
pub uninterp spec fn grid_shape(g: OccupancyGrid) -> (usize, usize, usize);

impl OccupancyGrid {
    pub open spec fn cells(self) -> Map<(int, int, int), u8> {
        grid_cells(self)
    }

    pub open spec fn shape(self) -> (usize, usize, usize) {
        grid_shape(self)
    }

    /// Every in-shape index is a key, and no other.
    pub open spec fn wf(self) -> bool {
        forall|i: int, j: int, k: int|
            #[trigger] self.cells().contains_key((i, j, k)) <==> in_shape(self.shape(), i, j, k)
    }

    /// Relies on `ndarray::Array3::zeros`: an array of the given shape with
    /// every element zero. It panics only when the product of the non-zero
    /// axis lengths overflows `isize`, which the bound here rules out.
    #[verifier::external_body]
    pub fn zeros(x: usize, y: usize, z: usize) -> (r: OccupancyGrid)
        requires
            extent(x as int, y as int, z as int) <= MAX_VOXELS,
        ensures
            grid_shape(r) == (x, y, z),
            grid_cells(r).dom() == Set::new(|c: (int, int, int)| in_shape((x, y, z), c.0, c.1, c.2)),
            forall|i: int, j: int, k: int|
                in_shape((x, y, z), i, j, k) ==> #[trigger] grid_cells(r)[(i, j, k)] == 0,
    {
        OccupancyGrid { cells: ndarray::Array3::zeros((x, y, z)) }
    }

    /// Relies on `ndarray`'s `IndexMut<[usize; 3]>` for `Array3`: writes one
    /// element, and panics only on an index outside the shape.
    #[verifier::external_body]
    pub fn set(&mut self, i: usize, j: usize, k: usize, v: u8)
        requires
            in_shape(grid_shape(*old(self)), i as int, j as int, k as int),
        ensures
            grid_shape(*final(self)) == grid_shape(*old(self)),
            grid_cells(*final(self)) == grid_cells(*old(self)).insert((i as int, j as int, k as int), v),
    {
        self.cells[[i, j, k]] = v;
    }

    /// Relies on `ndarray`'s `Index<[usize; 3]>` for `Array3`: reads one
    /// element, and panics only on an index outside the shape.
    #[verifier::external_body]
    pub fn get(&self, i: usize, j: usize, k: usize) -> (r: u8)
        requires
            in_shape(grid_shape(*self), i as int, j as int, k as int),
        ensures
            r == grid_cells(*self)[(i as int, j as int, k as int)],
    {
        self.cells[[i, j, k]]
    }
}

} // verus!
