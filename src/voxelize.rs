use vstd::prelude::*;
use crate::containment::{Tet, TetFrame};
use crate::geometry::{Point, bounding_box, is_min_coord, is_max_coord, round_to_voxel, round_coord, lemma_round_bounds, lemma_round_monotonic, COORD_LIMIT};
use crate::grid::{OccupancyGrid, grid_cells, grid_shape, in_shape, extent, MAX_VOXELS};
use crate::lattice::{Lattice, LatticeShape, build_lattice};

verus! {

/// A tetrahedral mesh: points, and tetrahedra as quadruples of zero-based
/// indices into the points.
#[derive(Clone, Debug)]
pub struct Mesh {
    pub points: Vec<Point>,
    pub tets: Vec<[usize; 4]>,
}

impl Mesh {
    pub fn new(points: Vec<Point>, tets: Vec<[usize; 4]>) -> (r: Mesh)
        ensures
            r.points@ == points@,
            r.tets@ == tets@,
    {
        Mesh { points, tets }
    }
}

/// Why a mesh could not be voxelized.
#[derive(Clone, Copy, Debug, PartialEq, Eq)]
pub enum VoxelizeError {
    /// The point at this index has a coordinate beyond `COORD_LIMIT`.
    CoordinateOutOfRange { point: usize },
    /// The tetrahedron at this index names a point that does not exist.
    IndexOutOfRange { tet: usize },
    /// The tetrahedron at this index has coplanar corners.
    DegenerateTetrahedron { tet: usize },
    /// The grid would hold more than `MAX_VOXELS` voxels.
    GridTooLarge,
}

/// The tetrahedron whose corners are the points at the indices of `t`.
pub open spec fn tet_of(pts: Seq<Point>, t: [usize; 4]) -> Tet {
    Tet { a: pts[t[0] as int], b: pts[t[1] as int], c: pts[t[2] as int], d: pts[t[3] as int] }
}

/// `p` passes the containment test of some tetrahedron of the mesh.
pub open spec fn covered(pts: Seq<Point>, tets: Seq<[usize; 4]>, p: Point) -> bool {
    exists|q: int| 0 <= q < tets.len() && #[trigger] tet_of(pts, tets[q]).contains(p)
}

pub open spec fn indices_valid(n: int, t: [usize; 4]) -> bool {
    t[0] < n && t[1] < n && t[2] < n && t[3] < n
}

pub open spec fn points_ok(pts: Seq<Point>) -> bool {
    forall|q: int| 0 <= q < pts.len() ==> #[trigger] pts[q].within(COORD_LIMIT as int)
}

pub open spec fn tets_ok(n: int, tets: Seq<[usize; 4]>) -> bool {
    forall|q: int| 0 <= q < tets.len() ==> indices_valid(n, #[trigger] tets[q])
}

pub open spec fn none_degenerate(pts: Seq<Point>, tets: Seq<[usize; 4]>) -> bool {
    forall|q: int| 0 <= q < tets.len() ==> !(#[trigger] tet_of(pts, tets[q])).is_degenerate()
}

/// `p` is the first point outside the coordinate limit.
pub open spec fn first_bad_point(pts: Seq<Point>, p: int) -> bool {
    0 <= p < pts.len() && !pts[p].within(COORD_LIMIT as int) && points_ok(pts.take(p))
}

/// `t` is the first tetrahedron with an index outside the point set.
pub open spec fn first_bad_tet(n: int, tets: Seq<[usize; 4]>, t: int) -> bool {
    0 <= t < tets.len() && !indices_valid(n, tets[t]) && tets_ok(n, tets.take(t))
}

/// `t` is the first tetrahedron with coplanar corners.
pub open spec fn first_degenerate(pts: Seq<Point>, tets: Seq<[usize; 4]>, t: int) -> bool {
    0 <= t < tets.len() && tet_of(pts, tets[t]).is_degenerate() && none_degenerate(pts, tets.take(t))
}

/// The least coordinate along `axis` over a non-empty point set.
pub open spec fn min_coord(pts: Seq<Point>, axis: int) -> int {
    choose|v: int| is_min_coord(pts, axis, v)
}

/// The greatest coordinate along `axis` over a non-empty point set.
pub open spec fn max_coord(pts: Seq<Point>, axis: int) -> int {
    choose|v: int| is_max_coord(pts, axis, v)
}

/// The number of voxels along `axis`: from the rounded minimum to the
/// rounded maximum.
pub open spec fn axis_len(pts: Seq<Point>, axis: int) -> int {
    round_to_voxel(max_coord(pts, axis)) - round_to_voxel(min_coord(pts, axis))
}

/// The voxel count of the mesh's grid, an empty axis counting as one.
pub open spec fn mesh_extent(pts: Seq<Point>) -> int {
    extent(axis_len(pts, 0), axis_len(pts, 1), axis_len(pts, 2))
}

impl LatticeShape {
    /// The lattice of a non-empty point set: per axis, from the rounded
    /// least coordinate to the rounded greatest one.
    pub open spec fn spans_points(self, pts: Seq<Point>) -> bool {
        &&& self.x_min == round_to_voxel(min_coord(pts, 0))
        &&& self.y_min == round_to_voxel(min_coord(pts, 1))
        &&& self.z_min == round_to_voxel(min_coord(pts, 2))
        &&& self.x_len == axis_len(pts, 0)
        &&& self.y_len == axis_len(pts, 1)
        &&& self.z_len == axis_len(pts, 2)
    }

    pub open spec fn is_empty_at_origin(self) -> bool {
        self.x_min == 0 && self.y_min == 0 && self.z_min == 0 && self.x_len == 0 && self.y_len == 0
            && self.z_len == 0
    }
}

/// A voxel grid: one flag per voxel, 1 where the voxel's center lies in the
/// solid and 0 elsewhere, indexed `(x, y, z)` from the lattice origin.
#[derive(Debug)]
pub struct VoxelModel {
    pub voxels: OccupancyGrid,
    pub shape: LatticeShape,
}

impl VoxelModel {
    pub open spec fn wf(self) -> bool {
        grid_shape(self.voxels) == (self.shape.x_len, self.shape.y_len, self.shape.z_len)
    }

    pub open spec fn cell(self, i: int, j: int, k: int) -> u8 {
        grid_cells(self.voxels)[(i, j, k)]
    }

    /// This model is the voxelization of the mesh `(pts, tets)`: its lattice
    /// spans the points' rounded bounding box, and a voxel is 1 exactly when
    /// its center passes the containment test (within the tolerance) of
    /// some tetrahedron.
    pub open spec fn voxelizes(self, pts: Seq<Point>, tets: Seq<[usize; 4]>) -> bool {
        &&& self.wf()
        &&& pts.len() == 0 ==> self.shape.is_empty_at_origin()
        &&& pts.len() > 0 ==> self.shape.spans_points(pts)
        &&& forall|i: int, j: int, k: int|
            self.shape.in_range(i, j, k) ==> #[trigger] self.cell(i, j, k) == if covered(
                pts,
                tets,
                self.shape.center_of(i, j, k),
            ) {
                1u8
            } else {
                0u8
            }
    }

    pub fn x_len(&self) -> (r: usize)
        ensures
            r == self.shape.x_len,
    {
        self.shape.x_len
    }

    pub fn y_len(&self) -> (r: usize)
        ensures
            r == self.shape.y_len,
    {
        self.shape.y_len
    }

    pub fn z_len(&self) -> (r: usize)
        ensures
            r == self.shape.z_len,
    {
        self.shape.z_len
    }

    /// The flag of voxel `(x, y, z)`.
    pub fn get(&self, x: usize, y: usize, z: usize) -> (r: u8)
        requires
            self.wf(),
            self.shape.in_range(x as int, y as int, z as int),
        ensures
            r == self.cell(x as int, y as int, z as int),
    {
        self.voxels.get(x, y, z)
    }
}

/// The lattice positions of the voxels whose centers lie in the tetrahedron
/// of `frame`: the batch one tetrahedron contributes to the grid.
pub fn tet_voxels(frame: &TetFrame, lattice: &Lattice) -> (r: Vec<(usize, usize, usize)>)
    requires
        frame.wf(),
        lattice.wf(),
    ensures
        forall|q: int|
            0 <= q < r@.len() ==> {
                let v = #[trigger] r@[q];
                lattice.shape.in_range(v.0 as int, v.1 as int, v.2 as int) && frame.tet.contains(
                    lattice.shape.center_of(v.0 as int, v.1 as int, v.2 as int),
                )
            },
        forall|i: int, j: int, k: int|
            lattice.shape.in_range(i, j, k) && frame.tet.contains(#[trigger] lattice.shape.center_of(i, j, k))
                ==> r@.contains((i as usize, j as usize, k as usize)),
{
    let shape = lattice.shape;
    let mut found: Vec<(usize, usize, usize)> = Vec::new();
    let mut n: usize = 0;
    while n < lattice.voxels.len()
        invariant
            shape == lattice.shape,
            frame.wf(),
            lattice.wf(),
            n <= lattice.voxels@.len(),
            forall|q: int|
                0 <= q < found@.len() ==> {
                    let v = #[trigger] found@[q];
                    shape.in_range(v.0 as int, v.1 as int, v.2 as int) && frame.tet.contains(
                        shape.center_of(v.0 as int, v.1 as int, v.2 as int),
                    )
                },
            forall|r: int|
                0 <= r < n && #[trigger] frame.tet.contains(lattice.voxels@[r].center) ==> found@.contains(
                    (lattice.voxels@[r].i, lattice.voxels@[r].j, lattice.voxels@[r].k),
                ),
        decreases lattice.voxels@.len() - n,
    {
        let v = lattice.voxels[n];
        assert(lattice.voxels@[n as int] == v);
        if frame.contains(v.center) {
            let ghost before = found@;
            found.push((v.i, v.j, v.k));
            assert(found@[before.len() as int] == (v.i, v.j, v.k));
            assert forall|r: int|
                0 <= r < n + 1 && #[trigger] frame.tet.contains(lattice.voxels@[r].center) implies found@.contains(
                    (lattice.voxels@[r].i, lattice.voxels@[r].j, lattice.voxels@[r].k),
                ) by {
                if r < n {
                    let w = (lattice.voxels@[r].i, lattice.voxels@[r].j, lattice.voxels@[r].k);
                    let q = choose|q: int| 0 <= q < before.len() && before[q] == w;
                    assert(found@[q] == w);
                }
            }
        }
        n = n + 1;
    }
    assert forall|i: int, j: int, k: int|
        lattice.shape.in_range(i, j, k) && frame.tet.contains(#[trigger] lattice.shape.center_of(i, j, k))
            implies found@.contains((i as usize, j as usize, k as usize)) by {
        let r = shape.index(i, j, k);
        assert(shape.is_voxel(lattice.voxels@[r], i, j, k));
        assert(frame.tet.contains(lattice.voxels@[r].center));
    }
    found
}

/// Sets to 1 each voxel named in `found`; every other voxel keeps its flag.
pub fn mark_voxels(grid: &mut OccupancyGrid, found: &Vec<(usize, usize, usize)>)
    requires
        old(grid).wf(),
        forall|q: int|
            0 <= q < found@.len() ==> {
                let v = #[trigger] found@[q];
                in_shape(grid_shape(*old(grid)), v.0 as int, v.1 as int, v.2 as int)
            },
    ensures
        final(grid).wf(),
        grid_shape(*final(grid)) == grid_shape(*old(grid)),
        forall|i: int, j: int, k: int|
            in_shape(grid_shape(*old(grid)), i, j, k) ==> #[trigger] grid_cells(*final(grid))[(i, j, k)] == if found@.contains(
                (i as usize, j as usize, k as usize),
            ) {
                1u8
            } else {
                grid_cells(*old(grid))[(i, j, k)]
            },
{
    let ghost shape = grid_shape(*grid);
    let mut n: usize = 0;
    while n < found.len()
        invariant
            n <= found@.len(),
            grid.wf(),
            grid_shape(*grid) == shape,
            shape == grid_shape(*old(grid)),
            forall|q: int|
                0 <= q < found@.len() ==> {
                    let v = #[trigger] found@[q];
                    in_shape(shape, v.0 as int, v.1 as int, v.2 as int)
                },
            forall|i: int, j: int, k: int|
                in_shape(shape, i, j, k) ==> #[trigger] grid_cells(*grid)[(i, j, k)] == if found@.take(
                    n as int,
                ).contains((i as usize, j as usize, k as usize)) {
                    1u8
                } else {
                    grid_cells(*old(grid))[(i, j, k)]
                },
        decreases found@.len() - n,
    {
        let (i, j, k) = found[n];
        assert(found@[n as int] == (i, j, k));
        let ghost before = *grid;
        grid.set(i, j, k, 1);
        proof {
            let t0 = found@.take(n as int);
            let t1 = found@.take(n + 1);
            assert(t1 =~= t0.push(found@[n as int]));
            assert forall|a: int, b: int, c: int| #[trigger] grid.cells().contains_key((a, b, c)) <==> in_shape(
                shape,
                a,
                b,
                c,
            ) by {
                assert(before.cells().contains_key((i as int, j as int, k as int)));
            }
            assert forall|a: int, b: int, c: int|
                in_shape(shape, a, b, c) implies #[trigger] grid_cells(*grid)[(a, b, c)] == if t1.contains(
                    (a as usize, b as usize, c as usize),
                ) {
                    1u8
                } else {
                    grid_cells(*old(grid))[(a, b, c)]
                } by {
                if (a, b, c) == (i as int, j as int, k as int) {
                    assert(t1[n as int] == (i, j, k));
                } else {
                    assert(grid_cells(*grid)[(a, b, c)] == grid_cells(before)[(a, b, c)]);
                    if t1.contains((a as usize, b as usize, c as usize)) {
                        let q = choose|q: int| 0 <= q < t1.len() && t1[q] == (a as usize, b as usize, c as usize);
                        assert(q != n);
                        assert(t0[q] == t1[q]);
                    }
                    if t0.contains((a as usize, b as usize, c as usize)) {
                        let q = choose|q: int| 0 <= q < t0.len() && t0[q] == (a as usize, b as usize, c as usize);
                        assert(t1[q] == t0[q]);
                    }
                }
            }
        }
        n = n + 1;
    }
    assert(found@.take(found@.len() as int) =~= found@);
}

proof fn lemma_min_unique(pts: Seq<Point>, axis: int, v: int)
    requires
        is_min_coord(pts, axis, v),
    ensures
        min_coord(pts, axis) == v,
{
    let w = min_coord(pts, axis);
    let qv = choose|q: int| 0 <= q < pts.len() && v == #[trigger] pts[q].coord(axis);
    let qw = choose|q: int| 0 <= q < pts.len() && w == #[trigger] pts[q].coord(axis);
    assert(w <= pts[qv].coord(axis));
    assert(v <= pts[qw].coord(axis));
}

proof fn lemma_max_unique(pts: Seq<Point>, axis: int, v: int)
    requires
        is_max_coord(pts, axis, v),
    ensures
        max_coord(pts, axis) == v,
{
    let w = max_coord(pts, axis);
    let qv = choose|q: int| 0 <= q < pts.len() && v == #[trigger] pts[q].coord(axis);
    let qw = choose|q: int| 0 <= q < pts.len() && w == #[trigger] pts[q].coord(axis);
    assert(pts[qv].coord(axis) <= w);
    assert(pts[qw].coord(axis) <= v);
}

/// What to do with a tetrahedron whose corners are coplanar.
#[derive(Clone, Copy, Debug, PartialEq, Eq, Structural)]
pub enum DegeneratePolicy {
    /// Fail the whole call with `VoxelizeError::DegenerateTetrahedron`.
    Abort,
    /// Leave the tetrahedron out (it holds no volume) and report its index.
    Skip,
}

/// A voxel grid with the indices of the tetrahedra that were skipped.
#[derive(Debug)]
pub struct Voxelization {
    pub model: VoxelModel,
    pub skipped: Vec<usize>,
}

/// `s` lists, in increasing order, exactly the tetrahedra with coplanar
/// corners.
pub open spec fn lists_degenerate(pts: Seq<Point>, tets: Seq<[usize; 4]>, s: Seq<usize>) -> bool {
    &&& forall|a: int, b: int| 0 <= a < b < s.len() ==> s[a] < s[b]
    &&& forall|a: int| 0 <= a < s.len() ==> #[trigger] s[a] < tets.len()
    &&& forall|q: int| 0 <= q < tets.len() ==> (s.contains(q as usize) <==> (#[trigger] tet_of(pts, tets[q])).is_degenerate())
}

/// `r` is what voxelizing the mesh `(pts, tets)` under `policy` gives: as
/// `is_outcome` describes, except that under `Skip` no tetrahedron is an
/// error for its shape, and the result lists the ones that were left out.
pub open spec fn is_outcome_with(
    pts: Seq<Point>,
    tets: Seq<[usize; 4]>,
    policy: DegeneratePolicy,
    r: Result<Voxelization, VoxelizeError>,
) -> bool {
    let n = pts.len() as int;
    let strict = policy == DegeneratePolicy::Abort;
    match r {
        Err(VoxelizeError::CoordinateOutOfRange { point }) => first_bad_point(pts, point as int),
        Err(VoxelizeError::IndexOutOfRange { tet }) => points_ok(pts) && first_bad_tet(n, tets, tet as int),
        Err(VoxelizeError::DegenerateTetrahedron { tet }) => {
            &&& strict
            &&& points_ok(pts)
            &&& tets_ok(n, tets)
            &&& first_degenerate(pts, tets, tet as int)
        },
        Err(VoxelizeError::GridTooLarge) => {
            &&& points_ok(pts)
            &&& tets_ok(n, tets)
            &&& strict ==> none_degenerate(pts, tets)
            &&& n > 0
            &&& mesh_extent(pts) > MAX_VOXELS
        },
        Ok(v) => {
            &&& points_ok(pts)
            &&& tets_ok(n, tets)
            &&& strict ==> none_degenerate(pts, tets)
            &&& n > 0 ==> mesh_extent(pts) <= MAX_VOXELS
            &&& v.model.voxelizes(pts, tets)
            &&& lists_degenerate(pts, tets, v.skipped@)
        },
    }
}

/// `r` is what voxelizing the mesh `(pts, tets)` gives. The checks come in
/// a fixed order, and the first that fails decides the error: every point
/// within `COORD_LIMIT`, then every tetrahedron index naming a point, then
/// no tetrahedron with coplanar corners, then a grid of at most
/// `MAX_VOXELS` voxels. When all pass the result is the voxelization.
pub open spec fn is_outcome(pts: Seq<Point>, tets: Seq<[usize; 4]>, r: Result<VoxelModel, VoxelizeError>) -> bool {
    let n = pts.len() as int;
    match r {
        Err(VoxelizeError::CoordinateOutOfRange { point }) => first_bad_point(pts, point as int),
        Err(VoxelizeError::IndexOutOfRange { tet }) => points_ok(pts) && first_bad_tet(n, tets, tet as int),
        Err(VoxelizeError::DegenerateTetrahedron { tet }) => {
            &&& points_ok(pts)
            &&& tets_ok(n, tets)
            &&& first_degenerate(pts, tets, tet as int)
        },
        Err(VoxelizeError::GridTooLarge) => {
            &&& points_ok(pts)
            &&& tets_ok(n, tets)
            &&& none_degenerate(pts, tets)
            &&& n > 0
            &&& mesh_extent(pts) > MAX_VOXELS
        },
        Ok(model) => {
            &&& points_ok(pts)
            &&& tets_ok(n, tets)
            &&& none_degenerate(pts, tets)
            &&& n > 0 ==> mesh_extent(pts) <= MAX_VOXELS
            &&& model.voxelizes(pts, tets)
        },
    }
}

/// The voxelization of a mesh under a policy for degenerate tetrahedra,
/// or why there is none. The checks come in a fixed order, and the first
/// that fails decides the error: every point within `COORD_LIMIT`, then
/// every tetrahedron index naming a point, then (under `Abort`) no
/// tetrahedron with coplanar corners, then a grid of at most `MAX_VOXELS`
/// voxels.
pub fn voxelize_with_policy(mesh: &Mesh, policy: DegeneratePolicy) -> (r: Result<Voxelization, VoxelizeError>)
    ensures
        is_outcome_with(mesh.points@, mesh.tets@, policy, r),
{
    let n_points = mesh.points.len();
    let mut p: usize = 0;
    while p < n_points
        invariant
            n_points == mesh.points@.len(),
            p <= n_points,
            points_ok(mesh.points@.take(p as int)),
        decreases n_points - p,
    {
        if !mesh.points[p].in_limits() {
            assert(first_bad_point(mesh.points@, p as int));
            return Err(VoxelizeError::CoordinateOutOfRange { point: p });
        }
        assert forall|q: int| 0 <= q < p + 1 implies #[trigger] mesh.points@.take(p + 1)[q].within(COORD_LIMIT as int) by {
            if q < p {
                assert(mesh.points@.take(p as int)[q] == mesh.points@.take(p + 1)[q]);
            }
        }
        p = p + 1;
    }
    assert(mesh.points@.take(n_points as int) =~= mesh.points@);
    let mut q: usize = 0;
    while q < mesh.tets.len()
        invariant
            n_points == mesh.points@.len(),
            points_ok(mesh.points@),
            q <= mesh.tets@.len(),
            tets_ok(n_points as int, mesh.tets@.take(q as int)),
        decreases mesh.tets@.len() - q,
    {
        let t = mesh.tets[q];
        if !(t[0] < n_points && t[1] < n_points && t[2] < n_points && t[3] < n_points) {
            assert(t == mesh.tets@[q as int]);
            assert(first_bad_tet(n_points as int, mesh.tets@, q as int));
            return Err(VoxelizeError::IndexOutOfRange { tet: q });
        }
        assert forall|r: int| 0 <= r < q + 1 implies indices_valid(n_points as int, #[trigger] mesh.tets@.take(q + 1)[r]) by {
            if r < q {
                assert(mesh.tets@.take(q as int)[r] == mesh.tets@.take(q + 1)[r]);
            }
        }
        q = q + 1;
    }
    assert(mesh.tets@.take(mesh.tets@.len() as int) =~= mesh.tets@);
    let mut frames: Vec<Option<TetFrame>> = Vec::new();
    let mut skipped: Vec<usize> = Vec::new();
    let mut q: usize = 0;
    while q < mesh.tets.len()
        invariant
            n_points == mesh.points@.len(),
            points_ok(mesh.points@),
            tets_ok(n_points as int, mesh.tets@),
            q <= mesh.tets@.len(),
            frames@.len() == q,
            forall|r: int|
                0 <= r < q ==> match #[trigger] frames@[r] {
                    Some(f) => f.wf() && f.tet == tet_of(mesh.points@, mesh.tets@[r]),
                    None => tet_of(mesh.points@, mesh.tets@[r]).is_degenerate(),
                },
            policy == DegeneratePolicy::Abort ==> none_degenerate(mesh.points@, mesh.tets@.take(q as int)),
            lists_degenerate(mesh.points@, mesh.tets@.take(q as int), skipped@),
        decreases mesh.tets@.len() - q,
    {
        let t = mesh.tets[q];
        assert(indices_valid(n_points as int, mesh.tets@[q as int]));
        let tet = Tet { a: mesh.points[t[0]], b: mesh.points[t[1]], c: mesh.points[t[2]], d: mesh.points[t[3]] };
        assert(tet == tet_of(mesh.points@, mesh.tets@[q as int]));
        assert(mesh.points@[t[0] as int].within(COORD_LIMIT as int));
        assert(mesh.points@[t[1] as int].within(COORD_LIMIT as int));
        assert(mesh.points@[t[2] as int].within(COORD_LIMIT as int));
        assert(mesh.points@[t[3] as int].within(COORD_LIMIT as int));
        let ghost t0 = mesh.tets@.take(q as int);
        let ghost t1 = mesh.tets@.take(q + 1);
        let ghost old_skipped = skipped@;
        assert forall|r: int| 0 <= r < q implies t0[r] == #[trigger] t1[r] by {}
        assert(t1[q as int] == mesh.tets@[q as int]);
        let frame = TetFrame::new(tet);
        match frame {
            None => {
                if policy == DegeneratePolicy::Abort {
                    assert(first_degenerate(mesh.points@, mesh.tets@, q as int));
                    return Err(VoxelizeError::DegenerateTetrahedron { tet: q });
                }
                skipped.push(q);
                assert forall|r: int| 0 <= r < q + 1 implies (skipped@.contains(r as usize) <==> (#[trigger] tet_of(
                    mesh.points@,
                    t1[r],
                )).is_degenerate()) by {
                    if r < q {
                        assert(old_skipped.contains(r as usize) ==> skipped@.contains(r as usize)) by {
                            if old_skipped.contains(r as usize) {
                                let w = choose|w: int| 0 <= w < old_skipped.len() && old_skipped[w] == r as usize;
                                assert(skipped@[w] == r as usize);
                            }
                        }
                        assert(skipped@.contains(r as usize) ==> old_skipped.contains(r as usize)) by {
                            if skipped@.contains(r as usize) {
                                let w = choose|w: int| 0 <= w < skipped@.len() && skipped@[w] == r as usize;
                                assert(w != old_skipped.len());
                                assert(old_skipped[w] == r as usize);
                            }
                        }
                    } else {
                        assert(skipped@[old_skipped.len() as int] == q);
                    }
                }
                assert forall|a: int, b: int| 0 <= a < b < skipped@.len() implies skipped@[a] < skipped@[b] by {
                    if b == old_skipped.len() {
                        assert(old_skipped[a] < t0.len());
                    }
                }
            },
            Some(f) => {
                assert forall|r: int| 0 <= r < q + 1 implies (skipped@.contains(r as usize) <==> (#[trigger] tet_of(
                    mesh.points@,
                    t1[r],
                )).is_degenerate()) by {
                    if r == q {
                        if skipped@.contains(r as usize) {
                            let w = choose|w: int| 0 <= w < skipped@.len() && skipped@[w] == r as usize;
                            assert(skipped@[w] < t0.len());
                        }
                    }
                }
            },
        }
        frames.push(frame);
        if policy == DegeneratePolicy::Abort {
            assert forall|r: int| 0 <= r < q + 1 implies !(#[trigger] tet_of(mesh.points@, t1[r])).is_degenerate() by {
                if r < q {
                    assert(t0[r] == t1[r]);
                }
            }
        }
        assert forall|r: int| 0 <= r < q + 1 implies match #[trigger] frames@[r] {
            Some(f) => f.wf() && f.tet == tet_of(mesh.points@, mesh.tets@[r]),
            None => tet_of(mesh.points@, mesh.tets@[r]).is_degenerate(),
        } by {}
        q = q + 1;
    }
    assert(mesh.tets@.take(mesh.tets@.len() as int) =~= mesh.tets@);
    if n_points == 0 {
        let shape = LatticeShape { x_min: 0, y_min: 0, z_min: 0, x_len: 0, y_len: 0, z_len: 0 };
        let voxels = OccupancyGrid::zeros(0, 0, 0);
        return Ok(Voxelization { model: VoxelModel { voxels, shape }, skipped });
    }
    let bbox = bounding_box(&mesh.points);
    proof {
        assert(bbox.bounds(mesh.points@));
        assert(is_min_coord(mesh.points@, 0, bbox.lo.coord(0)));
        assert(is_min_coord(mesh.points@, 1, bbox.lo.coord(1)));
        assert(is_min_coord(mesh.points@, 2, bbox.lo.coord(2)));
        assert(is_max_coord(mesh.points@, 0, bbox.hi.coord(0)));
        assert(is_max_coord(mesh.points@, 1, bbox.hi.coord(1)));
        assert(is_max_coord(mesh.points@, 2, bbox.hi.coord(2)));
        lemma_min_unique(mesh.points@, 0, bbox.lo.x as int);
        lemma_min_unique(mesh.points@, 1, bbox.lo.y as int);
        lemma_min_unique(mesh.points@, 2, bbox.lo.z as int);
        lemma_max_unique(mesh.points@, 0, bbox.hi.x as int);
        lemma_max_unique(mesh.points@, 1, bbox.hi.y as int);
        lemma_max_unique(mesh.points@, 2, bbox.hi.z as int);
        let w = choose|w: int| 0 <= w < mesh.points@.len() && bbox.lo.x as int == #[trigger] mesh.points@[w].coord(0);
        assert(mesh.points@[w].within(COORD_LIMIT as int));
        let w = choose|w: int| 0 <= w < mesh.points@.len() && bbox.lo.y as int == #[trigger] mesh.points@[w].coord(1);
        assert(mesh.points@[w].within(COORD_LIMIT as int));
        let w = choose|w: int| 0 <= w < mesh.points@.len() && bbox.lo.z as int == #[trigger] mesh.points@[w].coord(2);
        assert(mesh.points@[w].within(COORD_LIMIT as int));
        let w = choose|w: int| 0 <= w < mesh.points@.len() && bbox.hi.x as int == #[trigger] mesh.points@[w].coord(0);
        assert(mesh.points@[w].within(COORD_LIMIT as int));
        let w = choose|w: int| 0 <= w < mesh.points@.len() && bbox.hi.y as int == #[trigger] mesh.points@[w].coord(1);
        assert(mesh.points@[w].within(COORD_LIMIT as int));
        let w = choose|w: int| 0 <= w < mesh.points@.len() && bbox.hi.z as int == #[trigger] mesh.points@[w].coord(2);
        assert(mesh.points@[w].within(COORD_LIMIT as int));
        assert(mesh.points@[0].coord(0) <= bbox.hi.x);
        assert(bbox.lo.x <= mesh.points@[0].coord(0));
        assert(mesh.points@[0].coord(1) <= bbox.hi.y);
        assert(bbox.lo.y <= mesh.points@[0].coord(1));
        assert(mesh.points@[0].coord(2) <= bbox.hi.z);
        assert(bbox.lo.z <= mesh.points@[0].coord(2));
        lemma_round_bounds(bbox.lo.x as int);
        lemma_round_bounds(bbox.lo.y as int);
        lemma_round_bounds(bbox.lo.z as int);
        lemma_round_bounds(bbox.hi.x as int);
        lemma_round_bounds(bbox.hi.y as int);
        lemma_round_bounds(bbox.hi.z as int);
        lemma_round_monotonic(bbox.lo.x as int, bbox.hi.x as int);
        lemma_round_monotonic(bbox.lo.y as int, bbox.hi.y as int);
        lemma_round_monotonic(bbox.lo.z as int, bbox.hi.z as int);
    }
    let lx = round_coord(bbox.hi.x) - round_coord(bbox.lo.x);
    let ly = round_coord(bbox.hi.y) - round_coord(bbox.lo.y);
    let lz = round_coord(bbox.hi.z) - round_coord(bbox.lo.z);
    let ax: u64 = if lx == 0 { 1 } else { lx as u64 };
    let ay: u64 = if ly == 0 { 1 } else { ly as u64 };
    let az: u64 = if lz == 0 { 1 } else { lz as u64 };
    assert(ax * ay <= 131074 * 131074) by (nonlinear_arith)
        requires 1 <= ax <= 131074, 1 <= ay <= 131074;
    let axy = ax * ay;
    if axy > MAX_VOXELS {
        assert(axy * az >= axy) by (nonlinear_arith)
            requires az >= 1, axy >= 0;
        return Err(VoxelizeError::GridTooLarge);
    }
    assert(axy * az <= 2147483647 * 131074) by (nonlinear_arith)
        requires 1 <= az <= 131074, axy <= 2147483647;
    if axy * az > MAX_VOXELS {
        return Err(VoxelizeError::GridTooLarge);
    }
    let lattice = build_lattice(&bbox);
    let shape = lattice.shape;
    let mut grid = OccupancyGrid::zeros(shape.x_len, shape.y_len, shape.z_len);
    let mut q: usize = 0;
    while q < frames.len()
        invariant
            lattice.wf(),
            shape == lattice.shape,
            q <= frames@.len(),
            frames@.len() == mesh.tets@.len(),
            forall|r: int|
                0 <= r < frames@.len() ==> match #[trigger] frames@[r] {
                    Some(f) => f.wf() && f.tet == tet_of(mesh.points@, mesh.tets@[r]),
                    None => tet_of(mesh.points@, mesh.tets@[r]).is_degenerate(),
                },
            grid.wf(),
            grid_shape(grid) == (shape.x_len, shape.y_len, shape.z_len),
            forall|i: int, j: int, k: int|
                shape.in_range(i, j, k) ==> #[trigger] grid_cells(grid)[(i, j, k)] == if covered(
                    mesh.points@,
                    mesh.tets@.take(q as int),
                    shape.center_of(i, j, k),
                ) {
                    1u8
                } else {
                    0u8
                },
        decreases frames@.len() - q,
    {
        let ghost t0 = mesh.tets@.take(q as int);
        let ghost t1 = mesh.tets@.take(q + 1);
        let ghost before = grid;
        assert(t1[q as int] == mesh.tets@[q as int]);
        assert forall|w: int| 0 <= w < q implies t0[w] == #[trigger] t1[w] by {}
        match &frames[q] {
            Some(f) => {
                let found = tet_voxels(f, &lattice);
                mark_voxels(&mut grid, &found);
                proof {
                    assert forall|i: int, j: int, k: int|
                        shape.in_range(i, j, k) implies #[trigger] grid_cells(grid)[(i, j, k)] == if covered(
                            mesh.points@,
                            t1,
                            shape.center_of(i, j, k),
                        ) {
                            1u8
                        } else {
                            0u8
                        } by {
                        let c = shape.center_of(i, j, k);
                        if found@.contains((i as usize, j as usize, k as usize)) {
                            let w = choose|w: int| 0 <= w < found@.len() && found@[w] == (i as usize, j as usize, k as usize);
                            assert(f.tet.contains(c));
                            assert(tet_of(mesh.points@, t1[q as int]).contains(c));
                        } else {
                            assert(!f.tet.contains(c));
                            if covered(mesh.points@, t1, c) {
                                let w = choose|w: int| 0 <= w < t1.len() && #[trigger] tet_of(mesh.points@, t1[w]).contains(c);
                                assert(w != q);
                            }
                            if covered(mesh.points@, t0, c) {
                                let w = choose|w: int| 0 <= w < t0.len() && #[trigger] tet_of(mesh.points@, t0[w]).contains(c);
                                assert(t1[w] == t0[w]);
                            }
                        }
                    }
                }
            },
            None => {
                proof {
                    assert forall|i: int, j: int, k: int|
                        shape.in_range(i, j, k) implies #[trigger] grid_cells(grid)[(i, j, k)] == if covered(
                            mesh.points@,
                            t1,
                            shape.center_of(i, j, k),
                        ) {
                            1u8
                        } else {
                            0u8
                        } by {
                        let c = shape.center_of(i, j, k);
                        assert(tet_of(mesh.points@, t1[q as int]).is_degenerate());
                        if covered(mesh.points@, t1, c) {
                            let w = choose|w: int| 0 <= w < t1.len() && #[trigger] tet_of(mesh.points@, t1[w]).contains(c);
                            assert(w != q);
                        }
                        if covered(mesh.points@, t0, c) {
                            let w = choose|w: int| 0 <= w < t0.len() && #[trigger] tet_of(mesh.points@, t0[w]).contains(c);
                            assert(t1[w] == t0[w]);
                        }
                    }
                }
            },
        }
        q = q + 1;
    }
    Ok(Voxelization { model: VoxelModel { voxels: grid, shape }, skipped })
}

/// The voxelization of a mesh, or why there is none: a tetrahedron with
/// coplanar corners fails the whole call (see `is_outcome`).
pub fn voxelize(mesh: &Mesh) -> (r: Result<VoxelModel, VoxelizeError>)
    ensures
        is_outcome(mesh.points@, mesh.tets@, r),
{
    match voxelize_with_policy(mesh, DegeneratePolicy::Abort) {
        Ok(v) => Ok(v.model),
        Err(e) => Err(e),
    }
}

} // verus!
