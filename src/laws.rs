use vstd::prelude::*;
use crate::containment::Tet;
use crate::geometry::Point;
use crate::voxelize::{
    VoxelModel, VoxelizeError, is_outcome, covered, tet_of, points_ok, tets_ok, none_degenerate,
    first_bad_point, first_bad_tet, first_degenerate,
};

verus! {

/// Two models have the same lattice and the same flag on every voxel.
pub open spec fn same_grid(m1: VoxelModel, m2: VoxelModel) -> bool {
    &&& m1.shape == m2.shape
    &&& forall|i: int, j: int, k: int| m1.shape.in_range(i, j, k) ==> #[trigger] m1.cell(i, j, k) == m2.cell(i, j, k)
}

/// Two voxelization results agree: both succeed or both fail, with the
/// same error, or with the same grid.
pub open spec fn same_outcome(r1: Result<VoxelModel, VoxelizeError>, r2: Result<VoxelModel, VoxelizeError>) -> bool {
    match (r1, r2) {
        (Ok(m1), Ok(m2)) => same_grid(m1, m2),
        (Err(e1), Err(e2)) => e1 == e2,
        _ => false,
    }
}

/// A point whose four barycentric coordinates all lie strictly between 0
/// and 1 passes the containment test.
pub proof fn lemma_interior_point_contained(t: Tet, p: Point)
    requires
        forall|i: int| 0 <= i < 4 ==> #[trigger] t.coord_strictly_in_unit(p, i),
    ensures
        t.contains(p),
{
    assert(t.coord_strictly_in_unit(p, 0));
    assert forall|i: int| 0 <= i < 4 implies #[trigger] t.coord_in_range(p, i) by {
        assert(t.coord_strictly_in_unit(p, i));
    }
}

/// A voxel whose center fails the containment test of every tetrahedron of
/// the mesh (lies outside each one by more than the tolerance) is empty.
pub proof fn lemma_outside_voxel_empty(
    pts: Seq<Point>,
    tets: Seq<[usize; 4]>,
    model: VoxelModel,
    i: int,
    j: int,
    k: int,
)
    requires
        model.voxelizes(pts, tets),
        model.shape.in_range(i, j, k),
        forall|q: int| 0 <= q < tets.len() ==> !(#[trigger] tet_of(pts, tets[q])).contains(model.shape.center_of(i, j, k)),
    ensures
        model.cell(i, j, k) == 0,
{
    assert(!covered(pts, tets, model.shape.center_of(i, j, k)));
}

/// A voxel whose center lies on a face of a tetrahedron of the mesh (the
/// barycentric coordinate of the opposite corner exactly 0, the others in
/// `[0, 1]` up to the tolerance) is occupied, whichever neighbour shares
/// that face.
pub proof fn lemma_face_voxel_occupied(
    pts: Seq<Point>,
    tets: Seq<[usize; 4]>,
    model: VoxelModel,
    i: int,
    j: int,
    k: int,
    q: int,
    corner: int,
)
    requires
        model.voxelizes(pts, tets),
        model.shape.in_range(i, j, k),
        0 <= q < tets.len(),
        !tet_of(pts, tets[q]).is_degenerate(),
        0 <= corner < 4,
        tet_of(pts, tets[q]).bary_num(model.shape.center_of(i, j, k), corner) == 0,
        forall|m: int|
            0 <= m < 4 && m != corner ==> #[trigger] tet_of(pts, tets[q]).coord_in_range(
                model.shape.center_of(i, j, k),
                m,
            ),
    ensures
        model.cell(i, j, k) == 1,
{
    let t = tet_of(pts, tets[q]);
    let c = model.shape.center_of(i, j, k);
    assert forall|m: int| 0 <= m < 4 implies #[trigger] t.coord_in_range(c, m) by {
        if m == corner {
            assert(t.bary_num(c, m) == 0);
        }
    }
    assert(t.contains(c));
    assert(covered(pts, tets, c));
}

proof fn lemma_first_bad_point_unique(pts: Seq<Point>, a: int, b: int)
    requires
        first_bad_point(pts, a),
        first_bad_point(pts, b),
    ensures
        a == b,
{
    if a < b {
        assert(pts.take(b)[a] == pts[a]);
    } else if b < a {
        assert(pts.take(a)[b] == pts[b]);
    }
}

proof fn lemma_first_bad_tet_unique(n: int, tets: Seq<[usize; 4]>, a: int, b: int)
    requires
        first_bad_tet(n, tets, a),
        first_bad_tet(n, tets, b),
    ensures
        a == b,
{
    if a < b {
        assert(tets.take(b)[a] == tets[a]);
    } else if b < a {
        assert(tets.take(a)[b] == tets[b]);
    }
}

proof fn lemma_first_degenerate_unique(pts: Seq<Point>, tets: Seq<[usize; 4]>, a: int, b: int)
    requires
        first_degenerate(pts, tets, a),
        first_degenerate(pts, tets, b),
    ensures
        a == b,
{
    if a < b {
        assert(tets.take(b)[a] == tets[a]);
    } else if b < a {
        assert(tets.take(a)[b] == tets[b]);
    }
}

proof fn lemma_outcome_kinds_exclusive(pts: Seq<Point>, tets: Seq<[usize; 4]>, r: Result<VoxelModel, VoxelizeError>)
    requires
        is_outcome(pts, tets, r),
    ensures
        r matches Err(VoxelizeError::CoordinateOutOfRange { .. }) ==> !points_ok(pts),
        r matches Err(VoxelizeError::IndexOutOfRange { .. }) ==> !tets_ok(pts.len() as int, tets),
        r matches Err(VoxelizeError::DegenerateTetrahedron { .. }) ==> !none_degenerate(pts, tets),
{
    match r {
        Err(VoxelizeError::CoordinateOutOfRange { point }) => {
            assert(!pts[point as int].within(crate::geometry::COORD_LIMIT as int));
        },
        Err(VoxelizeError::IndexOutOfRange { tet }) => {
            assert(!crate::voxelize::indices_valid(pts.len() as int, tets[tet as int]));
        },
        Err(VoxelizeError::DegenerateTetrahedron { tet }) => {
            assert(tet_of(pts, tets[tet as int]).is_degenerate());
        },
        _ => {},
    }
}

/// Voxelizing the same mesh twice gives the same result: the same error,
/// or the same lattice with the same flag on every voxel.
pub proof fn lemma_voxelize_deterministic(
    pts: Seq<Point>,
    tets: Seq<[usize; 4]>,
    r1: Result<VoxelModel, VoxelizeError>,
    r2: Result<VoxelModel, VoxelizeError>,
)
    requires
        is_outcome(pts, tets, r1),
        is_outcome(pts, tets, r2),
    ensures
        same_outcome(r1, r2),
{
    let n = pts.len() as int;
    match (r1, r2) {
        (Err(VoxelizeError::CoordinateOutOfRange { point: a }), Err(VoxelizeError::CoordinateOutOfRange { point: b })) => {
            lemma_first_bad_point_unique(pts, a as int, b as int);
        },
        (Err(VoxelizeError::IndexOutOfRange { tet: a }), Err(VoxelizeError::IndexOutOfRange { tet: b })) => {
            lemma_first_bad_tet_unique(n, tets, a as int, b as int);
        },
        (Err(VoxelizeError::DegenerateTetrahedron { tet: a }), Err(VoxelizeError::DegenerateTetrahedron { tet: b })) => {
            lemma_first_degenerate_unique(pts, tets, a as int, b as int);
        },
        (Ok(m1), Ok(m2)) => {
            assert forall|i: int, j: int, k: int| m1.shape.in_range(i, j, k) implies #[trigger] m1.cell(i, j, k)
                == m2.cell(i, j, k) by {
                assert(m1.cell(i, j, k) == m2.cell(i, j, k));
            }
        },
        _ => {
            lemma_outcome_kinds_exclusive(pts, tets, r1);
            lemma_outcome_kinds_exclusive(pts, tets, r2);
        },
    }
}

/// Listing the same tetrahedra in another order changes nothing: both
/// meshes are voxelized or neither is, and when both are, the grids agree
/// voxel by voxel.
pub proof fn lemma_tet_order_irrelevant(
    pts: Seq<Point>,
    tets1: Seq<[usize; 4]>,
    tets2: Seq<[usize; 4]>,
    r1: Result<VoxelModel, VoxelizeError>,
    r2: Result<VoxelModel, VoxelizeError>,
)
    requires
        tets1.to_multiset() == tets2.to_multiset(),
        is_outcome(pts, tets1, r1),
        is_outcome(pts, tets2, r2),
    ensures
        r1 is Ok <==> r2 is Ok,
        r1 matches Ok(m1) ==> (r2 matches Ok(m2) && same_grid(m1, m2)),
{
    let n = pts.len() as int;
    assert forall|x: [usize; 4]| tets1.contains(x) <==> tets2.contains(x) by {
        vstd::seq_lib::to_multiset_contains(tets1, x);
        vstd::seq_lib::to_multiset_contains(tets2, x);
    }
    assert forall|p: Point| covered(pts, tets1, p) <==> covered(pts, tets2, p) by {
        if covered(pts, tets1, p) {
            let q = choose|q: int| 0 <= q < tets1.len() && #[trigger] tet_of(pts, tets1[q]).contains(p);
            assert(tets1.contains(tets1[q]));
            let w = choose|w: int| 0 <= w < tets2.len() && tets2[w] == tets1[q];
            assert(tet_of(pts, tets2[w]).contains(p));
        }
        if covered(pts, tets2, p) {
            let q = choose|q: int| 0 <= q < tets2.len() && #[trigger] tet_of(pts, tets2[q]).contains(p);
            assert(tets2.contains(tets2[q]));
            let w = choose|w: int| 0 <= w < tets1.len() && tets1[w] == tets2[q];
            assert(tet_of(pts, tets1[w]).contains(p));
        }
    }
    assert(tets_ok(n, tets1) <==> tets_ok(n, tets2)) by {
        if tets_ok(n, tets1) {
            assert forall|q: int| 0 <= q < tets2.len() implies crate::voxelize::indices_valid(n, #[trigger] tets2[q]) by {
                assert(tets2.contains(tets2[q]));
                let w = choose|w: int| 0 <= w < tets1.len() && tets1[w] == tets2[q];
                assert(crate::voxelize::indices_valid(n, tets1[w]));
            }
        }
        if tets_ok(n, tets2) {
            assert forall|q: int| 0 <= q < tets1.len() implies crate::voxelize::indices_valid(n, #[trigger] tets1[q]) by {
                assert(tets1.contains(tets1[q]));
                let w = choose|w: int| 0 <= w < tets2.len() && tets2[w] == tets1[q];
                assert(crate::voxelize::indices_valid(n, tets2[w]));
            }
        }
    }
    assert(none_degenerate(pts, tets1) <==> none_degenerate(pts, tets2)) by {
        if none_degenerate(pts, tets1) {
            assert forall|q: int| 0 <= q < tets2.len() implies !(#[trigger] tet_of(pts, tets2[q])).is_degenerate() by {
                assert(tets2.contains(tets2[q]));
                let w = choose|w: int| 0 <= w < tets1.len() && tets1[w] == tets2[q];
                assert(!tet_of(pts, tets1[w]).is_degenerate());
            }
        }
        if none_degenerate(pts, tets2) {
            assert forall|q: int| 0 <= q < tets1.len() implies !(#[trigger] tet_of(pts, tets1[q])).is_degenerate() by {
                assert(tets1.contains(tets1[q]));
                let w = choose|w: int| 0 <= w < tets2.len() && tets2[w] == tets1[q];
                assert(!tet_of(pts, tets2[w]).is_degenerate());
            }
        }
    }
    lemma_outcome_kinds_exclusive(pts, tets1, r1);
    lemma_outcome_kinds_exclusive(pts, tets2, r2);
    if let (Ok(m1), Ok(m2)) = (r1, r2) {
        assert forall|i: int, j: int, k: int| m1.shape.in_range(i, j, k) implies #[trigger] m1.cell(i, j, k)
            == m2.cell(i, j, k) by {
            assert(m1.cell(i, j, k) == m2.cell(i, j, k));
        }
    }
}

/// A mesh with a tetrahedron whose corners are coplanar gives an error,
/// never a grid; once its points and indices pass, that error names a
/// degenerate tetrahedron, this one or an earlier one.
pub proof fn lemma_degenerate_mesh_rejected(
    pts: Seq<Point>,
    tets: Seq<[usize; 4]>,
    r: Result<VoxelModel, VoxelizeError>,
    q: int,
)
    requires
        is_outcome(pts, tets, r),
        0 <= q < tets.len(),
        tet_of(pts, tets[q]).is_degenerate(),
    ensures
        r is Err,
        points_ok(pts) && tets_ok(pts.len() as int, tets) ==> (r matches Err(
            VoxelizeError::DegenerateTetrahedron { tet },
        ) && tet <= q),
{
    lemma_outcome_kinds_exclusive(pts, tets, r);
    if let Err(VoxelizeError::DegenerateTetrahedron { tet }) = r {
        if tet > q {
            assert(tets.take(tet as int)[q] == tets[q]);
        }
    }
}

} // verus!
