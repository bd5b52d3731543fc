use stl2vf::containment::{all_in_range, Tet, TetFrame, TOLERANCE_DENOM};
use stl2vf::geometry::{bounding_box, round_coord, Point, COORD_LIMIT, UNITS_PER_VOXEL};
use stl2vf::grid::OccupancyGrid;
use stl2vf::lattice::build_lattice;
use stl2vf::voxelize::{
    mark_voxels, tet_voxels, voxelize, voxelize_with_policy, DegeneratePolicy, Mesh, VoxelModel, VoxelizeError,
};

const U: i64 = UNITS_PER_VOXEL;

fn pt(x: i64, y: i64, z: i64) -> Point {
    Point::new(x * U, y * U, z * U)
}

/// The cube `[0, side]^3` split into six tetrahedra along its main diagonal.
fn cube_points(side: i64) -> Vec<Point> {
    let mut pts = Vec::new();
    for bits in 0..8 {
        let x = if bits & 1 != 0 { side } else { 0 };
        let y = if bits & 2 != 0 { side } else { 0 };
        let z = if bits & 4 != 0 { side } else { 0 };
        pts.push(pt(x, y, z));
    }
    pts
}

fn cube_tets() -> Vec<[usize; 4]> {
    // corner index = x + 2y + 4z; each path 000 -> 111 adds one axis at a time
    vec![
        [0, 1, 3, 7],
        [0, 1, 5, 7],
        [0, 2, 3, 7],
        [0, 2, 6, 7],
        [0, 4, 5, 7],
        [0, 4, 6, 7],
    ]
}

fn occupied(model: &VoxelModel) -> Vec<(usize, usize, usize)> {
    let mut out = Vec::new();
    for i in 0..model.x_len() {
        for j in 0..model.y_len() {
            for k in 0..model.z_len() {
                if model.get(i, j, k) == 1 {
                    out.push((i, j, k));
                }
            }
        }
    }
    out
}

fn all_cells(model: &VoxelModel) -> Vec<u8> {
    let mut out = Vec::new();
    for i in 0..model.x_len() {
        for j in 0..model.y_len() {
            for k in 0..model.z_len() {
                out.push(model.get(i, j, k));
            }
        }
    }
    out
}

#[test]
fn corner_tetrahedron_marks_only_the_corner_voxel() {
    let mesh = Mesh::new(vec![pt(0, 0, 0), pt(2, 0, 0), pt(0, 2, 0), pt(0, 0, 2)], vec![[0, 1, 2, 3]]);
    let model = voxelize(&mesh).unwrap();
    assert_eq!((model.x_len(), model.y_len(), model.z_len()), (2, 2, 2));
    assert_eq!(model.get(0, 0, 0), 1);
    assert_eq!(model.get(1, 1, 1), 0);
    assert_eq!(occupied(&model), vec![(0, 0, 0)]);
}

#[test]
fn collapsed_tetrahedron_is_an_error() {
    let mesh = Mesh::new(vec![pt(0, 0, 0), pt(2, 0, 0), pt(2, 0, 0), pt(0, 0, 2)], vec![[0, 1, 2, 3]]);
    assert_eq!(voxelize(&mesh).unwrap_err(), VoxelizeError::DegenerateTetrahedron { tet: 0 });
}

#[test]
fn coplanar_tetrahedron_is_reported_by_index() {
    let mut pts = cube_points(2);
    pts.push(pt(1, 1, 0));
    let mut tets = cube_tets();
    tets.push([0, 1, 2, 8]);
    assert_eq!(voxelize(&Mesh::new(pts, tets)).unwrap_err(), VoxelizeError::DegenerateTetrahedron { tet: 6 });
}

#[test]
fn cube_fills_exactly_its_voxels() {
    let mut pts = cube_points(3);
    // an unused point widens the grid past the cube
    pts.push(pt(5, 5, 5));
    let model = voxelize(&Mesh::new(pts, cube_tets())).unwrap();
    assert_eq!((model.x_len(), model.y_len(), model.z_len()), (5, 5, 5));
    for i in 0..5 {
        for j in 0..5 {
            for k in 0..5 {
                let inside = i < 3 && j < 3 && k < 3;
                assert_eq!(model.get(i, j, k), if inside { 1 } else { 0 }, "voxel {:?}", (i, j, k));
            }
        }
    }
}

#[test]
fn cube_result_does_not_depend_on_tet_order() {
    let mut tets = cube_tets();
    let first = all_cells(&voxelize(&Mesh::new(cube_points(3), tets.clone())).unwrap());
    tets.reverse();
    let reversed = all_cells(&voxelize(&Mesh::new(cube_points(3), tets.clone())).unwrap());
    tets.swap(0, 3);
    tets.swap(1, 4);
    let shuffled = all_cells(&voxelize(&Mesh::new(cube_points(3), tets)).unwrap());
    assert_eq!(first, vec![1; 27]);
    assert_eq!(first, reversed);
    assert_eq!(first, shuffled);
}

#[test]
fn voxelizing_twice_gives_the_same_grid() {
    let mesh = Mesh::new(vec![pt(0, 0, 0), pt(4, 0, 0), pt(0, 4, 0), pt(0, 0, 4)], vec![[0, 1, 2, 3]]);
    let a = voxelize(&mesh).unwrap();
    let b = voxelize(&mesh).unwrap();
    assert_eq!((a.x_len(), a.y_len(), a.z_len()), (b.x_len(), b.y_len(), b.z_len()));
    assert_eq!(all_cells(&a), all_cells(&b));
    // centers with x + y + z <= 4: coordinate sums 1.5, 2.5 and 3.5
    assert_eq!(occupied(&a).len(), 1 + 3 + 6);
}

#[test]
fn center_on_shared_face_is_occupied_in_either_order() {
    // two tetrahedra of the 2-cube meeting on the plane x = y, where the
    // center (0.5, 0.5, 1.5) lies
    let tets = vec![[0, 4, 5, 7], [0, 4, 6, 7]];
    let a = voxelize(&Mesh::new(cube_points(2), tets.clone())).unwrap();
    let b = voxelize(&Mesh::new(cube_points(2), vec![tets[1], tets[0]])).unwrap();
    assert_eq!(a.get(0, 0, 1), 1);
    assert_eq!(all_cells(&a), all_cells(&b));
    // each tetrahedron alone also claims it
    let only_a = voxelize(&Mesh::new(cube_points(2), vec![tets[0]])).unwrap();
    let only_b = voxelize(&Mesh::new(cube_points(2), vec![tets[1]])).unwrap();
    assert_eq!(only_a.get(0, 0, 1), 1);
    assert_eq!(only_b.get(0, 0, 1), 1);
}

#[test]
fn voxels_outside_every_tetrahedron_stay_empty() {
    let mesh = Mesh::new(
        vec![pt(0, 0, 0), pt(2, 0, 0), pt(0, 2, 0), pt(0, 0, 2), pt(6, 6, 6)],
        vec![[0, 1, 2, 3]],
    );
    let model = voxelize(&mesh).unwrap();
    assert_eq!((model.x_len(), model.y_len(), model.z_len()), (6, 6, 6));
    assert_eq!(occupied(&model), vec![(0, 0, 0)]);
    assert_eq!(model.get(5, 5, 5), 0);
}

#[test]
fn interior_point_is_contained() {
    let tet = Tet { a: pt(0, 0, 0), b: pt(2, 0, 0), c: pt(0, 2, 0), d: pt(0, 0, 2) };
    let frame = TetFrame::new(tet).unwrap();
    assert!(frame.contains(Point::new(300, 400, 500)));
    assert!(frame.contains(Point::new(1, 1, 1)));
    assert!(!frame.contains(Point::new(1536, 1536, 1536)));
    assert!(!frame.contains(Point::new(-1, 100, 100)));
    // corners and faces are inside
    assert!(frame.contains(pt(2, 0, 0)));
    assert!(frame.contains(Point::new(1024, 1024, 0)));
}

#[test]
fn barycentric_coordinates_are_scaled_exactly() {
    let tet = Tet { a: pt(0, 0, 0), b: pt(2, 0, 0), c: pt(0, 2, 0), d: pt(0, 0, 2) };
    let frame = TetFrame::new(tet).unwrap();
    let s = frame.scale;
    assert_eq!(s, 8 * (U as i128).pow(3));
    let c = frame.coordinates(pt(0, 0, 0));
    assert_eq!(c, [s, 0, 0, 0]);
    let c = frame.coordinates(Point::new(512, 512, 512));
    // (0.5, 0.5, 0.5): weights 1/4 for the corner opposite, 1/4 each other
    assert_eq!(c, [s / 4, s / 4, s / 4, s / 4]);
    // a mirrored tetrahedron has a negative volume and the same coordinates
    let flipped = TetFrame::new(Tet { a: tet.b, b: tet.a, c: tet.c, d: tet.d }).unwrap();
    assert_eq!(flipped.sign, -1);
    assert_eq!(flipped.coordinates(pt(0, 0, 0)), [0, s, 0, 0]);
}

#[test]
fn degenerate_frame_is_refused() {
    let tet = Tet { a: pt(0, 0, 0), b: pt(1, 0, 0), c: pt(0, 1, 0), d: pt(1, 1, 0) };
    assert!(TetFrame::new(tet).is_none());
}

#[test]
fn range_check_is_inclusive() {
    assert!(all_in_range(&[0, 5, 10], 0, 10));
    assert!(!all_in_range(&[0, 11], 0, 10));
    assert!(!all_in_range(&[-1, 3], 0, 10));
    assert!(all_in_range(&[], 0, 10));
}

#[test]
fn rounding_is_half_away_from_zero() {
    assert_eq!(round_coord(0), 0);
    assert_eq!(round_coord(511), 0);
    assert_eq!(round_coord(512), 1);
    assert_eq!(round_coord(-511), 0);
    assert_eq!(round_coord(-512), -1);
    assert_eq!(round_coord(1535), 1);
    assert_eq!(round_coord(-1536), -2);
    assert_eq!(round_coord(3 * U), 3);
}

#[test]
fn bounding_box_spans_all_points() {
    let pts = vec![Point::new(5, -3, 7), Point::new(-2, 8, 7), Point::new(1, 0, -9)];
    let b = bounding_box(&pts);
    assert_eq!(b.lo, Point::new(-2, -3, -9));
    assert_eq!(b.hi, Point::new(5, 8, 7));
}

#[test]
fn lattice_enumerates_k_fastest() {
    let pts = vec![pt(0, 0, 0), pt(2, 1, 3)];
    let lattice = build_lattice(&bounding_box(&pts));
    assert_eq!((lattice.shape.x_len, lattice.shape.y_len, lattice.shape.z_len), (2, 1, 3));
    assert_eq!(lattice.voxels.len(), 6);
    let v = lattice.voxels[1];
    assert_eq!((v.i, v.j, v.k), (0, 0, 1));
    assert_eq!(v.center, Point::new(512, 512, 1536));
    let v = lattice.voxels[3];
    assert_eq!((v.i, v.j, v.k), (1, 0, 0));
    assert_eq!(v.center, Point::new(1536, 512, 512));
}

#[test]
fn lattice_origin_follows_rounded_minimum() {
    let pts = vec![Point::new(-1600, 700, 0), Point::new(1000, 2000, 100)];
    let lattice = build_lattice(&bounding_box(&pts));
    // -1600 rounds to -2, 1000 to 1; 700 to 1, 2000 to 2; 0 and 100 to 0
    assert_eq!((lattice.shape.x_min, lattice.shape.y_min, lattice.shape.z_min), (-2, 1, 0));
    assert_eq!((lattice.shape.x_len, lattice.shape.y_len, lattice.shape.z_len), (3, 1, 0));
    assert_eq!(lattice.voxels.len(), 0);
}

#[test]
fn tet_voxels_lists_contained_centers() {
    let pts = vec![pt(0, 0, 0), pt(2, 0, 0), pt(0, 2, 0), pt(0, 0, 2)];
    let lattice = build_lattice(&bounding_box(&pts));
    let frame = TetFrame::new(Tet { a: pts[0], b: pts[1], c: pts[2], d: pts[3] }).unwrap();
    assert_eq!(tet_voxels(&frame, &lattice), vec![(0, 0, 0)]);
}

#[test]
fn grid_marks_and_reads_back() {
    let mut grid = OccupancyGrid::zeros(2, 3, 4);
    assert_eq!(grid.get(1, 2, 3), 0);
    mark_voxels(&mut grid, &vec![(1, 2, 3), (0, 0, 0), (1, 2, 3)]);
    assert_eq!(grid.get(1, 2, 3), 1);
    assert_eq!(grid.get(0, 0, 0), 1);
    assert_eq!(grid.get(0, 2, 3), 0);
    grid.set(0, 1, 1, 7);
    assert_eq!(grid.get(0, 1, 1), 7);
}

#[test]
fn point_beyond_limit_is_an_error() {
    let mesh = Mesh::new(vec![pt(0, 0, 0), Point::new(0, COORD_LIMIT + 1, 0), Point::new(-COORD_LIMIT - 1, 0, 0)], vec![]);
    assert_eq!(voxelize(&mesh).unwrap_err(), VoxelizeError::CoordinateOutOfRange { point: 1 });
}

#[test]
fn missing_point_index_is_an_error() {
    let mesh = Mesh::new(cube_points(1), vec![[0, 1, 3, 7], [0, 1, 3, 8], [0, 9, 3, 7]]);
    assert_eq!(voxelize(&mesh).unwrap_err(), VoxelizeError::IndexOutOfRange { tet: 1 });
}

#[test]
fn oversized_grid_is_an_error() {
    let mesh = Mesh::new(vec![Point::new(-COORD_LIMIT, -COORD_LIMIT, -COORD_LIMIT), Point::new(COORD_LIMIT, COORD_LIMIT, COORD_LIMIT)], vec![]);
    assert_eq!(voxelize(&mesh).unwrap_err(), VoxelizeError::GridTooLarge);
}

#[test]
fn flat_mesh_gives_an_empty_grid() {
    let mesh = Mesh::new(vec![pt(0, 0, 0), pt(3, 0, 0), pt(0, 3, 0)], vec![]);
    let model = voxelize(&mesh).unwrap();
    assert_eq!((model.x_len(), model.y_len(), model.z_len()), (3, 3, 0));
}

#[test]
fn empty_mesh_gives_an_empty_grid() {
    let model = voxelize(&Mesh::new(vec![], vec![])).unwrap();
    assert_eq!((model.x_len(), model.y_len(), model.z_len()), (0, 0, 0));
}

#[test]
fn mesh_away_from_origin_uses_its_own_origin() {
    let mesh = Mesh::new(vec![pt(10, -4, 7), pt(12, -4, 7), pt(10, -2, 7), pt(10, -4, 9)], vec![[0, 1, 2, 3]]);
    let model = voxelize(&mesh).unwrap();
    assert_eq!((model.shape.x_min, model.shape.y_min, model.shape.z_min), (10, -4, 7));
    assert_eq!(occupied(&model), vec![(0, 0, 0)]);
}


fn cube_with_flat_tets() -> Mesh {
    let mut pts = cube_points(2);
    pts.push(pt(1, 1, 0));
    let mut tets = vec![[0, 1, 2, 8]];
    tets.extend(cube_tets());
    tets.push([0, 0, 3, 7]);
    Mesh::new(pts, tets)
}

#[test]
fn skip_policy_reports_degenerate_tets_and_keeps_the_rest() {
    let v = voxelize_with_policy(&cube_with_flat_tets(), DegeneratePolicy::Skip).unwrap();
    assert_eq!(v.skipped, vec![0, 7]);
    assert_eq!((v.model.x_len(), v.model.y_len(), v.model.z_len()), (2, 2, 2));
    assert_eq!(all_cells(&v.model), vec![1; 8]);
}

#[test]
fn abort_policy_stops_at_first_degenerate_tet() {
    let e = voxelize_with_policy(&cube_with_flat_tets(), DegeneratePolicy::Abort).unwrap_err();
    assert_eq!(e, VoxelizeError::DegenerateTetrahedron { tet: 0 });
    assert_eq!(voxelize(&cube_with_flat_tets()).unwrap_err(), e);
}

#[test]
fn skip_policy_without_degenerate_tets_skips_nothing() {
    let v = voxelize_with_policy(&Mesh::new(cube_points(2), cube_tets()), DegeneratePolicy::Skip).unwrap();
    assert!(v.skipped.is_empty());
    assert_eq!(all_cells(&v.model), vec![1; 8]);
}

#[test]
fn center_within_tolerance_of_a_face_is_occupied() {
    // the center (1536, 512, 512) of voxel (1, 4, 4) lies 1 / 549688721407
    // (about 1.8e-12) outside the face opposite the first corner: inside
    // the 1e-11 tolerance
    let mesh = Mesh::new(
        vec![
            Point::new(17920, 512, 512),
            Point::new(1536, 513, 4608),
            Point::new(1536, 511, -3583),
            Point::new(1537, 4608, 512),
            Point::new(0, -4096, -4096),
        ],
        vec![[0, 1, 2, 3]],
    );
    let model = voxelize(&mesh).unwrap();
    assert_eq!((model.shape.x_min, model.shape.y_min, model.shape.z_min), (0, -4, -4));
    assert_eq!((model.x_len(), model.y_len(), model.z_len()), (18, 9, 9));
    assert_eq!(model.get(1, 4, 4), 1);
    let tet = Tet { a: mesh.points[0], b: mesh.points[1], c: mesh.points[2], d: mesh.points[3] };
    let frame = TetFrame::new(tet).unwrap();
    let c = frame.coordinates(Point::new(1536, 512, 512));
    assert_eq!((frame.scale, c[0]), (549688721407, -1));
}

#[test]
fn center_beyond_tolerance_is_empty() {
    let tet = Tet { a: pt(0, 0, 0), b: pt(2, 0, 0), c: pt(0, 2, 0), d: pt(0, 0, 2) };
    let frame = TetFrame::new(tet).unwrap();
    // one unit past the face x = 0 is a coordinate of -1/2048, far beyond 1e-11
    assert!(!frame.contains(Point::new(-1, 100, 100)));
    assert_eq!(TOLERANCE_DENOM, 100_000_000_000);
}
