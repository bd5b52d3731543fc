use vstd::prelude::*;
use crate::containment::SPACE_LIMIT;
use crate::geometry::{Point, BoundingBox, round_to_voxel, round_coord, lemma_round_bounds, lemma_round_monotonic, COORD_LIMIT, UNITS_PER_VOXEL, HALF_VOXEL};
use crate::grid::{extent, MAX_VOXELS};

verus! {

/// The coordinate of the center of the voxel `i` steps from the lattice
/// origin `o` (in voxel units), in coordinate units.
pub open spec fn center_coord(o: int, i: int) -> int {
    (o + i) * UNITS_PER_VOXEL + HALF_VOXEL
}

/// The position of voxel `(i, j, k)` in the enumeration order: `i` outer,
/// `j` middle, `k` inner.
pub open spec fn lattice_index(i: int, j: int, k: int, y_len: int, z_len: int) -> int {
    (i * y_len + j) * z_len + k
}

/// One voxel of the lattice: its integer position and its center point.
#[derive(Clone, Copy, Debug)]
pub struct LatticeVoxel {
    pub i: usize,
    pub j: usize,
    pub k: usize,
    pub center: Point,
}

/// The extent of a voxel lattice: the origin of each axis in voxel units
/// and the number of voxels along it.
#[derive(Clone, Copy, Debug)]
pub struct LatticeShape {
    pub x_min: i64,
    pub y_min: i64,
    pub z_min: i64,
    pub x_len: usize,
    pub y_len: usize,
    pub z_len: usize,
}

impl LatticeShape {
    /// `v` is voxel `(i, j, k)` of this lattice, with its center.
    pub open spec fn is_voxel(self, v: LatticeVoxel, i: int, j: int, k: int) -> bool {
        &&& v.i == i && v.j == j && v.k == k
        &&& v.center == self.center_of(i, j, k)
    }

    /// The center of voxel `(i, j, k)`.
    pub open spec fn center_of(self, i: int, j: int, k: int) -> Point {
        Point {
            x: center_coord(self.x_min as int, i) as i64,
            y: center_coord(self.y_min as int, j) as i64,
            z: center_coord(self.z_min as int, k) as i64,
        }
    }

    pub open spec fn in_range(self, i: int, j: int, k: int) -> bool {
        0 <= i < self.x_len && 0 <= j < self.y_len && 0 <= k < self.z_len
    }

    pub open spec fn index(self, i: int, j: int, k: int) -> int {
        lattice_index(i, j, k, self.y_len as int, self.z_len as int)
    }

    pub open spec fn count(self) -> int {
        self.x_len * self.y_len * self.z_len
    }

    /// The lattice spans, on each axis, from the rounded minimum to the
    /// rounded maximum of `bbox`.
    pub open spec fn spans(self, bbox: BoundingBox) -> bool {
        &&& self.x_min == round_to_voxel(bbox.lo.x as int)
        &&& self.y_min == round_to_voxel(bbox.lo.y as int)
        &&& self.z_min == round_to_voxel(bbox.lo.z as int)
        &&& self.x_len == round_to_voxel(bbox.hi.x as int) - round_to_voxel(bbox.lo.x as int)
        &&& self.y_len == round_to_voxel(bbox.hi.y as int) - round_to_voxel(bbox.lo.y as int)
        &&& self.z_len == round_to_voxel(bbox.hi.z as int) - round_to_voxel(bbox.lo.z as int)
    }
}

/// Every voxel of the box spanned by the rounded bounding box, each with
/// its center, enumerated once.
#[derive(Debug)]
pub struct Lattice {
    pub shape: LatticeShape,
    pub voxels: Vec<LatticeVoxel>,
}

impl Lattice {
    pub open spec fn wf(self) -> bool {
        &&& self.voxels@.len() == self.shape.count()
        &&& entries_ok(self.shape, self.voxels@)
        &&& placed_before(self.shape, self.voxels@, self.shape.x_len as int, 0, 0)
    }
}

/// `(a, b, c)` comes before `(i, j, k)` in the enumeration order.
pub open spec fn lex_before(a: int, b: int, c: int, i: int, j: int, k: int) -> bool {
    a < i || (a == i && b < j) || (a == i && b == j && c < k)
}

/// Every in-range voxel before `(i, j, k)` stands at its enumeration index.
pub open spec fn placed_before(l: LatticeShape, voxels: Seq<LatticeVoxel>, i: int, j: int, k: int) -> bool {
    forall|a: int, b: int, c: int|
        l.in_range(a, b, c) && lex_before(a, b, c, i, j, k) ==> 0 <= #[trigger] l.index(a, b, c) < voxels.len()
            && l.is_voxel(voxels[l.index(a, b, c)], a, b, c)
}

/// Every entry is an in-range voxel of the lattice with its center.
pub open spec fn entries_ok(l: LatticeShape, voxels: Seq<LatticeVoxel>) -> bool {
    forall|r: int|
        0 <= r < voxels.len() ==> {
            let v = #[trigger] voxels[r];
            l.in_range(v.i as int, v.j as int, v.k as int) && l.is_voxel(v, v.i as int, v.j as int, v.k as int)
                && v.center.within(SPACE_LIMIT as int)
        }
}

/// Builds the voxel lattice of a bounding box: the voxels between the
/// rounded minimum and rounded maximum of each axis, enumerated `i` outer,
/// `j` middle, `k` inner, each with its center at a half-voxel offset.
pub fn build_lattice(bbox: &BoundingBox) -> (r: Lattice)
    requires
        bbox.lo.within(COORD_LIMIT as int),
        bbox.hi.within(COORD_LIMIT as int),
        bbox.lo.x <= bbox.hi.x && bbox.lo.y <= bbox.hi.y && bbox.lo.z <= bbox.hi.z,
        extent(
            round_to_voxel(bbox.hi.x as int) - round_to_voxel(bbox.lo.x as int),
            round_to_voxel(bbox.hi.y as int) - round_to_voxel(bbox.lo.y as int),
            round_to_voxel(bbox.hi.z as int) - round_to_voxel(bbox.lo.z as int),
        ) <= MAX_VOXELS,
    ensures
        r.wf(),
        r.shape.spans(*bbox),
{
    proof {
        lemma_round_bounds(bbox.lo.x as int);
        lemma_round_bounds(bbox.lo.y as int);
        lemma_round_bounds(bbox.lo.z as int);
        lemma_round_bounds(bbox.hi.x as int);
        lemma_round_bounds(bbox.hi.y as int);
        lemma_round_bounds(bbox.hi.z as int);
        lemma_round_monotonic(bbox.lo.x as int, bbox.hi.x as int);
        lemma_round_monotonic(bbox.lo.y as int, bbox.hi.y as int);
        lemma_round_monotonic(bbox.lo.z as int, bbox.hi.z as int);
    }
    let x_min = round_coord(bbox.lo.x);
    let y_min = round_coord(bbox.lo.y);
    let z_min = round_coord(bbox.lo.z);
    let x_len = (round_coord(bbox.hi.x) - x_min) as usize;
    let y_len = (round_coord(bbox.hi.y) - y_min) as usize;
    let z_len = (round_coord(bbox.hi.z) - z_min) as usize;
    let shell = LatticeShape { x_min, y_min, z_min, x_len, y_len, z_len };
    let mut voxels: Vec<LatticeVoxel> = Vec::new();
    let mut i: usize = 0;
    assert(lattice_index(0, 0, 0, y_len as int, z_len as int) == 0) by (nonlinear_arith);
    while i < x_len
        invariant
            shell == (LatticeShape { x_min, y_min, z_min, x_len, y_len, z_len }),
            -65537 <= x_min && x_min + x_len <= 65537,
            -65537 <= y_min && y_min + y_len <= 65537,
            -65537 <= z_min && z_min + z_len <= 65537,
            i <= x_len,
            voxels@.len() == lattice_index(i as int, 0, 0, y_len as int, z_len as int),
            entries_ok(shell, voxels@),
            placed_before(shell, voxels@, i as int, 0, 0),
        decreases x_len - i,
    {
        let mut j: usize = 0;
        while j < y_len
            invariant
                shell == (LatticeShape { x_min, y_min, z_min, x_len, y_len, z_len }),
                -65537 <= x_min && x_min + x_len <= 65537,
                -65537 <= y_min && y_min + y_len <= 65537,
                -65537 <= z_min && z_min + z_len <= 65537,
                i < x_len,
                j <= y_len,
                voxels@.len() == lattice_index(i as int, j as int, 0, y_len as int, z_len as int),
                entries_ok(shell, voxels@),
                placed_before(shell, voxels@, i as int, j as int, 0),
            decreases y_len - j,
        {
            let mut k: usize = 0;
            while k < z_len
                invariant
                    shell == (LatticeShape { x_min, y_min, z_min, x_len, y_len, z_len }),
                    -65537 <= x_min && x_min + x_len <= 65537,
                    -65537 <= y_min && y_min + y_len <= 65537,
                    -65537 <= z_min && z_min + z_len <= 65537,
                    i < x_len,
                    j < y_len,
                    k <= z_len,
                    voxels@.len() == lattice_index(i as int, j as int, k as int, y_len as int, z_len as int),
                    entries_ok(shell, voxels@),
                    placed_before(shell, voxels@, i as int, j as int, k as int),
                decreases z_len - k,
            {
                let center = Point {
                    x: (x_min + i as i64) * UNITS_PER_VOXEL + HALF_VOXEL,
                    y: (y_min + j as i64) * UNITS_PER_VOXEL + HALF_VOXEL,
                    z: (z_min + k as i64) * UNITS_PER_VOXEL + HALF_VOXEL,
                };
                let v = LatticeVoxel { i, j, k, center };
                let ghost before = voxels@;
                voxels.push(v);
                proof {
                    assert(shell.is_voxel(v, i as int, j as int, k as int));
                    assert forall|r: int| 0 <= r < voxels@.len() implies {
                        let w = #[trigger] voxels@[r];
                        shell.in_range(w.i as int, w.j as int, w.k as int) && shell.is_voxel(w, w.i as int, w.j as int, w.k as int)
                            && w.center.within(SPACE_LIMIT as int)
                    } by {
                        if r < before.len() {
                            assert(voxels@[r] == before[r]);
                        }
                    }
                    assert forall|a: int, b: int, c: int|
                        shell.in_range(a, b, c) && lex_before(a, b, c, i as int, j as int, k + 1) implies
                        0 <= #[trigger] shell.index(a, b, c) < voxels@.len()
                            && shell.is_voxel(voxels@[shell.index(a, b, c)], a, b, c) by {
                        if lex_before(a, b, c, i as int, j as int, k as int) {
                            assert(voxels@[shell.index(a, b, c)] == before[shell.index(a, b, c)]);
                        } else {
                            assert(a == i && b == j && c == k);
                        }
                    }
                }
                k = k + 1;
            }
            proof {
                assert(lattice_index(i as int, j as int, z_len as int, y_len as int, z_len as int)
                    == lattice_index(i as int, j + 1, 0, y_len as int, z_len as int)) by (nonlinear_arith);
                assert forall|a: int, b: int, c: int|
                    shell.in_range(a, b, c) && lex_before(a, b, c, i as int, j + 1, 0) implies
                    0 <= #[trigger] shell.index(a, b, c) < voxels@.len()
                        && shell.is_voxel(voxels@[shell.index(a, b, c)], a, b, c) by {
                    assert(lex_before(a, b, c, i as int, j as int, z_len as int));
                }
            }
            j = j + 1;
        }
        proof {
            assert(lattice_index(i as int, y_len as int, 0, y_len as int, z_len as int)
                == lattice_index(i + 1, 0, 0, y_len as int, z_len as int)) by (nonlinear_arith);
            assert forall|a: int, b: int, c: int|
                shell.in_range(a, b, c) && lex_before(a, b, c, i + 1, 0, 0) implies
                0 <= #[trigger] shell.index(a, b, c) < voxels@.len()
                    && shell.is_voxel(voxels@[shell.index(a, b, c)], a, b, c) by {
                assert(lex_before(a, b, c, i as int, y_len as int, 0));
            }
        }
        i = i + 1;
    }
    proof {
        assert(lattice_index(x_len as int, 0, 0, y_len as int, z_len as int) == x_len * y_len * z_len) by (nonlinear_arith);
    }
    Lattice { shape: shell, voxels }
}

} // verus!
