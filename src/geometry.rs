use vstd::prelude::*;

verus! {

/// Coordinates are fixed-point integers: one voxel edge is this many units.
pub const UNITS_PER_VOXEL: i64 = 1024;

/// Half a voxel edge, in coordinate units.
pub const HALF_VOXEL: i64 = 512;

/// The largest magnitude a mesh coordinate may have, in coordinate units.
pub const COORD_LIMIT: i64 = 67108864;

/// A point in space, each coordinate in units of `1 / UNITS_PER_VOXEL` of a
/// voxel edge.
#[derive(Clone, Copy, Debug, PartialEq, Eq)]
pub struct Point {
    pub x: i64,
    pub y: i64,
    pub z: i64,
}

impl Point {
    /// The coordinate along axis 0 (x), 1 (y) or 2 (z).
    pub open spec fn coord(self, axis: int) -> int {
        if axis == 0 {
            self.x as int
        } else if axis == 1 {
            self.y as int
        } else {
            self.z as int
        }
    }

    /// Every coordinate lies in `[-limit, limit]`.
    pub open spec fn within(self, limit: int) -> bool {
        -limit <= self.x <= limit && -limit <= self.y <= limit && -limit <= self.z <= limit
    }

    pub fn new(x: i64, y: i64, z: i64) -> (r: Point)
        ensures
            r.x == x,
            r.y == y,
            r.z == z,
    {
        Point { x, y, z }
    }

    pub fn in_limits(&self) -> (r: bool)
        ensures
            r == self.within(COORD_LIMIT as int),
    {
        -COORD_LIMIT <= self.x && self.x <= COORD_LIMIT && -COORD_LIMIT <= self.y && self.y
            <= COORD_LIMIT && -COORD_LIMIT <= self.z && self.z <= COORD_LIMIT
    }
}

/// A coordinate rounded to the nearest voxel boundary, in voxel units;
/// halves round away from zero.
pub open spec fn round_to_voxel(c: int) -> int {
    if c >= 0 {
        (c + HALF_VOXEL) / (UNITS_PER_VOXEL as int)
    } else {
        -((-c + HALF_VOXEL) / (UNITS_PER_VOXEL as int))
    }
}

pub fn round_coord(c: i64) -> (r: i64)
    requires
        -COORD_LIMIT <= c <= COORD_LIMIT,
    ensures
        r == round_to_voxel(c as int),
{
    if c >= 0 {
        (c + HALF_VOXEL) / UNITS_PER_VOXEL
    } else {
        -((-c + HALF_VOXEL) / UNITS_PER_VOXEL)
    }
}

/// Rounding never reverses the order of two coordinates.
pub proof fn lemma_round_monotonic(a: int, b: int)
    requires
        a <= b,
    ensures
        round_to_voxel(a) <= round_to_voxel(b),
{
    if a >= 0 {
        vstd::arithmetic::div_mod::lemma_div_is_ordered(a + 512, b + 512, 1024);
    } else if b >= 0 {
        assert((-a + 512) / 1024 >= 0) by {
            vstd::arithmetic::div_mod::lemma_div_pos_is_pos(-a + 512, 1024);
        }
        assert((b + 512) / 1024 >= 0) by {
            vstd::arithmetic::div_mod::lemma_div_pos_is_pos(b + 512, 1024);
        }
    } else {
        vstd::arithmetic::div_mod::lemma_div_is_ordered(-b + 512, -a + 512, 1024);
    }
}

/// Rounding keeps a coordinate of the limited range within a voxel count
/// of the same range.
pub proof fn lemma_round_bounds(c: int)
    requires
        -COORD_LIMIT <= c <= COORD_LIMIT,
    ensures
        -65537 <= round_to_voxel(c) <= 65537,
{
    if c >= 0 {
        vstd::arithmetic::div_mod::lemma_div_is_ordered(c + 512, 67108864int + 512, 1024);
        vstd::arithmetic::div_mod::lemma_div_pos_is_pos(c + 512, 1024);
    } else {
        vstd::arithmetic::div_mod::lemma_div_is_ordered(-c + 512, 67108864int + 512, 1024);
        vstd::arithmetic::div_mod::lemma_div_pos_is_pos(-c + 512, 1024);
    }
}

/// `v` is the least value of the coordinate along `axis` over `pts`.
pub open spec fn is_min_coord(pts: Seq<Point>, axis: int, v: int) -> bool {
    &&& forall|q: int| 0 <= q < pts.len() ==> v <= #[trigger] pts[q].coord(axis)
    &&& exists|q: int| 0 <= q < pts.len() && v == #[trigger] pts[q].coord(axis)
}

/// `v` is the greatest value of the coordinate along `axis` over `pts`.
pub open spec fn is_max_coord(pts: Seq<Point>, axis: int, v: int) -> bool {
    &&& forall|q: int| 0 <= q < pts.len() ==> #[trigger] pts[q].coord(axis) <= v
    &&& exists|q: int| 0 <= q < pts.len() && v == #[trigger] pts[q].coord(axis)
}

/// The smallest axis-aligned box holding every point of a set.
#[derive(Clone, Copy, Debug)]
pub struct BoundingBox {
    pub lo: Point,
    pub hi: Point,
}

impl BoundingBox {
    /// `lo` and `hi` hold, per axis, the least and greatest coordinate of `pts`.
    pub open spec fn bounds(self, pts: Seq<Point>) -> bool {
        forall|axis: int|
            0 <= axis < 3 ==> is_min_coord(pts, axis, #[trigger] self.lo.coord(axis))
                && is_max_coord(pts, axis, self.hi.coord(axis))
    }
}

/// The bounding box of a non-empty point set, found in one pass: the first
/// point opens the box and each later point can only widen it.
pub fn bounding_box(points: &Vec<Point>) -> (r: BoundingBox)
    requires
        points@.len() > 0,
    ensures
        r.bounds(points@),
{
    let mut lo = points[0];
    let mut hi = points[0];
    let mut n: usize = 1;
    assert(points@.take(1)[0] == lo);
    while n < points.len()
        invariant
            1 <= n <= points@.len(),
            forall|axis: int|
                0 <= axis < 3 ==> is_min_coord(points@.take(n as int), axis, #[trigger] lo.coord(axis))
                    && is_max_coord(points@.take(n as int), axis, hi.coord(axis)),
        decreases points@.len() - n,
    {
        let p = points[n];
        let ghost old_lo = lo;
        let ghost old_hi = hi;
        if p.x < lo.x {
            lo.x = p.x;
        }
        if p.x > hi.x {
            hi.x = p.x;
        }
        if p.y < lo.y {
            lo.y = p.y;
        }
        if p.y > hi.y {
            hi.y = p.y;
        }
        if p.z < lo.z {
            lo.z = p.z;
        }
        if p.z > hi.z {
            hi.z = p.z;
        }
        let ghost t = points@.take(n + 1);
        proof {
            let s = points@.take(n as int);
            assert(t[n as int] == p);
            assert forall|q: int| 0 <= q < n implies t[q] == s[q] by {}
            assert forall|axis: int| 0 <= axis < 3 implies is_min_coord(t, axis, #[trigger] lo.coord(axis))
                && is_max_coord(t, axis, hi.coord(axis)) by {
                assert(is_min_coord(s, axis, old_lo.coord(axis)));
                assert(is_max_coord(s, axis, old_hi.coord(axis)));
                if lo.coord(axis) == p.coord(axis) {
                    assert(t[n as int].coord(axis) == lo.coord(axis));
                } else {
                    let q = choose|q: int| 0 <= q < s.len() && old_lo.coord(axis) == #[trigger] s[q].coord(axis);
                    assert(t[q].coord(axis) == lo.coord(axis));
                }
                if hi.coord(axis) == p.coord(axis) {
                    assert(t[n as int].coord(axis) == hi.coord(axis));
                } else {
                    let q = choose|q: int| 0 <= q < s.len() && old_hi.coord(axis) == #[trigger] s[q].coord(axis);
                    assert(t[q].coord(axis) == hi.coord(axis));
                }
            }
        }
        n = n + 1;
        assert(points@.take(n as int) == t);
        assert(forall|axis: int|
                0 <= axis < 3 ==> is_min_coord(t, axis, #[trigger] lo.coord(axis)));
        assert(forall|axis: int|
                0 <= axis < 3 ==> is_max_coord(t, axis, #[trigger] hi.coord(axis)));
    }
    assert(points@.take(n as int) =~= points@);
    BoundingBox { lo, hi }
}

} // verus!
