use vstd::prelude::*;
use crate::geometry::Point;

verus! {

/// The largest coordinate magnitude the containment test accepts: mesh
/// coordinates and voxel centers both stay inside it.
pub const SPACE_LIMIT: i64 = 134217728;

/// The containment tolerance is `1 / TOLERANCE_DENOM` (1e-11): a
/// barycentric coordinate counts as inside when it lies in
/// `[-1e-11, 1 + 1e-11]`, so that points on a face shared by two
/// tetrahedra, or just beside it, are claimed by both.
pub const TOLERANCE_DENOM: i128 = 100000000000;

/// The determinant of the 3x3 matrix with rows `u`, `v`, `w`.
pub open spec fn det3(
    ux: int,
    uy: int,
    uz: int,
    vx: int,
    vy: int,
    vz: int,
    wx: int,
    wy: int,
    wz: int,
) -> int {
    ux * (vy * wz - vz * wy) - uy * (vx * wz - vz * wx) + uz * (vx * wy - vy * wx)
}

/// Six times the signed volume of the tetrahedron `abcd`; zero exactly when
/// the four points are coplanar. It is also the determinant of the 4x4
/// matrix whose rows are the homogeneous vertices `[x, y, z, 1]`, up to sign.
pub open spec fn orient(a: Point, b: Point, c: Point, d: Point) -> int {
    det3(
        b.x - a.x,
        b.y - a.y,
        b.z - a.z,
        c.x - a.x,
        c.y - a.y,
        c.z - a.z,
        d.x - a.x,
        d.y - a.y,
        d.z - a.z,
    )
}

/// A tetrahedron given by its four corner points.
#[derive(Clone, Copy, Debug)]
pub struct Tet {
    pub a: Point,
    pub b: Point,
    pub c: Point,
    pub d: Point,
}

impl Tet {
    pub open spec fn volume6(self) -> int {
        orient(self.a, self.b, self.c, self.d)
    }

    pub open spec fn is_degenerate(self) -> bool {
        self.volume6() == 0
    }

    /// The numerator of the barycentric coordinate of `p` for corner `i`:
    /// the signed volume with that corner moved to `p`. Divided by
    /// `volume6()` it is the affine function that is 1 at corner `i` and 0 at
    /// the three others; the four quotients sum to 1.
    pub open spec fn bary_num(self, p: Point, i: int) -> int {
        if i == 0 {
            orient(p, self.b, self.c, self.d)
        } else if i == 1 {
            orient(self.a, p, self.c, self.d)
        } else if i == 2 {
            orient(self.a, self.b, p, self.d)
        } else {
            orient(self.a, self.b, self.c, p)
        }
    }

    /// Whether the barycentric coordinate of `p` for corner `i` lies in
    /// `[0, 1]` widened by the tolerance.
    pub open spec fn coord_in_range(self, p: Point, i: int) -> bool {
        ratio_in_range(self.bary_num(p, i), self.volume6())
    }

    /// Whether the barycentric coordinate of `p` for corner `i` lies in `(0, 1)`.
    pub open spec fn coord_strictly_in_unit(self, p: Point, i: int) -> bool {
        strict_unit_ratio(self.bary_num(p, i), self.volume6())
    }

    /// `p` passes the containment test: all four barycentric coordinates
    /// lie in `[0, 1]` widened by the tolerance, so faces and corners are
    /// included.
    pub open spec fn contains(self, p: Point) -> bool {
        &&& !self.is_degenerate()
        &&& forall|i: int| 0 <= i < 4 ==> #[trigger] self.coord_in_range(p, i)
    }

    pub open spec fn within(self, limit: int) -> bool {
        self.a.within(limit) && self.b.within(limit) && self.c.within(limit) && self.d.within(limit)
    }
}

/// The quotient `n / den` lies in `[-1 / TOLERANCE_DENOM, 1 + 1 / TOLERANCE_DENOM]`.
pub open spec fn ratio_in_range(n: int, den: int) -> bool {
    let t = TOLERANCE_DENOM as int;
    if den > 0 {
        -den <= t * n <= (t + 1) * den
    } else {
        den < 0 && (t + 1) * den <= t * n <= -den
    }
}

/// The quotient `n / den` lies in `(0, 1)`.
pub open spec fn strict_unit_ratio(n: int, den: int) -> bool {
    if den > 0 {
        0 < n < den
    } else {
        den < 0 && den < n < 0
    }
}

proof fn lemma_mul_bound(a: int, b: int, ka: int, kb: int) by (nonlinear_arith)
    requires
        -ka <= a <= ka,
        -kb <= b <= kb,
    ensures
        -(ka * kb) <= a * b <= ka * kb,
{
}

fn det3_exec(
    ux: i128,
    uy: i128,
    uz: i128,
    vx: i128,
    vy: i128,
    vz: i128,
    wx: i128,
    wy: i128,
    wz: i128,
) -> (r: i128)
    requires
        -268435456 <= ux <= 268435456,
        -268435456 <= uy <= 268435456,
        -268435456 <= uz <= 268435456,
        -268435456 <= vx <= 268435456,
        -268435456 <= vy <= 268435456,
        -268435456 <= vz <= 268435456,
        -268435456 <= wx <= 268435456,
        -268435456 <= wy <= 268435456,
        -268435456 <= wz <= 268435456,
    ensures
        r == det3(ux as int, uy as int, uz as int, vx as int, vy as int, vz as int, wx as int, wy as int, wz as int),
        -154742504910672534362390528 <= r <= 154742504910672534362390528,
{
    proof {
        lemma_mul_bound(vy as int, wz as int, 268435456, 268435456);
        lemma_mul_bound(vz as int, wy as int, 268435456, 268435456);
        lemma_mul_bound(vx as int, wz as int, 268435456, 268435456);
        lemma_mul_bound(vz as int, wx as int, 268435456, 268435456);
        lemma_mul_bound(vx as int, wy as int, 268435456, 268435456);
        lemma_mul_bound(vy as int, wx as int, 268435456, 268435456);
    }
    let c0 = vy * wz - vz * wy;
    let c1 = vx * wz - vz * wx;
    let c2 = vx * wy - vy * wx;
    proof {
        lemma_mul_bound(ux as int, c0 as int, 268435456, 144115188075855872);
        lemma_mul_bound(uy as int, c1 as int, 268435456, 144115188075855872);
        lemma_mul_bound(uz as int, c2 as int, 268435456, 144115188075855872);
    }
    ux * c0 - uy * c1 + uz * c2
}

/// Six times the signed volume of `abcd`, computed exactly.
pub fn orient_exec(a: Point, b: Point, c: Point, d: Point) -> (r: i128)
    requires
        a.within(SPACE_LIMIT as int),
        b.within(SPACE_LIMIT as int),
        c.within(SPACE_LIMIT as int),
        d.within(SPACE_LIMIT as int),
    ensures
        r == orient(a, b, c, d),
        -154742504910672534362390528 <= r <= 154742504910672534362390528,
{
    det3_exec(
        b.x as i128 - a.x as i128,
        b.y as i128 - a.y as i128,
        b.z as i128 - a.z as i128,
        c.x as i128 - a.x as i128,
        c.y as i128 - a.y as i128,
        c.z as i128 - a.z as i128,
        d.x as i128 - a.x as i128,
        d.y as i128 - a.y as i128,
        d.z as i128 - a.z as i128,
    )
}

/// Whether every value lies in `[low, high]`.
pub fn all_in_range(values: &[i128], low: i128, high: i128) -> (r: bool)
    ensures
        r == forall|i: int| 0 <= i < values@.len() ==> low <= #[trigger] values@[i] <= high,
{
    let mut n: usize = 0;
    while n < values.len()
        invariant
            0 <= n <= values@.len(),
            forall|i: int| 0 <= i < n ==> low <= #[trigger] values@[i] <= high,
        decreases values@.len() - n,
    {
        if values[n] < low || values[n] > high {
            return false;
        }
        n = n + 1;
    }
    true
}

/// A non-degenerate tetrahedron prepared for containment tests: the
/// magnitude and sign of its volume, so that each barycentric coordinate
/// becomes an exact integer over the common denominator `scale`. The
/// arithmetic is exact, so a point on a face or a corner is decided exactly
/// and the range test needs no tolerance.
#[derive(Clone, Copy, Debug)]
pub struct TetFrame {
    pub tet: Tet,
    pub sign: i128,
    pub scale: i128,
}

impl TetFrame {
    pub open spec fn wf(self) -> bool {
        &&& self.tet.within(SPACE_LIMIT as int)
        &&& self.sign == 1 || self.sign == -1
        &&& self.scale == self.sign * self.tet.volume6()
        &&& 0 < self.scale <= 154742504910672534362390528
    }

    /// Prepares `tet` for containment tests; `None` when its corners are
    /// coplanar, so that no barycentric coordinates exist.
    pub fn new(tet: Tet) -> (r: Option<TetFrame>)
        requires
            tet.within(SPACE_LIMIT as int),
        ensures
            r is None <==> tet.is_degenerate(),
            r matches Some(f) ==> f.wf() && f.tet == tet,
    {
        let v = orient_exec(tet.a, tet.b, tet.c, tet.d);
        if v == 0 {
            None
        } else if v > 0 {
            Some(TetFrame { tet, sign: 1, scale: v })
        } else {
            Some(TetFrame { tet, sign: -1, scale: -v })
        }
    }

    /// The four barycentric coordinates of `p`, each multiplied by `scale`.
    pub fn coordinates(&self, p: Point) -> (r: [i128; 4])
        requires
            self.wf(),
            p.within(SPACE_LIMIT as int),
        ensures
            r@.len() == 4,
            forall|i: int| 0 <= i < 4 ==> -154742504910672534362390528 <= #[trigger] r@[i] <= 154742504910672534362390528,
            forall|i: int|
                0 <= i < 4 ==> #[trigger] r@[i] == if self.sign == 1 {
                    self.tet.bary_num(p, i)
                } else {
                    -self.tet.bary_num(p, i)
                },
    {
        let t = self.tet;
        let n0 = orient_exec(p, t.b, t.c, t.d);
        let n1 = orient_exec(t.a, p, t.c, t.d);
        let n2 = orient_exec(t.a, t.b, p, t.d);
        let n3 = orient_exec(t.a, t.b, t.c, p);
        if self.sign > 0 {
            let r = [n0, n1, n2, n3];
            assert(r@ =~= seq![n0, n1, n2, n3]);
            r
        } else {
            let (m0, m1, m2, m3) = (-n0, -n1, -n2, -n3);
            let r = [m0, m1, m2, m3];
            assert(r@ =~= seq![m0, m1, m2, m3]);
            r
        }
    }

    /// Whether `p` passes the containment test: each barycentric
    /// coordinate `c / scale` in `[-1 / TOLERANCE_DENOM, 1 + 1 / TOLERANCE_DENOM]`,
    /// that is `-scale <= TOLERANCE_DENOM * c <= (TOLERANCE_DENOM + 1) * scale`.
    pub fn contains(&self, p: Point) -> (r: bool)
        requires
            self.wf(),
            p.within(SPACE_LIMIT as int),
        ensures
            r == self.tet.contains(p),
    {
        let coords = self.coordinates(p);
        let t = TOLERANCE_DENOM;
        proof {
            lemma_mul_bound(self.scale as int, t as int + 1, 154742504910672534362390528, 100000000001);
            lemma_mul_bound(coords@[0] as int, t as int, 154742504910672534362390528, 100000000000);
            lemma_mul_bound(coords@[1] as int, t as int, 154742504910672534362390528, 100000000000);
            lemma_mul_bound(coords@[2] as int, t as int, 154742504910672534362390528, 100000000000);
            lemma_mul_bound(coords@[3] as int, t as int, 154742504910672534362390528, 100000000000);
        }
        let (w0, w1, w2, w3) = (t * coords[0], t * coords[1], t * coords[2], t * coords[3]);
        let scaled = [w0, w1, w2, w3];
        assert(scaled@ =~= seq![w0, w1, w2, w3]);
        let values: &[i128] = &scaled;
        assert(values@ == scaled@);
        let r = all_in_range(values, -self.scale, (t + 1) * self.scale);
        assert forall|i: int| 0 <= i < 4 implies (-self.scale <= #[trigger] values@[i] <= (t + 1) * self.scale
            <==> self.tet.coord_in_range(p, i)) by {
            assert(values@[i] == t * coords@[i]);
            if self.sign == 1 {
                assert(self.scale == self.tet.volume6());
                assert(coords@[i] == self.tet.bary_num(p, i));
            } else {
                assert(self.scale == -self.tet.volume6());
                assert(coords@[i] == -self.tet.bary_num(p, i));
                assert(t * coords@[i] == -(t * self.tet.bary_num(p, i))) by (nonlinear_arith)
                    requires coords@[i] == -self.tet.bary_num(p, i);
                assert((t + 1) * self.scale == -((t + 1) * self.tet.volume6())) by (nonlinear_arith)
                    requires self.scale == -self.tet.volume6();
            }
        }
        proof {
            if self.sign == 1 {
                assert(self.scale == self.tet.volume6());
            } else {
                assert(self.scale == -self.tet.volume6());
            }
            if r {
                assert forall|i: int| 0 <= i < 4 implies #[trigger] self.tet.coord_in_range(p, i) by {
                    assert(-self.scale <= values@[i] <= (t + 1) * self.scale);
                }
            } else {
                let i = choose|i: int| 0 <= i < 4 && !(-self.scale <= #[trigger] values@[i] <= (t + 1) * self.scale);
                assert(!self.tet.coord_in_range(p, i));
            }
        }
        r
    }
}

} // verus!
