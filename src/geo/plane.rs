//! Planes in space: containment, parallelism, coplanarity and
//! intersection, decided exactly on grid coordinates.
use vstd::prelude::*;
use crate::geo::line::Line;
use crate::geo::vector::{
    COORD_MAX, Vec3, RatVec3, Wide, vminus, vplus, vscale, dot, cross, is_zero, bounded, widen,
    wide_minus, wide_plus, wide_scale, wide_dot, wide_cross, wide_is_zero, lemma_cross_bound,
    lemma_dot_bound, lemma_scale_bound, lemma_cross_orthogonal,
};

verus! {

/// The plane through `point` with normal `normal`.
#[derive(Clone, Copy, Debug, PartialEq, Eq, Structural)]
pub struct Plane {
    pub point: Vec3,
    pub normal: Vec3,
}

/// A line through a rational point, as produced where two planes meet.
#[derive(Clone, Copy, Debug, PartialEq, Eq, Structural)]
pub struct RatLine {
    pub point: RatVec3,
    pub vec: Vec3,
}

/// Where two planes meet: along a line, or everywhere when they are the
/// same plane.
#[derive(Clone, Copy, Debug, PartialEq, Eq, Structural)]
pub enum PlaneIntersection {
    Line(RatLine),
    Plane(Plane),
}

impl Plane {
    /// Both the anchor and the normal are within the kernel's range.
    pub open spec fn wf(self) -> bool {
        self.point.in_range() && self.normal.in_range()
    }

    pub open spec fn contains_spec(self, p: (int, int, int)) -> bool {
        dot(self.normal@, vminus(p, self.point@)) == 0
    }

    pub open spec fn parallel_spec(self, other: Plane) -> bool {
        is_zero(cross(self.normal@, other.normal@))
    }

    pub open spec fn coplanar_spec(self, other: Plane) -> bool {
        self.parallel_spec(other) && self.contains_spec(other.point@)
    }

    /// The intersection of two planes. Coplanar planes meet in the other
    /// plane. Otherwise, with `w = n1 . n2`, the two plane equations have
    /// the determinant `|n1|^2 |n2|^2 - w^2`; where it is not positive the
    /// planes are parallel and do not meet. Else they meet along the line
    /// with direction `n1 x n2` through the point `c1 n1 + c2 n2` that
    /// solves both equations, given in homogeneous form over the
    /// determinant.
    pub open spec fn intersection_spec(self, other: Plane) -> Option<PlaneIntersection> {
        let n1 = self.normal@;
        let n2 = other.normal@;
        let dir = cross(n1, n2);
        if self.coplanar_spec(other) {
            Some(PlaneIntersection::Plane(other))
        } else if plane_meet_determinant(self, other) <= 0 {
            None
        } else {
            let p = plane_meet_numerator(self, other);
            Some(
                PlaneIntersection::Line(
                    RatLine {
                        point: RatVec3 {
                            x: p.0 as i128,
                            y: p.1 as i128,
                            z: p.2 as i128,
                            w: plane_meet_determinant(self, other) as i128,
                        },
                        vec: Vec3 { x: dir.0 as i64, y: dir.1 as i64, z: dir.2 as i64 },
                    },
                ),
            )
        }
    }

    pub fn new(point: Vec3, normal: Vec3) -> (r: Plane)
        ensures
            r == (Plane { point, normal }),
    {
        Plane { point, normal }
    }

    /// The plane through three points, with normal `(a - b) x (a - c)`.
    pub fn from_points(a: Vec3, b: Vec3, c: Vec3) -> (r: Plane)
        requires
            a.in_range(),
            b.in_range(),
            c.in_range(),
        ensures
            r.point == a,
            r.normal@ == cross(vminus(a@, b@), vminus(a@, c@)),
    {
        let m = Ghost(COORD_MAX as int);
        let wa = widen(&a);
        let ab = wide_minus(&wa, &widen(&b), m);
        let ac = wide_minus(&wa, &widen(&c), m);
        let n = wide_cross(&ab, &ac, Ghost(33554432int), Ghost(33554432int));
        Plane { point: a, normal: Vec3 { x: n.x as i64, y: n.y as i64, z: n.z as i64 } }
    }

    /// `n . (p - a)` for a wide point `p`.
    fn offset_dot(&self, p: &Wide, Ghost(mp): Ghost<int>) -> (r: i128)
        requires
            self.wf(),
            0 <= mp <= 33554432,
            bounded(p@, mp),
        ensures
            r == dot(self.normal@, vminus(p@, self.point@)),
    {
        let off = wide_minus(p, &widen(&self.point), Ghost(33554432int));
        wide_dot(&widen(&self.normal), &off, Ghost(16777216int), Ghost(67108864int))
    }

    /// Checks whether `point` lies in the plane.
    pub fn contains(&self, point: Vec3) -> (r: bool)
        requires
            self.wf(),
            point.in_range(),
        ensures
            r == self.contains_spec(point@),
    {
        self.offset_dot(&widen(&point), Ghost(COORD_MAX as int)) == 0
    }

    /// Checks whether the whole line lies in the plane: its anchor and the
    /// point one direction step further.
    pub fn contains_line(&self, line: &Line) -> (r: bool)
        requires
            self.wf(),
            line.wf(),
        ensures
            r == (self.contains_spec(line.point@) && self.contains_spec(
                vplus(line.point@, line.vec@),
            )),
    {
        let m = Ghost(COORD_MAX as int);
        let a = widen(&line.point);
        let b = wide_plus(&a, &widen(&line.vec), m, m);
        self.offset_dot(&a, m) == 0 && self.offset_dot(&b, Ghost(33554432int)) == 0
    }

    /// Checks whether the normals are parallel or anti-parallel.
    pub fn parallel_to(&self, other: &Plane) -> (r: bool)
        requires
            self.wf(),
            other.wf(),
        ensures
            r == self.parallel_spec(*other),
    {
        let m = Ghost(COORD_MAX as int);
        wide_is_zero(&wide_cross(&widen(&self.normal), &widen(&other.normal), m, m))
    }

    /// Checks whether the planes are parallel and share a point.
    pub fn coplanar_with(&self, other: &Plane) -> (r: bool)
        requires
            self.wf(),
            other.wf(),
        ensures
            r == self.coplanar_spec(*other),
    {
        self.parallel_to(other) && self.contains(other.point)
    }

    /// Returns where the two planes meet, if anywhere.
    pub fn intersection(&self, other: &Plane) -> (r: Option<PlaneIntersection>)
        requires
            self.wf(),
            other.wf(),
        ensures
            r == self.intersection_spec(*other),
    {
        if self.coplanar_with(other) {
            return Some(PlaneIntersection::Plane(*other));
        }
        let m = Ghost(16777216int);
        let n1 = widen(&self.normal);
        let n2 = widen(&other.normal);
        let nn1 = wide_dot(&n1, &n1, m, m);
        let nn2 = wide_dot(&n2, &n2, m, m);
        let w = wide_dot(&n1, &n2, m, m);
        let d1 = wide_dot(&n1, &widen(&self.point), m, m);
        let d2 = wide_dot(&n2, &widen(&other.point), m, m);
        proof {
            lemma_meet_coefficient_bounds(d1 as int, d2 as int, nn1 as int, nn2 as int, w as int);
        }
        let den = nn1 * nn2 - w * w;
        if den <= 0 {
            return None;
        }
        let dir = wide_cross(&n1, &n2, m, m);
        let c1 = d1 * nn2 - d2 * w;
        let c2 = d2 * nn1 - d1 * w;
        let b4 = Ghost(1426106925256758076683791106048int);
        let p1 = wide_scale(&n1, c1, m, b4);
        let p2 = wide_scale(&n2, c2, m, b4);
        let p = wide_plus(&p1, &p2, Ghost(m@ * b4@), Ghost(m@ * b4@));
        Some(
            PlaneIntersection::Line(
                RatLine {
                    point: RatVec3 { x: p.x, y: p.y, z: p.z, w: den },
                    vec: Vec3 { x: dir.x as i64, y: dir.y as i64, z: dir.z as i64 },
                },
            ),
        )
    }
}

/// The determinant `|n1|^2 |n2|^2 - (n1 . n2)^2` of the two plane
/// equations.
pub open spec fn plane_meet_determinant(p1: Plane, p2: Plane) -> int {
    let n1 = p1.normal@;
    let n2 = p2.normal@;
    dot(n1, n1) * dot(n2, n2) - dot(n1, n2) * dot(n1, n2)
}

/// The numerator of the meeting point of two non-parallel planes:
/// `c1 n1 + c2 n2` with `c1 = d1 |n2|^2 - d2 (n1 . n2)` and
/// `c2 = d2 |n1|^2 - d1 (n1 . n2)`, where `di = ni . ai`.
pub open spec fn plane_meet_numerator(p1: Plane, p2: Plane) -> (int, int, int) {
    let n1 = p1.normal@;
    let n2 = p2.normal@;
    let d1 = dot(n1, p1.point@);
    let d2 = dot(n2, p2.point@);
    let w = dot(n1, n2);
    let c1 = d1 * dot(n2, n2) - d2 * w;
    let c2 = d2 * dot(n1, n1) - d1 * w;
    vplus(vscale(n1, c1), vscale(n2, c2))
}

proof fn lemma_coord_combination(a: int, b: int, c: int, s: int, t: int)
    by (nonlinear_arith)
    ensures
        a * (b * s + c * t) == s * (a * b) + t * (a * c),
{
}

proof fn lemma_dot_combination(a: (int, int, int), b: (int, int, int), c: (int, int, int), s: int, t: int)
    ensures
        dot(a, vplus(vscale(b, s), vscale(c, t))) == s * dot(a, b) + t * dot(a, c),
{
    lemma_coord_combination(a.0, b.0, c.0, s, t);
    lemma_coord_combination(a.1, b.1, c.1, s, t);
    lemma_coord_combination(a.2, b.2, c.2, s, t);
    assert(s * (a.0 * b.0) + s * (a.1 * b.1) + s * (a.2 * b.2) == s * dot(a, b)) by (nonlinear_arith);
    assert(t * (a.0 * c.0) + t * (a.1 * c.1) + t * (a.2 * c.2) == t * dot(a, c)) by (nonlinear_arith);
}

proof fn lemma_dot_commutes(a: (int, int, int), b: (int, int, int))
    ensures
        dot(a, b) == dot(b, a),
{
    assert(a.0 * b.0 == b.0 * a.0 && a.1 * b.1 == b.1 * a.1 && a.2 * b.2 == b.2 * a.2)
        by (nonlinear_arith);
}

proof fn lemma_meet_identity(d1: int, d2: int, nn1: int, nn2: int, w: int)
    ensures
        (d1 * nn2 - d2 * w) * nn1 + (d2 * nn1 - d1 * w) * w == d1 * (nn1 * nn2 - w * w),
        (d1 * nn2 - d2 * w) * w + (d2 * nn1 - d1 * w) * nn2 == d2 * (nn1 * nn2 - w * w),
{
    assert((d1 * nn2 - d2 * w) * nn1 == d1 * nn2 * nn1 - d2 * w * nn1) by (nonlinear_arith);
    assert((d2 * nn1 - d1 * w) * w == d2 * nn1 * w - d1 * w * w) by (nonlinear_arith);
    assert(d2 * w * nn1 == d2 * nn1 * w) by (nonlinear_arith);
    assert(d1 * (nn1 * nn2 - w * w) == d1 * nn2 * nn1 - d1 * w * w) by (nonlinear_arith);
    assert((d1 * nn2 - d2 * w) * w == d1 * nn2 * w - d2 * w * w) by (nonlinear_arith);
    assert((d2 * nn1 - d1 * w) * nn2 == d2 * nn1 * nn2 - d1 * w * nn2) by (nonlinear_arith);
    assert(d1 * nn2 * w == d1 * w * nn2) by (nonlinear_arith);
    assert(d2 * (nn1 * nn2 - w * w) == d2 * nn1 * nn2 - d2 * w * w) by (nonlinear_arith);
}

/// Where two planes meet along a line, the line lies in both: its point
/// satisfies both plane equations and its direction is orthogonal to both
/// normals.
pub proof fn lemma_planes_meet_in_line(p1: Plane, p2: Plane)
    requires
        p1.wf(),
        p2.wf(),
    ensures
        p1.intersection_spec(p2) matches Some(PlaneIntersection::Line(l)) ==> {
            let x = (l.point.x as int, l.point.y as int, l.point.z as int);
            &&& l.point.w > 0
            &&& dot(p1.normal@, x) == l.point.w * dot(p1.normal@, p1.point@)
            &&& dot(p2.normal@, x) == l.point.w * dot(p2.normal@, p2.point@)
            &&& dot(l.vec@, p1.normal@) == 0
            &&& dot(l.vec@, p2.normal@) == 0
        },
{
    let n1 = p1.normal@;
    let n2 = p2.normal@;
    let dir = cross(n1, n2);
    let d1 = dot(n1, p1.point@);
    let d2 = dot(n2, p2.point@);
    let nn1 = dot(n1, n1);
    let nn2 = dot(n2, n2);
    let w = dot(n1, n2);
    let c1 = d1 * nn2 - d2 * w;
    let c2 = d2 * nn1 - d1 * w;
    let m = 16777216int;
    lemma_cross_bound(n1, n2, m, m);
    lemma_dot_bound(n1, p1.point@, m, m);
    lemma_dot_bound(n2, p2.point@, m, m);
    lemma_dot_bound(n1, n1, m, m);
    lemma_dot_bound(n2, n2, m, m);
    lemma_dot_bound(n1, n2, m, m);
    lemma_meet_coefficient_bounds(d1, d2, nn1, nn2, w);
    lemma_scale_bound(n1, c1, m, 1426106925256758076683791106048);
    lemma_scale_bound(n2, c2, m, 1426106925256758076683791106048);
    lemma_dot_combination(n1, n1, n2, c1, c2);
    lemma_dot_combination(n2, n1, n2, c1, c2);
    lemma_meet_identity(d1, d2, nn1, nn2, w);
    lemma_dot_commutes(n2, n1);
    lemma_cross_orthogonal(n1, n2);
    let det = plane_meet_determinant(p1, p2);
    let x = plane_meet_numerator(p1, p2);
    assert(dot(n1, x) == c1 * nn1 + c2 * w);
    assert(dot(n2, x) == c1 * w + c2 * nn2);
    assert(d1 * det == det * d1 && d2 * det == det * d2) by (nonlinear_arith);
    assert(dot(n1, x) == det * d1);
    assert(dot(n2, x) == det * d2);
}

proof fn lemma_meet_coefficient_bounds(d1: int, d2: int, nn1: int, nn2: int, w: int)
    requires
        -844424930131968 <= d1 <= 844424930131968,
        -844424930131968 <= d2 <= 844424930131968,
        -844424930131968 <= nn1 <= 844424930131968,
        -844424930131968 <= nn2 <= 844424930131968,
        -844424930131968 <= w <= 844424930131968,
    ensures
        -713053462628379038341895553024 <= d1 * nn2 <= 713053462628379038341895553024,
        -713053462628379038341895553024 <= d2 * w <= 713053462628379038341895553024,
        -713053462628379038341895553024 <= d2 * nn1 <= 713053462628379038341895553024,
        -713053462628379038341895553024 <= d1 * w <= 713053462628379038341895553024,
        -713053462628379038341895553024 <= nn1 * nn2 <= 713053462628379038341895553024,
        -713053462628379038341895553024 <= w * w <= 713053462628379038341895553024,
{
    lemma_mul_bound_pos(nn1, nn2);
    lemma_mul_bound_pos(w, w);
    lemma_mul_bound_pos(d1, nn2);
    lemma_mul_bound_pos(d2, w);
    lemma_mul_bound_pos(d2, nn1);
    lemma_mul_bound_pos(d1, w);
}

proof fn lemma_mul_bound_pos(a: int, b: int)
    requires
        -844424930131968 <= a <= 844424930131968,
        -844424930131968 <= b <= 844424930131968,
    ensures
        -713053462628379038341895553024 <= a * b <= 713053462628379038341895553024,
{
    crate::geo::vector::lemma_mul_bound(a, b, 844424930131968, 844424930131968);
}

} // verus!
