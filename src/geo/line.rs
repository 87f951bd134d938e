//! Lines in space: containment, parallelism and intersection, decided
//! exactly on grid coordinates.
use vstd::prelude::*;
use crate::geo::vector::{
    COORD_MAX, Vec3, RatVec3, SquareRoot, vminus, vplus, vscale, dot, cross, is_zero, bounded,
    widen, wide_minus, wide_plus, wide_scale, wide_dot, wide_cross, wide_is_zero, lemma_cross_scale_right,
    lemma_cross_minus_right, lemma_cross_self, lemma_cross_antisym, lemma_cross_orthogonal,
    lemma_dot_scale, lemma_scale_zero, lemma_norm_positive, lemma_cross_bound, lemma_dot_bound,
    lemma_scale_bound, lemma_scale_of_zero, lemma_triple_cyclic,
};

verus! {

/// A line through `point` along `vec`. The direction is never normalised:
/// directions are compared by parallelism only.
#[derive(Clone, Copy, Debug, PartialEq, Eq, Structural)]
pub struct Line {
    pub point: Vec3,
    pub vec: Vec3,
}

/// Where two lines meet: in a single point, or everywhere when they are the
/// same line.
#[derive(Clone, Copy, Debug, PartialEq, Eq, Structural)]
pub enum LineIntersection {
    Point(RatVec3),
    Line(Line),
}

/// A line segment from `point` to `point + vec`.
#[derive(Clone, Copy, Debug, PartialEq, Eq, Structural)]
pub struct LineSegment {
    pub point: Vec3,
    pub vec: Vec3,
}

/// Where two segments meet.
#[derive(Clone, Copy, Debug, PartialEq, Eq, Structural)]
pub enum LineSegmentIntersection {
    Point(RatVec3),
    LineSegment(LineSegment),
}

/// `p` lies on the line through `a` along `d`: the offset from the anchor is
/// parallel to the direction (the anchor itself always lies on the line).
pub open spec fn on_line(a: (int, int, int), d: (int, int, int), p: (int, int, int)) -> bool {
    is_zero(cross(d, vminus(p, a)))
}

impl Line {
    /// Both the anchor and the direction are within the kernel's range.
    pub open spec fn wf(self) -> bool {
        self.point.in_range() && self.vec.in_range()
    }

    pub open spec fn contains_spec(self, p: (int, int, int)) -> bool {
        on_line(self.point@, self.vec@, p)
    }

    pub open spec fn parallel_spec(self, other: Line) -> bool {
        is_zero(cross(self.vec@, other.vec@))
    }

    /// The intersection of two lines.
    ///
    /// When one anchor lies on the other line the lines are the same line
    /// if they are parallel, and otherwise meet at that shared anchor. Lines
    /// that are not coplanar are skew and do not meet. Otherwise, with
    /// `g = a1 - a2`, `h = d2 x g` and `k = d1 x d2`, the lines meet at
    /// `a1 + d1 * (h . k) / (k . k)`: solving `a1 + t d1 == a2 + s d2` for
    /// `t` gives `t k == h`, and `h` and `k` are parallel here, so this is
    /// `a1 + d1 * |h| / |k|` signed by `h . k`. It is none when `h` or `k` is
    /// zero.
    pub open spec fn intersection_spec(self, other: Line) -> Option<LineIntersection> {
        let a1 = self.point@;
        let a2 = other.point@;
        let d1 = self.vec@;
        let d2 = other.vec@;
        if other.contains_spec(a1) || self.contains_spec(a2) {
            if self.parallel_spec(other) {
                Some(LineIntersection::Line(other))
            } else if other.contains_spec(a1) {
                Some(LineIntersection::Point(RatVec3::from_grid_spec(self.point)))
            } else {
                Some(LineIntersection::Point(RatVec3::from_grid_spec(other.point)))
            }
        } else {
            let g = vminus(a1, a2);
            let k = cross(d1, d2);
            let h = cross(d2, g);
            if dot(k, g) != 0 || is_zero(h) || is_zero(k) {
                None
            } else {
                let hk = dot(h, k);
                let w = dot(k, k);
                Some(
                    LineIntersection::Point(
                        RatVec3 {
                            x: (a1.0 * w + d1.0 * hk) as i128,
                            y: (a1.1 * w + d1.1 * hk) as i128,
                            z: (a1.2 * w + d1.2 * hk) as i128,
                            w: w as i128,
                        },
                    ),
                )
            }
        }
    }

    pub fn new(point: Vec3, vec: Vec3) -> (r: Line)
        ensures
            r == (Line { point, vec }),
    {
        Line { point, vec }
    }

    /// Checks whether `point` lies on the line.
    pub fn contains(&self, point: Vec3) -> (r: bool)
        requires
            self.wf(),
            point.in_range(),
        ensures
            r == self.contains_spec(point@),
    {
        let m = Ghost(COORD_MAX as int);
        let d = widen(&self.vec);
        let offset = wide_minus(&widen(&point), &widen(&self.point), m);
        let c = wide_cross(&d, &offset, m, Ghost(33554432int));
        wide_is_zero(&c)
    }

    /// Checks whether the two lines run in the same or opposite direction.
    pub fn parallel_to(&self, line: &Line) -> (r: bool)
        requires
            self.wf(),
            line.wf(),
        ensures
            r == self.parallel_spec(*line),
    {
        let m = Ghost(COORD_MAX as int);
        let c = wide_cross(&widen(&self.vec), &widen(&line.vec), m, m);
        wide_is_zero(&c)
    }

    /// Returns where the two lines meet, if anywhere.
    pub fn intersection(&self, other: &Line) -> (r: Option<LineIntersection>)
        requires
            self.wf(),
            other.wf(),
        ensures
            r == self.intersection_spec(*other),
    {
        let in_other = other.contains(self.point);
        if in_other || self.contains(other.point) {
            if self.parallel_to(other) {
                return Some(LineIntersection::Line(*other));
            }
            if in_other {
                return Some(LineIntersection::Point(RatVec3::from_grid(self.point)));
            }
            return Some(LineIntersection::Point(RatVec3::from_grid(other.point)));
        }
        let b = Ghost(16777216int);
        let a1 = widen(&self.point);
        let d1 = widen(&self.vec);
        let d2 = widen(&other.vec);
        let g = wide_minus(&a1, &widen(&other.point), b);
        let k = wide_cross(&d1, &d2, b, b);
        let triple = wide_dot(&k, &g, Ghost(562949953421312int), Ghost(33554432int));
        if triple != 0 {
            return None;
        }
        let h = wide_cross(&d2, &g, b, Ghost(33554432int));
        if wide_is_zero(&h) || wide_is_zero(&k) {
            return None;
        }
        let hk = wide_dot(&h, &k, Ghost(1125899906842624int), Ghost(562949953421312int));
        let w = wide_dot(&k, &k, Ghost(562949953421312int), Ghost(562949953421312int));
        let b4 = Ghost(950737950171172051122527404032int);
        let b5 = Ghost(1901475900342344102245054808064int);
        let base = wide_scale(&a1, w, b, b4);
        let step = wide_scale(&d1, hk, b, b5);
        let p = wide_plus(&base, &step, Ghost(b@ * b4@), Ghost(b@ * b5@));
        Some(LineIntersection::Point(RatVec3 { x: p.x, y: p.y, z: p.z, w }))
    }
}

/// The quantities of the closed form stay within 128 bits for lines in range.
proof fn lemma_intersection_bounds(l1: Line, l2: Line)
    requires
        l1.wf(),
        l2.wf(),
    ensures
        ({
            let g = vminus(l1.point@, l2.point@);
            let k = cross(l1.vec@, l2.vec@);
            let h = cross(l2.vec@, g);
            let hk = dot(h, k);
            let w = dot(k, k);
            &&& -950737950171172051122527404032 <= w <= 950737950171172051122527404032
            &&& bounded(vplus(vscale(l1.point@, w), vscale(l1.vec@, hk)), 16777216int * 950737950171172051122527404032 + 16777216int * 1901475900342344102245054808064)
        }),
{
    let g = vminus(l1.point@, l2.point@);
    let k = cross(l1.vec@, l2.vec@);
    let h = cross(l2.vec@, g);
    let hk = dot(h, k);
    let w = dot(k, k);
    lemma_cross_bound(l1.vec@, l2.vec@, 16777216, 16777216);
    lemma_cross_bound(l2.vec@, g, 16777216, 33554432);
    lemma_dot_bound(h, k, 1125899906842624, 562949953421312);
    lemma_dot_bound(k, k, 562949953421312, 562949953421312);
    lemma_scale_bound(l1.point@, w, 16777216, 950737950171172051122527404032);
    lemma_scale_bound(l1.vec@, hk, 16777216, 1901475900342344102245054808064);
}

/// The meeting point of two lines through `a1 + (tn / td) d1 == a2 + (sn / td) d2`,
/// taken in the order `l1`, `l2`.
proof fn lemma_meeting_one_way(l1: Line, l2: Line, tn: int, sn: int, td: int)
    requires
        l1.wf(),
        l2.wf(),
        td > 0,
        !l1.parallel_spec(l2),
        vplus(vscale(l1.point@, td), vscale(l1.vec@, tn)) == vplus(vscale(l2.point@, td), vscale(l2.vec@, sn)),
    ensures
        l1.intersection_spec(l2) matches Some(LineIntersection::Point(p))
            && p.same_as(vplus(vscale(l1.point@, td), vscale(l1.vec@, tn)), td),
{
    let a1 = l1.point@;
    let a2 = l2.point@;
    let d1 = l1.vec@;
    let d2 = l2.vec@;
    let g = vminus(a1, a2);
    let f = vminus(a2, a1);
    let k = cross(d1, d2);
    let x = vplus(vscale(a1, td), vscale(d1, tn));
    let u = vscale(d1, tn);
    let v = vscale(d2, sn);
    // td (a1 - a2) == sn d2 - tn d1, and td (a2 - a1) == tn d1 - sn d2
    assert(vscale(g, td) == vminus(v, u) && vscale(f, td) == vminus(u, v)) by {
        assert((a1.0 - a2.0) * td == a1.0 * td - a2.0 * td) by (nonlinear_arith);
        assert((a1.1 - a2.1) * td == a1.1 * td - a2.1 * td) by (nonlinear_arith);
        assert((a1.2 - a2.2) * td == a1.2 * td - a2.2 * td) by (nonlinear_arith);
        assert((a2.0 - a1.0) * td == a2.0 * td - a1.0 * td) by (nonlinear_arith);
        assert((a2.1 - a1.1) * td == a2.1 * td - a1.1 * td) by (nonlinear_arith);
        assert((a2.2 - a1.2) * td == a2.2 * td - a1.2 * td) by (nonlinear_arith);
    }
    lemma_cross_self(d1);
    lemma_cross_self(d2);
    lemma_cross_antisym(d1, d2);
    // td (d2 x g) == tn k
    let h = cross(d2, g);
    lemma_cross_scale_right(d2, g, td);
    lemma_cross_minus_right(d2, v, u);
    lemma_cross_scale_right(d2, d2, sn);
    lemma_cross_scale_right(d2, d1, tn);
    lemma_scale_of_zero(cross(d2, d2), sn);
    assert(vscale(vscale(k, -1), tn) == vscale(k, -tn)) by (nonlinear_arith);
    assert(vminus((0int, 0int, 0int), vscale(k, -tn)) == vscale(k, tn)) by (nonlinear_arith);
    assert(vscale(h, td) == vscale(k, tn));
    // td (d1 x (a2 - a1)) == -sn k
    lemma_cross_scale_right(d1, f, td);
    lemma_cross_minus_right(d1, u, v);
    lemma_cross_scale_right(d1, d1, tn);
    lemma_cross_scale_right(d1, d2, sn);
    lemma_scale_of_zero(cross(d1, d1), tn);
    assert(vminus((0int, 0int, 0int), vscale(k, sn)) == vscale(k, -sn)) by (nonlinear_arith);
    assert(vscale(cross(d1, f), td) == vscale(k, -sn));
    assert(!is_zero(k));
    if l2.contains_spec(a1) {
        // the meeting point is a1
        lemma_scale_of_zero(h, td);
        assert(tn == 0) by {
            if tn != 0 {
                lemma_scale_zero(k, tn);
            }
        }
        assert(u == (0int, 0int, 0int)) by (nonlinear_arith)
            requires
                u == vscale(d1, tn),
                tn == 0,
        ;
        assert(l1.intersection_spec(l2) == Some(
            LineIntersection::Point(RatVec3::from_grid_spec(l1.point)),
        ));
    } else if l1.contains_spec(a2) {
        // the meeting point is a2
        lemma_scale_of_zero(cross(d1, f), td);
        assert(sn == 0) by {
            if sn != 0 {
                lemma_scale_zero(k, -sn);
            }
        }
        assert(v == (0int, 0int, 0int)) by (nonlinear_arith)
            requires
                v == vscale(d2, sn),
                sn == 0,
        ;
        assert(l1.intersection_spec(l2) == Some(
            LineIntersection::Point(RatVec3::from_grid_spec(l2.point)),
        ));
        assert(x == vscale(a2, td));
    } else {
        assert(tn != 0) by {
            if tn == 0 {
                assert(vscale(k, tn) == (0int, 0int, 0int)) by (nonlinear_arith)
                    requires
                        tn == 0,
                ;
                lemma_scale_zero(h, td);
            }
        }
        assert(!is_zero(vscale(k, tn))) by {
            if is_zero(vscale(k, tn)) {
                lemma_scale_zero(k, tn);
            }
        }
        // the lines are coplanar
        lemma_cross_orthogonal(d1, d2);
        lemma_dot_scale(k, g, td);
        lemma_dot_minus(k, v, u);
        lemma_dot_scale(k, d2, sn);
        lemma_dot_scale(k, d1, tn);
        assert(sn * dot(k, d2) == 0 && tn * dot(k, d1) == 0) by (nonlinear_arith)
            requires
                dot(k, d2) == 0,
                dot(k, d1) == 0,
        ;
        assert(td * dot(k, g) == 0);
        assert(dot(k, g) == 0) by (nonlinear_arith)
            requires
                td * dot(k, g) == 0,
                td > 0,
        ;
        assert(!is_zero(h)) by {
            if is_zero(h) {
                lemma_scale_of_zero(h, td);
            }
        }
        let hk = dot(h, k);
        let w = dot(k, k);
        lemma_norm_positive(k);
        lemma_dot_scale(h, k, td);
        lemma_dot_scale(k, k, tn);
        assert(td * hk == tn * w);
        lemma_intersection_bounds(l1, l2);
        lemma_rescale(a1.0, d1.0, w, hk, td, tn);
        lemma_rescale(a1.1, d1.1, w, hk, td, tn);
        lemma_rescale(a1.2, d1.2, w, hk, td, tn);
    }
}

proof fn lemma_dot_minus(a: (int, int, int), b: (int, int, int), c: (int, int, int))
    ensures
        dot(a, vminus(b, c)) == dot(a, b) - dot(a, c),
{
    assert(a.0 * (b.0 - c.0) == a.0 * b.0 - a.0 * c.0) by (nonlinear_arith);
    assert(a.1 * (b.1 - c.1) == a.1 * b.1 - a.1 * c.1) by (nonlinear_arith);
    assert(a.2 * (b.2 - c.2) == a.2 * b.2 - a.2 * c.2) by (nonlinear_arith);
}

proof fn lemma_rescale(a: int, d: int, w: int, hk: int, td: int, tn: int)
    by (nonlinear_arith)
    requires
        td * hk == tn * w,
    ensures
        (a * w + d * hk) * td == (a * td + d * tn) * w,
{
}

/// Two lines that are not parallel and pass through one point
/// `a1 + (tn / td) d1 == a2 + (sn / td) d2` meet in exactly that point,
/// whichever line is asked first.
pub proof fn lemma_meeting_lines(l1: Line, l2: Line, tn: int, sn: int, td: int)
    requires
        l1.wf(),
        l2.wf(),
        td > 0,
        !l1.parallel_spec(l2),
        vplus(vscale(l1.point@, td), vscale(l1.vec@, tn)) == vplus(vscale(l2.point@, td), vscale(l2.vec@, sn)),
    ensures
        l1.intersection_spec(l2) matches Some(LineIntersection::Point(p))
            && p.same_as(vplus(vscale(l1.point@, td), vscale(l1.vec@, tn)), td),
        l2.intersection_spec(l1) matches Some(LineIntersection::Point(q))
            && q.same_as(vplus(vscale(l1.point@, td), vscale(l1.vec@, tn)), td),
{
    lemma_cross_antisym(l1.vec@, l2.vec@);
    assert(!l2.parallel_spec(l1)) by {
        if l2.parallel_spec(l1) {
            lemma_scale_zero(cross(l1.vec@, l2.vec@), -1);
        }
    }
    lemma_meeting_one_way(l1, l2, tn, sn, td);
    lemma_meeting_one_way(l2, l1, sn, tn, td);
}

/// A line's anchor lying on another line makes the triple product of the
/// two directions and the anchor offset vanish.
proof fn lemma_touch_coplanar(l1: Line, l2: Line)
    requires
        l2.contains_spec(l1.point@) || l1.contains_spec(l2.point@),
    ensures
        dot(cross(l1.vec@, l2.vec@), vminus(l1.point@, l2.point@)) == 0,
{
    let d1 = l1.vec@;
    let d2 = l2.vec@;
    let g = vminus(l1.point@, l2.point@);
    let f = vminus(l2.point@, l1.point@);
    let k = cross(d1, d2);
    lemma_dot_zero(d1);
    lemma_dot_zero(d2);
    lemma_dot_zero(k);
    lemma_dot_minus(k, (0int, 0int, 0int), g);
    assert(f == vminus((0int, 0int, 0int), g));
    if l2.contains_spec(l1.point@) {
        // (d1 x d2) . g == (d2 x g) . d1 == 0
        lemma_triple_cyclic(d1, d2, g);
        lemma_dot_commutes(cross(d2, g), d1);
    } else {
        // (d1 x d2) . f == (d2 x f) . d1 == (f x d1) . d2 == 0
        lemma_triple_cyclic(d1, d2, f);
        lemma_triple_cyclic(d2, f, d1);
        lemma_cross_antisym(d1, f);
        lemma_scale_of_zero(cross(d1, f), -1);
        lemma_dot_commutes(cross(f, d1), d2);
    }
}

/// Every dot product with the zero vector is zero.
proof fn lemma_dot_zero(a: (int, int, int))
    ensures
        dot(a, (0int, 0int, 0int)) == 0,
        dot((0int, 0int, 0int), a) == 0,
{
    assert(dot(a, (0int, 0int, 0int)) == 0) by (nonlinear_arith);
    assert(dot((0int, 0int, 0int), a) == 0) by (nonlinear_arith);
}

proof fn lemma_dot_commutes(a: (int, int, int), b: (int, int, int))
    ensures
        dot(a, b) == dot(b, a),
{
    assert(a.0 * b.0 == b.0 * a.0 && a.1 * b.1 == b.1 * a.1 && a.2 * b.2 == b.2 * a.2)
        by (nonlinear_arith);
}

/// Skew lines, whose directions and anchor offset have a non-zero triple
/// product `(d1 x d2) . (a1 - a2)`, do not meet, whichever line is asked
/// first.
pub proof fn lemma_skew_lines(l1: Line, l2: Line)
    requires
        dot(cross(l1.vec@, l2.vec@), vminus(l1.point@, l2.point@)) != 0,
    ensures
        l1.intersection_spec(l2) is None,
        l2.intersection_spec(l1) is None,
{
    let d1 = l1.vec@;
    let d2 = l2.vec@;
    let g = vminus(l1.point@, l2.point@);
    let f = vminus(l2.point@, l1.point@);
    if l2.contains_spec(l1.point@) || l1.contains_spec(l2.point@) {
        lemma_touch_coplanar(l1, l2);
    }
    // the same triple product, seen from the second line
    lemma_cross_antisym(d1, d2);
    lemma_dot_scale(cross(d1, d2), f, -1);
    lemma_dot_minus(cross(d1, d2), (0int, 0int, 0int), g);
    assert(f == vminus((0int, 0int, 0int), g));
    lemma_dot_zero(cross(d1, d2));
    assert(dot(cross(d2, d1), f) == dot(cross(d1, d2), g)) by {
        assert(dot(vscale(cross(d1, d2), -1), f) == -1 * dot(cross(d1, d2), f));
    }
    if l1.contains_spec(l2.point@) || l2.contains_spec(l1.point@) {
        lemma_touch_coplanar(l2, l1);
    }
}

/// Lines whose directions are proportional (`m d2 == n d1`, both factors
/// non-zero) are parallel, in either order.
pub proof fn lemma_proportional_parallel(l1: Line, l2: Line, m: int, n: int)
    requires
        m != 0,
        n != 0,
        vscale(l2.vec@, m) == vscale(l1.vec@, n),
    ensures
        l1.parallel_spec(l2),
        l2.parallel_spec(l1),
{
    let d1 = l1.vec@;
    let d2 = l2.vec@;
    lemma_cross_scale_right(d1, d2, m);
    lemma_cross_scale_right(d1, d1, n);
    lemma_cross_self(d1);
    lemma_scale_zero(cross(d1, d2), m);
    lemma_cross_antisym(d1, d2);
}

impl RatVec3 {
    pub open spec fn from_grid_spec(p: Vec3) -> RatVec3 {
        RatVec3 { x: p.x as i128, y: p.y as i128, z: p.z as i128, w: 1 }
    }
}

impl LineIntersection {
    pub fn is_point(&self) -> (r: bool)
        ensures
            r == (*self is Point),
    {
        match self {
            LineIntersection::Point(_) => true,
            _ => false,
        }
    }

    pub fn point(&self) -> (r: Option<RatVec3>)
        ensures
            r == match *self {
                LineIntersection::Point(p) => Some(p),
                _ => None,
            },
    {
        match self {
            LineIntersection::Point(point) => Some(*point),
            _ => None,
        }
    }
}

impl LineSegment {
    pub fn new(point: Vec3, vec: Vec3) -> (r: LineSegment)
        ensures
            r == (LineSegment { point, vec }),
    {
        LineSegment { point, vec }
    }

    /// Returns the exact length of the segment.
    pub fn length(&self) -> (r: SquareRoot)
        requires
            self.vec.in_range(),
        ensures
            r.num == dot(self.vec@, self.vec@),
            r.den == 1,
    {
        let m = Ghost(COORD_MAX as int);
        let v = widen(&self.vec);
        SquareRoot { num: wide_dot(&v, &v, m, m), den: 1 }
    }

}

/// The line that carries a segment.
impl From<LineSegment> for Line {
    fn from(segment: LineSegment) -> (r: Line) {
        Line::new(segment.point, segment.vec)
    }
}

impl vstd::std_specs::convert::FromSpecImpl<LineSegment> for Line {
    open spec fn obeys_from_spec() -> bool {
        true
    }

    open spec fn from_spec(segment: LineSegment) -> Line {
        Line { point: segment.point, vec: segment.vec }
    }
}

} // verus!
