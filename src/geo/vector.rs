//! Grid points and vectors, exact rational points, and the vector algebra
//! the kernel is stated in.
use vstd::prelude::*;

verus! {

/// Largest magnitude of a coordinate accepted by the line and plane kernel,
/// chosen so that every intermediate product fits in 128 bits.
pub const COORD_MAX: i64 = 16777216;

/// A point or a vector with integer coordinates on the world grid.
#[derive(Clone, Copy, Debug, Default, PartialEq, Eq, Structural)]
pub struct Vec3 {
    pub x: i64,
    pub y: i64,
    pub z: i64,
}

/// A point in homogeneous coordinates: `(x / w, y / w, z / w)` with `w > 0`.
#[derive(Clone, Copy, Debug, PartialEq, Eq, Structural)]
pub struct RatVec3 {
    pub x: i128,
    pub y: i128,
    pub z: i128,
    pub w: i128,
}

/// The exact non-negative square root of `num / den`.
#[derive(Clone, Copy, Debug, PartialEq, Eq, Structural)]
pub struct SquareRoot {
    pub num: i128,
    pub den: i128,
}

impl View for Vec3 {
    type V = (int, int, int);

    open spec fn view(&self) -> (int, int, int) {
        (self.x as int, self.y as int, self.z as int)
    }
}

pub open spec fn vplus(a: (int, int, int), b: (int, int, int)) -> (int, int, int) {
    (a.0 + b.0, a.1 + b.1, a.2 + b.2)
}

pub open spec fn vminus(a: (int, int, int), b: (int, int, int)) -> (int, int, int) {
    (a.0 - b.0, a.1 - b.1, a.2 - b.2)
}

pub open spec fn vscale(a: (int, int, int), s: int) -> (int, int, int) {
    (a.0 * s, a.1 * s, a.2 * s)
}

pub open spec fn dot(a: (int, int, int), b: (int, int, int)) -> int {
    a.0 * b.0 + a.1 * b.1 + a.2 * b.2
}

pub open spec fn cross(a: (int, int, int), b: (int, int, int)) -> (int, int, int) {
    (a.1 * b.2 - a.2 * b.1, a.2 * b.0 - a.0 * b.2, a.0 * b.1 - a.1 * b.0)
}

pub open spec fn is_zero(a: (int, int, int)) -> bool {
    a == (0int, 0int, 0int)
}

/// Every coordinate lies within `[-m, m]`.
pub open spec fn bounded(a: (int, int, int), m: int) -> bool {
    &&& -m <= a.0 <= m
    &&& -m <= a.1 <= m
    &&& -m <= a.2 <= m
}

impl Vec3 {
    /// The coordinates are within the range that the kernel accepts.
    pub open spec fn in_range(self) -> bool {
        bounded(self@, COORD_MAX as int)
    }

    pub fn new(x: i64, y: i64, z: i64) -> (r: Vec3)
        ensures
            r@ == (x as int, y as int, z as int),
    {
        Vec3 { x, y, z }
    }
}

impl RatVec3 {
    /// The point is the grid point `p` scaled by the denominator.
    pub open spec fn denotes(self, p: (int, int, int)) -> bool {
        &&& self.w > 0
        &&& self.x == p.0 * self.w
        &&& self.y == p.1 * self.w
        &&& self.z == p.2 * self.w
    }

    /// The point equals the rational point `p / d`.
    pub open spec fn same_as(self, p: (int, int, int), d: int) -> bool {
        &&& self.w > 0
        &&& self.x * d == p.0 * self.w
        &&& self.y * d == p.1 * self.w
        &&& self.z * d == p.2 * self.w
    }

    /// The grid point `p` as a rational point with denominator one.
    pub fn from_grid(p: Vec3) -> (r: RatVec3)
        ensures
            r == (RatVec3 { x: p.x as i128, y: p.y as i128, z: p.z as i128, w: 1 }),
            r.denotes(p@),
    {
        RatVec3 { x: p.x as i128, y: p.y as i128, z: p.z as i128, w: 1 }
    }
}

/// A wide vector used for intermediate products.
#[derive(Clone, Copy)]
pub struct Wide {
    pub x: i128,
    pub y: i128,
    pub z: i128,
}

impl View for Wide {
    type V = (int, int, int);

    open spec fn view(&self) -> (int, int, int) {
        (self.x as int, self.y as int, self.z as int)
    }
}

pub proof fn lemma_mul_bound(a: int, b: int, ma: int, mb: int)
    by (nonlinear_arith)
    requires
        -ma <= a <= ma,
        -mb <= b <= mb,
    ensures
        -(ma * mb) <= a * b <= ma * mb,
{
}

pub proof fn lemma_cross_bound(a: (int, int, int), b: (int, int, int), ma: int, mb: int)
    requires
        bounded(a, ma),
        bounded(b, mb),
    ensures
        bounded(cross(a, b), 2 * (ma * mb)),
{
    lemma_mul_bound(a.0, b.1, ma, mb);
    lemma_mul_bound(a.0, b.2, ma, mb);
    lemma_mul_bound(a.1, b.0, ma, mb);
    lemma_mul_bound(a.1, b.2, ma, mb);
    lemma_mul_bound(a.2, b.0, ma, mb);
    lemma_mul_bound(a.2, b.1, ma, mb);
}

pub proof fn lemma_dot_bound(a: (int, int, int), b: (int, int, int), ma: int, mb: int)
    requires
        bounded(a, ma),
        bounded(b, mb),
    ensures
        -(3 * (ma * mb)) <= dot(a, b) <= 3 * (ma * mb),
{
    lemma_mul_bound(a.0, b.0, ma, mb);
    lemma_mul_bound(a.1, b.1, ma, mb);
    lemma_mul_bound(a.2, b.2, ma, mb);
}

pub proof fn lemma_scale_bound(a: (int, int, int), s: int, ma: int, ms: int)
    requires
        bounded(a, ma),
        -ms <= s <= ms,
    ensures
        bounded(vscale(a, s), ma * ms),
{
    lemma_mul_bound(a.0, s, ma, ms);
    lemma_mul_bound(a.1, s, ma, ms);
    lemma_mul_bound(a.2, s, ma, ms);
}

pub(crate) fn widen(a: &Vec3) -> (r: Wide)
    ensures
        r@ == a@,
{
    Wide { x: a.x as i128, y: a.y as i128, z: a.z as i128 }
}

pub(crate) fn wide_minus(a: &Wide, b: &Wide, Ghost(m): Ghost<int>) -> (r: Wide)
    requires
        bounded(a@, m),
        bounded(b@, m),
        2 * m <= i128::MAX,
    ensures
        r@ == vminus(a@, b@),
        bounded(r@, 2 * m),
{
    Wide { x: a.x - b.x, y: a.y - b.y, z: a.z - b.z }
}

pub(crate) fn wide_plus(a: &Wide, b: &Wide, Ghost(ma): Ghost<int>, Ghost(mb): Ghost<int>) -> (r: Wide)
    requires
        bounded(a@, ma),
        bounded(b@, mb),
        ma + mb <= i128::MAX,
    ensures
        r@ == vplus(a@, b@),
        bounded(r@, ma + mb),
{
    Wide { x: a.x + b.x, y: a.y + b.y, z: a.z + b.z }
}

pub(crate) fn wide_scale(a: &Wide, s: i128, Ghost(ma): Ghost<int>, Ghost(ms): Ghost<int>) -> (r: Wide)
    requires
        bounded(a@, ma),
        -ms <= s <= ms,
        ma * ms <= i128::MAX,
    ensures
        r@ == vscale(a@, s as int),
        bounded(r@, ma * ms),
{
    proof {
        lemma_mul_bound(a.x as int, s as int, ma, ms);
        lemma_mul_bound(a.y as int, s as int, ma, ms);
        lemma_mul_bound(a.z as int, s as int, ma, ms);
    }
    Wide { x: a.x * s, y: a.y * s, z: a.z * s }
}

pub(crate) fn wide_dot(a: &Wide, b: &Wide, Ghost(ma): Ghost<int>, Ghost(mb): Ghost<int>) -> (r: i128)
    requires
        bounded(a@, ma),
        bounded(b@, mb),
        3 * (ma * mb) <= i128::MAX,
    ensures
        r == dot(a@, b@),
        -(3 * (ma * mb)) <= r <= 3 * (ma * mb),
{
    proof {
        lemma_mul_bound(a.x as int, b.x as int, ma, mb);
        lemma_mul_bound(a.y as int, b.y as int, ma, mb);
        lemma_mul_bound(a.z as int, b.z as int, ma, mb);
        let m = ma * mb;
        assert(-(3 * m) <= a.x * b.x + a.y * b.y + a.z * b.z <= 3 * m);
    }
    a.x * b.x + a.y * b.y + a.z * b.z
}

pub(crate) fn wide_cross(a: &Wide, b: &Wide, Ghost(ma): Ghost<int>, Ghost(mb): Ghost<int>) -> (r: Wide)
    requires
        bounded(a@, ma),
        bounded(b@, mb),
        2 * (ma * mb) <= i128::MAX,
    ensures
        r@ == cross(a@, b@),
        bounded(r@, 2 * (ma * mb)),
{
    proof {
        lemma_mul_bound(a.x as int, b.y as int, ma, mb);
        lemma_mul_bound(a.x as int, b.z as int, ma, mb);
        lemma_mul_bound(a.y as int, b.x as int, ma, mb);
        lemma_mul_bound(a.y as int, b.z as int, ma, mb);
        lemma_mul_bound(a.z as int, b.x as int, ma, mb);
        lemma_mul_bound(a.z as int, b.y as int, ma, mb);
    }
    Wide { x: a.y * b.z - a.z * b.y, y: a.z * b.x - a.x * b.z, z: a.x * b.y - a.y * b.x }
}

pub(crate) fn wide_is_zero(a: &Wide) -> (r: bool)
    ensures
        r == is_zero(a@),
{
    a.x == 0 && a.y == 0 && a.z == 0
}

pub proof fn lemma_cross_scale_right(a: (int, int, int), b: (int, int, int), s: int)
    ensures
        cross(a, vscale(b, s)) == vscale(cross(a, b), s),
{
    assert(a.1 * (b.2 * s) - a.2 * (b.1 * s) == (a.1 * b.2 - a.2 * b.1) * s) by (nonlinear_arith);
    assert(a.2 * (b.0 * s) - a.0 * (b.2 * s) == (a.2 * b.0 - a.0 * b.2) * s) by (nonlinear_arith);
    assert(a.0 * (b.1 * s) - a.1 * (b.0 * s) == (a.0 * b.1 - a.1 * b.0) * s) by (nonlinear_arith);
}

pub proof fn lemma_cross_minus_right(a: (int, int, int), b: (int, int, int), c: (int, int, int))
    ensures
        cross(a, vminus(b, c)) == vminus(cross(a, b), cross(a, c)),
{
    assert(a.1 * (b.2 - c.2) == a.1 * b.2 - a.1 * c.2) by (nonlinear_arith);
    assert(a.2 * (b.1 - c.1) == a.2 * b.1 - a.2 * c.1) by (nonlinear_arith);
    assert(a.2 * (b.0 - c.0) == a.2 * b.0 - a.2 * c.0) by (nonlinear_arith);
    assert(a.0 * (b.2 - c.2) == a.0 * b.2 - a.0 * c.2) by (nonlinear_arith);
    assert(a.0 * (b.1 - c.1) == a.0 * b.1 - a.0 * c.1) by (nonlinear_arith);
    assert(a.1 * (b.0 - c.0) == a.1 * b.0 - a.1 * c.0) by (nonlinear_arith);
}

pub proof fn lemma_cross_self(a: (int, int, int))
    ensures
        is_zero(cross(a, a)),
        cross(a, a) == (0int, 0int, 0int),
{
    assert(a.1 * a.2 == a.2 * a.1) by (nonlinear_arith);
    assert(a.2 * a.0 == a.0 * a.2) by (nonlinear_arith);
    assert(a.0 * a.1 == a.1 * a.0) by (nonlinear_arith);
}

pub proof fn lemma_cross_antisym(a: (int, int, int), b: (int, int, int))
    ensures
        cross(b, a) == vscale(cross(a, b), -1),
{
    assert(b.1 * a.2 - b.2 * a.1 == (a.1 * b.2 - a.2 * b.1) * -1) by (nonlinear_arith);
    assert(b.2 * a.0 - b.0 * a.2 == (a.2 * b.0 - a.0 * b.2) * -1) by (nonlinear_arith);
    assert(b.0 * a.1 - b.1 * a.0 == (a.0 * b.1 - a.1 * b.0) * -1) by (nonlinear_arith);
}

/// The cross product is orthogonal to both of its factors.
pub proof fn lemma_cross_orthogonal(a: (int, int, int), b: (int, int, int))
    ensures
        dot(cross(a, b), a) == 0,
        dot(cross(a, b), b) == 0,
{
    assert(dot(cross(a, b), a) == 0) by (nonlinear_arith);
    assert(dot(cross(a, b), b) == 0) by (nonlinear_arith);
}

pub proof fn lemma_dot_scale(a: (int, int, int), b: (int, int, int), s: int)
    ensures
        dot(vscale(a, s), b) == s * dot(a, b),
        dot(a, vscale(b, s)) == s * dot(a, b),
{
    assert((a.0 * s) * b.0 == s * (a.0 * b.0)) by (nonlinear_arith);
    assert((a.1 * s) * b.1 == s * (a.1 * b.1)) by (nonlinear_arith);
    assert((a.2 * s) * b.2 == s * (a.2 * b.2)) by (nonlinear_arith);
    assert(a.0 * (b.0 * s) == s * (a.0 * b.0)) by (nonlinear_arith);
    assert(a.1 * (b.1 * s) == s * (a.1 * b.1)) by (nonlinear_arith);
    assert(a.2 * (b.2 * s) == s * (a.2 * b.2)) by (nonlinear_arith);
    assert(s * (a.0 * b.0) + s * (a.1 * b.1) + s * (a.2 * b.2) == s * dot(a, b)) by (nonlinear_arith);
}

/// A vector whose scaled copy is zero is itself zero.
pub proof fn lemma_scale_zero(a: (int, int, int), s: int)
    requires
        s != 0,
        is_zero(vscale(a, s)),
    ensures
        is_zero(a),
{
    assert(a.0 * s == 0 ==> a.0 == 0) by (nonlinear_arith)
        requires
            s != 0,
    ;
    assert(a.1 * s == 0 ==> a.1 == 0) by (nonlinear_arith)
        requires
            s != 0,
    ;
    assert(a.2 * s == 0 ==> a.2 == 0) by (nonlinear_arith)
        requires
            s != 0,
    ;
}

pub proof fn lemma_scale_of_zero(a: (int, int, int), s: int)
    requires
        is_zero(a),
    ensures
        vscale(a, s) == (0int, 0int, 0int),
{
    assert(0 * s == 0) by (nonlinear_arith);
}

/// The scalar triple product is invariant under cyclic rotation:
/// `(a x b) . c == (b x c) . a`.
pub proof fn lemma_triple_cyclic(a: (int, int, int), b: (int, int, int), c: (int, int, int))
    ensures
        dot(cross(a, b), c) == dot(cross(b, c), a),
{
    let (a0, a1, a2) = a;
    let (b0, b1, b2) = b;
    let (c0, c1, c2) = c;
    assert((a1 * b2 - a2 * b1) * c0 == a1 * b2 * c0 - a2 * b1 * c0) by (nonlinear_arith);
    assert((a2 * b0 - a0 * b2) * c1 == a2 * b0 * c1 - a0 * b2 * c1) by (nonlinear_arith);
    assert((a0 * b1 - a1 * b0) * c2 == a0 * b1 * c2 - a1 * b0 * c2) by (nonlinear_arith);
    assert((b1 * c2 - b2 * c1) * a0 == a0 * b1 * c2 - a0 * b2 * c1) by (nonlinear_arith);
    assert((b2 * c0 - b0 * c2) * a1 == a1 * b2 * c0 - a1 * b0 * c2) by (nonlinear_arith);
    assert((b0 * c1 - b1 * c0) * a2 == a2 * b0 * c1 - a2 * b1 * c0) by (nonlinear_arith);
}

/// A non-zero vector has a positive squared length.
pub proof fn lemma_norm_positive(a: (int, int, int))
    requires
        !is_zero(a),
    ensures
        dot(a, a) > 0,
{
    assert(a.0 * a.0 >= 0 && a.1 * a.1 >= 0 && a.2 * a.2 >= 0) by (nonlinear_arith);
    if a.0 != 0 {
        assert(a.0 * a.0 > 0) by (nonlinear_arith)
            requires
                a.0 != 0,
        ;
    } else if a.1 != 0 {
        assert(a.1 * a.1 > 0) by (nonlinear_arith)
            requires
                a.1 != 0,
        ;
    } else {
        assert(a.2 * a.2 > 0) by (nonlinear_arith)
            requires
                a.2 != 0,
        ;
    }
}

} // verus!
