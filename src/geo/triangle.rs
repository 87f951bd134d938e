//! Metrics of a single triangle.
use vstd::prelude::*;
use crate::geo::vector::{
    COORD_MAX, Vec3, RatVec3, SquareRoot, vminus, dot, cross, widen, wide_minus, wide_dot, wide_cross,
};

verus! {

/// Three ordered points, not connected to any mesh.
#[derive(Clone, Copy, Debug, PartialEq, Eq, Structural)]
pub struct Triangle {
    pub a: Vec3,
    pub b: Vec3,
    pub c: Vec3,
}

impl Triangle {
    pub open spec fn wf(self) -> bool {
        self.a.in_range() && self.b.in_range() && self.c.in_range()
    }

    pub fn from_points(a: Vec3, b: Vec3, c: Vec3) -> (r: Triangle)
        ensures
            r == (Triangle { a, b, c }),
    {
        Triangle { a, b, c }
    }

    /// Returns the centroid, the mean of the three points.
    pub fn center(&self) -> (r: RatVec3)
        ensures
            r.w == 3,
            r.x == self.a.x + self.b.x + self.c.x,
            r.y == self.a.y + self.b.y + self.c.y,
            r.z == self.a.z + self.b.z + self.c.z,
    {
        RatVec3 {
            x: self.a.x as i128 + self.b.x as i128 + self.c.x as i128,
            y: self.a.y as i128 + self.b.y as i128 + self.c.y as i128,
            z: self.a.z as i128 + self.b.z as i128 + self.c.z as i128,
            w: 3,
        }
    }

    /// Returns the exact area: half the length of `(b - a) x (c - a)`.
    pub fn area(&self) -> (r: SquareRoot)
        requires
            self.wf(),
        ensures
            r.num == ({
                let n = cross(vminus(self.b@, self.a@), vminus(self.c@, self.a@));
                dot(n, n)
            }),
            r.den == 4,
    {
        let m = Ghost(COORD_MAX as int);
        let wa = widen(&self.a);
        let ab = wide_minus(&widen(&self.b), &wa, m);
        let ac = wide_minus(&widen(&self.c), &wa, m);
        let n = wide_cross(&ab, &ac, Ghost(33554432int), Ghost(33554432int));
        SquareRoot {
            num: wide_dot(&n, &n, Ghost(2251799813685248int), Ghost(2251799813685248int)),
            den: 4,
        }
    }

    /// Returns the perimeter as the exact sum of its three edge lengths,
    /// `|b - a| + |c - b| + |a - c|`, one square root per edge.
    pub fn perimeter(&self) -> (r: (SquareRoot, SquareRoot, SquareRoot))
        requires
            self.wf(),
        ensures
            r.0.num == dot(vminus(self.b@, self.a@), vminus(self.b@, self.a@)),
            r.1.num == dot(vminus(self.c@, self.b@), vminus(self.c@, self.b@)),
            r.2.num == dot(vminus(self.a@, self.c@), vminus(self.a@, self.c@)),
            r.0.den == 1 && r.1.den == 1 && r.2.den == 1,
    {
        let m = Ghost(COORD_MAX as int);
        let m2 = Ghost(33554432int);
        let wa = widen(&self.a);
        let wb = widen(&self.b);
        let wc = widen(&self.c);
        let ab = wide_minus(&wb, &wa, m);
        let bc = wide_minus(&wc, &wb, m);
        let ca = wide_minus(&wa, &wc, m);
        (
            SquareRoot { num: wide_dot(&ab, &ab, m2, m2), den: 1 },
            SquareRoot { num: wide_dot(&bc, &bc, m2, m2), den: 1 },
            SquareRoot { num: wide_dot(&ca, &ca, m2, m2), den: 1 },
        )
    }
}

} // verus!
