//! Closed intervals of grid values, possibly empty.
use vstd::prelude::*;
use vstd::math::{max, min};

verus! {

/// An exact fraction `num / den`.
#[derive(Clone, Copy, Debug, PartialEq, Eq, Structural)]
pub struct Ratio {
    pub num: i128,
    pub den: i128,
}

/// An interval that is guaranteed to hold at least one point.
#[derive(Clone, Copy, Debug, PartialEq, Eq, Structural)]
pub enum StrictInterval {
    Point(i64),
    Points { lo: i64, hi: i64 },
}

/// A continuous range of points, which may be empty.
#[derive(Clone, Copy, Debug, PartialEq, Eq, Structural)]
pub enum Interval {
    Empty,
    Strict(StrictInterval),
}

impl StrictInterval {
    /// A `Points` interval never has its bounds reversed.
    pub open spec fn wf(self) -> bool {
        match self {
            StrictInterval::Point(_) => true,
            StrictInterval::Points { lo, hi } => lo <= hi,
        }
    }

    pub open spec fn lo_spec(self) -> int {
        match self {
            StrictInterval::Point(p) => p as int,
            StrictInterval::Points { lo, hi: _ } => lo as int,
        }
    }

    pub open spec fn hi_spec(self) -> int {
        match self {
            StrictInterval::Point(p) => p as int,
            StrictInterval::Points { lo: _, hi } => hi as int,
        }
    }

    pub open spec fn contains_spec(self, p: int) -> bool {
        self.lo_spec() <= p <= self.hi_spec()
    }

    /// The overlap of two strict intervals: a point stays a point, a range
    /// becomes the range from the larger low bound to the smaller high bound.
    pub open spec fn intersection_spec(self, other: Self) -> Option<Self> {
        match self {
            StrictInterval::Point(p) => {
                if other.contains_spec(p as int) {
                    Some(StrictInterval::Point(p))
                } else {
                    None
                }
            },
            StrictInterval::Points { lo, hi } => {
                let l = if lo > other.lo_spec() { lo } else { other.lo_spec() as i64 };
                let h = if hi < other.hi_spec() { hi } else { other.hi_spec() as i64 };
                if h < l {
                    None
                } else {
                    Some(StrictInterval::Points { lo: l, hi: h })
                }
            },
        }
    }

    /// Extending a point by a different point gives the range between them;
    /// extending a range moves the bound that `p` lies beyond.
    pub open spec fn extend_spec(self, p: i64) -> Self {
        match self {
            StrictInterval::Point(o) => {
                if o < p {
                    StrictInterval::Points { lo: o, hi: p }
                } else if o > p {
                    StrictInterval::Points { lo: p, hi: o }
                } else {
                    StrictInterval::Point(p)
                }
            },
            StrictInterval::Points { lo, hi } => {
                if p < lo {
                    StrictInterval::Points { lo: p, hi }
                } else if p > hi {
                    StrictInterval::Points { lo, hi: p }
                } else {
                    StrictInterval::Points { lo, hi }
                }
            },
        }
    }

    /// Returns an interval containing a single point.
    pub fn from_point(p: i64) -> (r: Self)
        ensures
            r == StrictInterval::Point(p),
            r.wf(),
    {
        StrictInterval::Point(p)
    }

    /// Returns the interval spanning `lo` to `hi`, or none when `hi < lo`.
    pub fn from_points(lo: i64, hi: i64) -> (r: Option<Self>)
        ensures
            hi < lo ==> r is None,
            lo <= hi ==> r == Some(StrictInterval::Points { lo, hi }),
            r matches Some(s) ==> s.wf(),
    {
        if hi < lo {
            return None;
        }
        Some(StrictInterval::Points { lo, hi })
    }

    /// Extends the interval to include the given point.
    pub fn extend(self, p: i64) -> (r: Self)
        requires
            self.wf(),
        ensures
            r == self.extend_spec(p),
            r.wf(),
            r.lo_spec() == if p < self.lo_spec() { p as int } else { self.lo_spec() },
            r.hi_spec() == if p > self.hi_spec() { p as int } else { self.hi_spec() },
            self.contains_spec(p as int) ==> r == self,
            r is Point <==> (self is Point && self.lo_spec() == p),
    {
        match self {
            StrictInterval::Point(o) => {
                if o < p {
                    StrictInterval::Points { lo: o, hi: p }
                } else if o > p {
                    StrictInterval::Points { lo: p, hi: o }
                } else {
                    StrictInterval::Point(p)
                }
            },
            StrictInterval::Points { lo, hi } => {
                if p < lo {
                    StrictInterval::Points { lo: p, hi }
                } else if p > hi {
                    StrictInterval::Points { lo, hi: p }
                } else {
                    StrictInterval::Points { lo, hi }
                }
            },
        }
    }

    /// Returns the centre of the interval as the exact fraction
    /// `(lo + hi) / 2`.
    pub fn center(&self) -> (r: Ratio)
        ensures
            r.den == 2,
            r.num == self.lo_spec() + self.hi_spec(),
    {
        match self {
            StrictInterval::Point(p) => Ratio { num: 2 * (*p as i128), den: 2 },
            StrictInterval::Points { lo, hi } => Ratio { num: *lo as i128 + *hi as i128, den: 2 },
        }
    }

    /// Returns the lowest point of the interval.
    pub fn lo(&self) -> (r: i64)
        ensures
            r == self.lo_spec(),
    {
        match self {
            StrictInterval::Point(p) => *p,
            StrictInterval::Points { lo, hi: _ } => *lo,
        }
    }

    /// Returns the highest point of the interval.
    pub fn hi(&self) -> (r: i64)
        ensures
            r == self.hi_spec(),
    {
        match self {
            StrictInterval::Point(p) => *p,
            StrictInterval::Points { lo: _, hi } => *hi,
        }
    }

    /// Returns the point of the interval closest to `p`.
    pub fn clamp_point(&self, p: i64) -> (r: i64)
        requires
            self.wf(),
        ensures
            self.contains_spec(r as int),
            self.contains_spec(p as int) ==> r == p,
            p > self.hi_spec() ==> r == self.hi_spec(),
            p < self.lo_spec() ==> r == self.lo_spec(),
    {
        match self {
            StrictInterval::Point(o) => *o,
            StrictInterval::Points { lo, hi } => {
                if p > *hi {
                    *hi
                } else if p < *lo {
                    *lo
                } else {
                    p
                }
            },
        }
    }

    /// Checks whether the interval contains the given point.
    pub fn contains(&self, p: i64) -> (r: bool)
        ensures
            r == self.contains_spec(p as int),
    {
        match self {
            StrictInterval::Point(o) => p == *o,
            StrictInterval::Points { lo, hi } => p >= *lo && p <= *hi,
        }
    }

    /// Checks whether the interval is a superset of `other`.
    pub fn contains_interval(&self, other: &Self) -> (r: bool)
        requires
            other.wf(),
        ensures
            r == (self.lo_spec() <= other.lo_spec() && other.hi_spec() <= self.hi_spec()),
            r == (forall|p: int| #[trigger] other.contains_spec(p) ==> self.contains_spec(p)),
    {
        let r = match other {
            StrictInterval::Point(p) => self.contains(*p),
            StrictInterval::Points { lo, hi } => self.contains(*lo) && self.contains(*hi),
        };
        proof {
            if !r {
                if !self.contains_spec(other.lo_spec()) {
                    assert(other.contains_spec(other.lo_spec()));
                } else {
                    assert(other.contains_spec(other.hi_spec()));
                }
            }
        }
        r
    }

    /// Returns the intersection of the two intervals, or none when they do
    /// not overlap.
    pub fn intersection(&self, other: &Self) -> (r: Option<Self>)
        requires
            self.wf(),
            other.wf(),
        ensures
            r is None <==> max(self.lo_spec(), other.lo_spec()) > min(
                self.hi_spec(),
                other.hi_spec(),
            ),
            r matches Some(s) ==> {
                &&& s.wf()
                &&& s.lo_spec() == max(self.lo_spec(), other.lo_spec())
                &&& s.hi_spec() == min(self.hi_spec(), other.hi_spec())
            },
            r == self.intersection_spec(*other),
    {
        match self {
            StrictInterval::Point(p) => {
                if other.contains(*p) {
                    Some(Self::from_point(*p))
                } else {
                    None
                }
            },
            StrictInterval::Points { lo, hi } => {
                let olo = other.lo();
                let ohi = other.hi();
                let l = if *lo > olo { *lo } else { olo };
                let h = if *hi < ohi { *hi } else { ohi };
                Self::from_points(l, h)
            },
        }
    }

    /// Returns the length of the interval, zero for a single point.
    pub fn length(&self) -> (r: u64)
        requires
            self.wf(),
        ensures
            r == self.hi_spec() - self.lo_spec(),
    {
        match self {
            StrictInterval::Point(_) => 0,
            StrictInterval::Points { lo, hi } => (*hi as i128 - *lo as i128) as u64,
        }
    }
}

impl Interval {
    pub open spec fn wf(self) -> bool {
        match self {
            Interval::Empty => true,
            Interval::Strict(s) => s.wf(),
        }
    }

    pub open spec fn contains_spec(self, p: int) -> bool {
        match self {
            Interval::Empty => false,
            Interval::Strict(s) => s.contains_spec(p),
        }
    }

    pub open spec fn extend_spec(self, p: int) -> Option<(int, int)> {
        match self@ {
            None => Some((p, p)),
            Some((lo, hi)) => Some((min(lo, p), max(hi, p))),
        }
    }

    pub open spec fn intersection_spec(self, other: Self) -> Self {
        match (self, other) {
            (Interval::Strict(a), Interval::Strict(b)) => match a.intersection_spec(b) {
                Some(s) => Interval::Strict(s),
                None => Interval::Empty,
            },
            _ => Interval::Empty,
        }
    }

    /// Returns an empty interval.
    pub fn empty() -> (r: Interval)
        ensures
            r == Interval::Empty,
    {
        Interval::Empty
    }

    /// Returns an interval containing a single point.
    pub fn from_point(p: i64) -> (r: Interval)
        ensures
            r == Interval::Strict(StrictInterval::Point(p)),
            r@ == Some((p as int, p as int)),
    {
        Interval::Strict(StrictInterval::from_point(p))
    }

    /// Returns the interval spanning `lo` to `hi`; empty when `hi < lo`.
    pub fn from_points(lo: i64, hi: i64) -> (r: Interval)
        ensures
            r.wf(),
            hi < lo ==> r == Interval::Empty,
            lo <= hi ==> r == Interval::Strict(StrictInterval::Points { lo, hi }),
            lo <= hi ==> (r matches Interval::Strict(s) && s.lo_spec() == lo && s.hi_spec() == hi
                && s.hi_spec() - s.lo_spec() == hi - lo),
    {
        match StrictInterval::from_points(lo, hi) {
            Some(interval) => Interval::Strict(interval),
            None => Interval::Empty,
        }
    }

    /// Extends the interval to include the given point: an empty interval
    /// becomes that point, a point becomes a range.
    pub fn extend(self, p: i64) -> (r: Interval)
        requires
            self.wf(),
        ensures
            r.wf(),
            r@ == self.extend_spec(p as int),
            r is Strict,
            self is Empty ==> r == Interval::Strict(StrictInterval::Point(p)),
            self matches Interval::Strict(t) ==> r == Interval::Strict(t.extend_spec(p)),
            self.contains_spec(p as int) ==> r == self,
            r.contains_spec(p as int),
            forall|q: int| #[trigger] self.contains_spec(q) ==> r.contains_spec(q),
    {
        match self {
            Interval::Empty => Interval::Strict(StrictInterval::from_point(p)),
            Interval::Strict(strict) => Interval::Strict(strict.extend(p)),
        }
    }

    /// Returns the intersection of the two intervals, empty when either is
    /// empty or when they do not overlap.
    pub fn intersection(self, other: Self) -> (r: Interval)
        requires
            self.wf(),
            other.wf(),
        ensures
            r.wf(),
            r == self.intersection_spec(other),
            forall|q: int| #[trigger] r.contains_spec(q) <==> (self.contains_spec(q) && other.contains_spec(q)),
    {
        proof {
            lemma_intersection_contains(self, other);
        }
        match (self, other) {
            (Interval::Strict(interval), Interval::Strict(other)) => {
                match interval.intersection(&other) {
                    Some(i) => Interval::Strict(i),
                    None => Interval::Empty,
                }
            },
            _ => Interval::Empty,
        }
    }

    /// Checks whether the interval is empty.
    pub fn is_empty(&self) -> (r: bool)
        ensures
            r == (*self == Interval::Empty),
            r == (self@ is None),
    {
        match self {
            Interval::Empty => true,
            _ => false,
        }
    }
}

impl View for Interval {
    /// The low and high bounds, or none for the empty interval.
    type V = Option<(int, int)>;

    open spec fn view(&self) -> Option<(int, int)> {
        match *self {
            Interval::Empty => None,
            Interval::Strict(s) => Some((s.lo_spec(), s.hi_spec())),
        }
    }
}

/// A point lies in the intersection exactly when it lies in both intervals,
/// and the intersection is again well formed.
pub proof fn lemma_intersection_contains(a: Interval, b: Interval)
    requires
        a.wf(),
        b.wf(),
    ensures
        a.intersection_spec(b).wf(),
        forall|q: int| #[trigger] a.intersection_spec(b).contains_spec(q) <==> (a.contains_spec(q) && b.contains_spec(q)),
        a.intersection_spec(b)@ == match (a@, b@) {
            (Some((l1, h1)), Some((l2, h2))) => if max(l1, l2) <= min(h1, h2) {
                Some((max(l1, l2), min(h1, h2)))
            } else {
                None
            },
            _ => None,
        },
{
}

/// Intersection is commutative and associative as a set of points, anything
/// met with the empty interval is empty, and two strict intervals that do not
/// overlap meet in the empty interval.
pub proof fn lemma_intersection_laws(a: Interval, b: Interval, c: Interval)
    requires
        a.wf(),
        b.wf(),
        c.wf(),
    ensures
        a.intersection_spec(b)@ == b.intersection_spec(a)@,
        a.intersection_spec(b).intersection_spec(c)@ == a.intersection_spec(b.intersection_spec(c))@,
        a.intersection_spec(Interval::Empty) == Interval::Empty,
        Interval::Empty.intersection_spec(a) == Interval::Empty,
        ({
            &&& a matches Interval::Strict(s)
            &&& b matches Interval::Strict(t)
            &&& (s.hi_spec() < t.lo_spec() || t.hi_spec() < s.lo_spec())
        }) ==> a.intersection_spec(b) == Interval::Empty,
{
    lemma_intersection_contains(a, b);
    lemma_intersection_contains(b, a);
    lemma_intersection_contains(b, c);
    lemma_intersection_contains(a.intersection_spec(b), c);
    lemma_intersection_contains(a, b.intersection_spec(c));
}

/// Extending by a point that is already contained changes nothing, and the
/// extended interval always covers both the old interval and the point.
pub proof fn lemma_extend_laws(a: Interval, p: i64)
    requires
        a.wf(),
    ensures
        a.contains_spec(p as int) ==> a.extend_spec(p as int) == a@,
        a.extend_spec(p as int) matches Some((lo, hi)) && lo <= p <= hi && (forall|q: int|
            #[trigger] a.contains_spec(q) ==> lo <= q <= hi),
{
}

} // verus!
