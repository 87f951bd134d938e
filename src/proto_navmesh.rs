//! The incremental mesh builder: a deduplicated vertex pool, an index of
//! triangles tagged by the source that contributed them, and a dirty flag.
use vstd::prelude::*;
use crate::geo::vector::Vec3;

verus! {

/// The stable identity of a geometry source.
#[derive(Clone, Copy, Debug, PartialEq, Eq, Structural, Hash)]
pub struct Owner(pub u64);

/// The abstract state of a mesh builder.
pub struct MeshView {
    /// The vertex pool, in order of insertion.
    pub points: Seq<Vec3>,
    /// Triangles as three pool positions and the owner that added them.
    pub triangles: Seq<(usize, usize, usize, Owner)>,
    pub dirty: bool,
    /// Two points closer than this in every coordinate are the same vertex.
    pub tolerance: int,
}

/// Two points match when each coordinate differs by at most `tol`.
pub open spec fn near(p: Vec3, q: Vec3, tol: int) -> bool {
    &&& -tol <= p.x - q.x <= tol
    &&& -tol <= p.y - q.y <= tol
    &&& -tol <= p.z - q.z <= tol
}

/// The position of the first pool entry that matches `p`, or the pool's
/// length when none does.
pub open spec fn first_near(s: Seq<Vec3>, p: Vec3, tol: int) -> int
    decreases s.len(),
{
    if s.len() == 0 {
        0
    } else if near(s[0], p, tol) {
        0
    } else {
        1 + first_near(s.drop_first(), p, tol)
    }
}

/// The pool after resolving `p`: unchanged when an entry matches, else
/// with `p` appended.
pub open spec fn pool_insert(s: Seq<Vec3>, p: Vec3, tol: int) -> Seq<Vec3> {
    if first_near(s, p, tol) < s.len() {
        s
    } else {
        s.push(p)
    }
}

/// No two pool entries match each other.
pub open spec fn pool_unique(s: Seq<Vec3>, tol: int) -> bool {
    forall|i: int, j: int| 0 <= i < j < s.len() ==> !near(#[trigger] s[i], #[trigger] s[j], tol)
}

pub open spec fn other_owner(owner: Owner) -> spec_fn((usize, usize, usize, Owner)) -> bool {
    |t: (usize, usize, usize, Owner)| t.3 != owner
}

pub open spec fn owned_by(owner: Owner) -> spec_fn((usize, usize, usize, Owner)) -> bool {
    |t: (usize, usize, usize, Owner)| t.3 == owner
}

impl MeshView {
    pub open spec fn wf(self) -> bool {
        &&& self.tolerance >= 0
        &&& pool_unique(self.points, self.tolerance)
        &&& forall|i: int|
            0 <= i < self.triangles.len() ==> {
                &&& (#[trigger] self.triangles[i]).0 < self.points.len()
                &&& self.triangles[i].1 < self.points.len()
                &&& self.triangles[i].2 < self.points.len()
            }
    }

    /// Resolves the three corners in order and appends the triangle.
    pub open spec fn add_spec(self, owner: Owner, t: (Vec3, Vec3, Vec3)) -> MeshView {
        let tol = self.tolerance;
        let s0 = self.points;
        let s1 = pool_insert(s0, t.0, tol);
        let s2 = pool_insert(s1, t.1, tol);
        let s3 = pool_insert(s2, t.2, tol);
        MeshView {
            points: s3,
            triangles: self.triangles.push(
                (
                    first_near(s0, t.0, tol) as usize,
                    first_near(s1, t.1, tol) as usize,
                    first_near(s2, t.2, tol) as usize,
                    owner,
                ),
            ),
            ..self
        }
    }

    /// Adds the triangles in order.
    pub open spec fn add_all_spec(self, owner: Owner, ts: Seq<(Vec3, Vec3, Vec3)>) -> MeshView
        decreases ts.len(),
    {
        if ts.len() == 0 {
            self
        } else {
            self.add_all_spec(owner, ts.drop_last()).add_spec(owner, ts.last())
        }
    }

    /// Drops every triangle of `owner`, keeping the order of the others.
    pub open spec fn remove_spec(self, owner: Owner) -> MeshView {
        MeshView { triangles: self.triangles.filter(other_owner(owner)), ..self }
    }
}

/// `t` moved by `d`.
pub open spec fn translated(t: (Vec3, Vec3, Vec3), d: Vec3) -> (Vec3, Vec3, Vec3) {
    (
        Vec3 { x: (t.0.x + d.x) as i64, y: (t.0.y + d.y) as i64, z: (t.0.z + d.z) as i64 },
        Vec3 { x: (t.1.x + d.x) as i64, y: (t.1.y + d.y) as i64, z: (t.1.z + d.z) as i64 },
        Vec3 { x: (t.2.x + d.x) as i64, y: (t.2.y + d.y) as i64, z: (t.2.z + d.z) as i64 },
    )
}

pub open spec fn fits_i64(v: int) -> bool {
    i64::MIN <= v <= i64::MAX
}

/// Moving `p` by `d` stays within 64-bit coordinates.
pub open spec fn translatable(p: Vec3, d: Vec3) -> bool {
    fits_i64(p.x + d.x) && fits_i64(p.y + d.y) && fits_i64(p.z + d.z)
}

/// The vertices and corner positions of a mesh builder, owners dropped.
pub struct MeshSnapshot {
    pub points: Vec<Vec3>,
    pub triangles: Vec<(usize, usize, usize)>,
}

/// Merges triangles from many sources into one mesh.
///
/// The vertex pool only grows: removing a source's triangles leaves its
/// vertices in place, and a later source at the same position reuses them.
/// Lookup is a linear scan of the pool.
pub struct ProtoNavMesh {
    points: Vec<Vec3>,
    triangles: Vec<(usize, usize, usize, Owner)>,
    dirty: bool,
    tolerance: u32,
}

impl View for ProtoNavMesh {
    type V = MeshView;

    closed spec fn view(&self) -> MeshView {
        MeshView {
            points: self.points@,
            triangles: self.triangles@,
            dirty: self.dirty,
            tolerance: self.tolerance as int,
        }
    }
}

impl Default for ProtoNavMesh {
    fn default() -> (r: Self)
        ensures
            r@.wf(),
            r@.points.len() == 0,
            r@.triangles.len() == 0,
            !r@.dirty,
            r@.tolerance == 0,
    {
        ProtoNavMesh::new()
    }
}

impl ProtoNavMesh {
    /// An empty builder that merges only identical points.
    pub fn new() -> (r: Self)
        ensures
            r@.wf(),
            r@.points.len() == 0,
            r@.triangles.len() == 0,
            !r@.dirty,
            r@.tolerance == 0,
    {
        ProtoNavMesh::with_tolerance(0)
    }

    /// An empty builder that merges points within `tolerance` of each
    /// other in every coordinate.
    pub fn with_tolerance(tolerance: u32) -> (r: Self)
        ensures
            r@.wf(),
            r@.points.len() == 0,
            r@.triangles.len() == 0,
            !r@.dirty,
            r@.tolerance == tolerance,
    {
        let r = ProtoNavMesh { points: Vec::new(), triangles: Vec::new(), dirty: false, tolerance };
        assert(r@.points.len() == 0);
        r
    }

    pub fn clean(&mut self)
        ensures
            final(self)@ == (MeshView { dirty: false, ..old(self)@ }),
    {
        self.dirty = false;
    }

    pub fn dirty(&mut self)
        ensures
            final(self)@ == (MeshView { dirty: true, ..old(self)@ }),
    {
        self.dirty = true;
    }

    pub fn is_clean(&self) -> (r: bool)
        ensures
            r == !self@.dirty,
    {
        !self.dirty
    }

    pub fn is_dirty(&self) -> (r: bool)
        ensures
            r == self@.dirty,
    {
        self.dirty
    }

    pub fn points(&self) -> (r: &Vec<Vec3>)
        ensures
            r@ == self@.points,
    {
        &self.points
    }

    pub fn triangles(&self) -> (r: &Vec<(usize, usize, usize, Owner)>)
        ensures
            r@ == self@.triangles,
    {
        &self.triangles
    }

    pub fn tolerance(&self) -> (r: u32)
        ensures
            r == self@.tolerance,
    {
        self.tolerance
    }

    /// Returns the pool position of the first vertex matching `point`,
    /// appending `point` when none does.
    fn get_index(&mut self, point: Vec3) -> (r: usize)
        requires
            old(self)@.wf(),
        ensures
            final(self)@ == (MeshView {
                points: pool_insert(old(self)@.points, point, old(self)@.tolerance),
                ..old(self)@
            }),
            final(self)@.wf(),
            r == first_near(old(self)@.points, point, old(self)@.tolerance),
            r < final(self)@.points.len(),
    {
        let tol = self.tolerance as i128;
        let n = self.points.len();
        let mut i: usize = 0;
        while i < n
            invariant
                self@ == old(self)@,
                old(self)@.wf(),
                n == self.points.len(),
                i <= n,
                tol == self.tolerance,
                forall|j: int| 0 <= j < i ==> !near(#[trigger] self.points@[j], point, tol as int),
            decreases n - i,
        {
            let p = self.points[i];
            let dx = p.x as i128 - point.x as i128;
            let dy = p.y as i128 - point.y as i128;
            let dz = p.z as i128 - point.z as i128;
            if -tol <= dx && dx <= tol && -tol <= dy && dy <= tol && -tol <= dz && dz <= tol {
                proof {
                    lemma_first_near(self.points@, point, tol as int, i as int);
                }
                return i;
            }
            i += 1;
        }
        proof {
            lemma_first_near(self.points@, point, tol as int, n as int);
        }
        let ghost before = self.points@;
        self.points.push(point);
        proof {
            assert forall|a: int, b: int| 0 <= a < b < self.points@.len() implies !near(
                #[trigger] self.points@[a],
                #[trigger] self.points@[b],
                tol as int,
            ) by {
                if b == n {
                    assert(!near(before[a], point, tol as int));
                } else {
                    assert(self.points@[a] == before[a] && self.points@[b] == before[b]);
                }
            }
        }
        n
    }

    /// Adds a triangle for `owner`, resolving each corner against the
    /// vertex pool. The dirty flag is left as it is.
    pub fn add_triangle(&mut self, owner: Owner, triangle: (Vec3, Vec3, Vec3))
        requires
            old(self)@.wf(),
        ensures
            final(self)@ == old(self)@.add_spec(owner, triangle),
            final(self)@.wf(),
    {
        let a = self.get_index(triangle.0);
        let b = self.get_index(triangle.1);
        let c = self.get_index(triangle.2);
        let ghost before = self.triangles@;
        self.triangles.push((a, b, c, owner));
        proof {
            assert forall|i: int| 0 <= i < self.triangles@.len() implies {
                &&& (#[trigger] self.triangles@[i]).0 < self.points@.len()
                &&& self.triangles@[i].1 < self.points@.len()
                &&& self.triangles@[i].2 < self.points@.len()
            } by {
                if i < before.len() {
                    assert(self.triangles@[i] == before[i]);
                }
            }
        }
    }

    /// Removes every triangle of `owner`. The vertex pool is kept as it is.
    pub fn remove_entity(&mut self, owner: Owner)
        requires
            old(self)@.wf(),
        ensures
            final(self)@ == old(self)@.remove_spec(owner),
            final(self)@.wf(),
    {
        let ghost all = self.triangles@;
        let mut kept: Vec<(usize, usize, usize, Owner)> = Vec::new();
        let n = self.triangles.len();
        let mut i: usize = 0;
        while i < n
            invariant
                self@ == old(self)@,
                old(self)@.wf(),
                n == self.triangles.len(),
                all == self.triangles@,
                i <= n,
                kept@ == all.subrange(0, i as int).filter(other_owner(owner)),
            decreases n - i,
        {
            let t = self.triangles[i];
            proof {
                assert(all.subrange(0, i + 1).drop_last() == all.subrange(0, i as int));
                reveal(Seq::filter);
            }
            if t.3 != owner {
                kept.push(t);
            }
            i += 1;
        }
        proof {
            assert(all.subrange(0, n as int) == all);
            broadcast use vstd::seq_lib::group_filter_ensures;
            assert forall|i: int| 0 <= i < kept@.len() implies {
                &&& (#[trigger] kept@[i]).0 < self.points@.len()
                &&& kept@[i].1 < self.points@.len()
                &&& kept@[i].2 < self.points@.len()
            } by {
                assert(kept@.contains(kept@[i]));
                all.lemma_filter_contains_rev(other_owner(owner), kept@[i]);
                let j = choose|j: int| 0 <= j < all.len() && all[j] == kept@[i];
                assert(old(self)@.triangles[j] == kept@[i]);
                assert(old(self)@.points == self.points@);
            }
        }
        self.triangles = kept;
    }
}

impl ProtoNavMesh {
    /// Replaces the triangles of `owner` with `triangles` moved by
    /// `translation`, and marks the mesh dirty.
    pub fn replace_entity(
        &mut self,
        owner: Owner,
        triangles: &Vec<(Vec3, Vec3, Vec3)>,
        translation: Vec3,
    )
        requires
            old(self)@.wf(),
            forall|i: int|
                0 <= i < triangles@.len() ==> {
                    &&& translatable((#[trigger] triangles@[i]).0, translation)
                    &&& translatable(triangles@[i].1, translation)
                    &&& translatable(triangles@[i].2, translation)
                },
        ensures
            final(self)@ == (MeshView {
                dirty: true,
                ..old(self)@.remove_spec(owner).add_all_spec(
                    owner,
                    triangles@.map_values(|t: (Vec3, Vec3, Vec3)| translated(t, translation)),
                )
            }),
            final(self)@.wf(),
    {
        self.remove_entity(owner);
        let ghost start = self@;
        let ghost moved = triangles@.map_values(
            |t: (Vec3, Vec3, Vec3)| translated(t, translation),
        );
        let n = triangles.len();
        let mut i: usize = 0;
        assert(moved.take(0) == Seq::<(Vec3, Vec3, Vec3)>::empty());
        while i < n
            invariant
                n == triangles@.len(),
                i <= n,
                moved.len() == n,
                forall|j: int| 0 <= j < n ==> #[trigger] moved[j] == translated(triangles@[j], translation),
                forall|j: int|
                    0 <= j < triangles@.len() ==> {
                        &&& translatable((#[trigger] triangles@[j]).0, translation)
                        &&& translatable(triangles@[j].1, translation)
                        &&& translatable(triangles@[j].2, translation)
                    },
                self@.wf(),
                self@ == start.add_all_spec(owner, moved.take(i as int)),
            decreases n - i,
        {
            let t = triangles[i];
            let d = translation;
            let moved_t = (
                Vec3 { x: t.0.x + d.x, y: t.0.y + d.y, z: t.0.z + d.z },
                Vec3 { x: t.1.x + d.x, y: t.1.y + d.y, z: t.1.z + d.z },
                Vec3 { x: t.2.x + d.x, y: t.2.y + d.y, z: t.2.z + d.z },
            );
            assert(moved_t == moved[i as int]);
            assert(moved.take(i + 1).drop_last() == moved.take(i as int));
            self.add_triangle(owner, moved_t);
            i += 1;
        }
        assert(moved.take(n as int) == moved);
        self.dirty();
    }

    /// Materialises the vertex pool and the corner positions of every
    /// triangle, dropping owners. Every position is a valid index into the
    /// returned points.
    pub fn snapshot(&self) -> (r: MeshSnapshot)
        requires
            self@.wf(),
        ensures
            r.points@ == self@.points,
            r.triangles@.len() == self@.triangles.len(),
            forall|i: int|
                0 <= i < r.triangles@.len() ==> {
                    &&& (#[trigger] r.triangles@[i]).0 == self@.triangles[i].0
                    &&& r.triangles@[i].1 == self@.triangles[i].1
                    &&& r.triangles@[i].2 == self@.triangles[i].2
                    &&& r.triangles@[i].0 < r.points@.len()
                    &&& r.triangles@[i].1 < r.points@.len()
                    &&& r.triangles@[i].2 < r.points@.len()
                },
    {
        let mut points: Vec<Vec3> = Vec::new();
        let mut i: usize = 0;
        while i < self.points.len()
            invariant
                i <= self.points@.len(),
                points@ == self.points@.subrange(0, i as int),
            decreases self.points@.len() - i,
        {
            points.push(self.points[i]);
            i += 1;
            assert(points@ == self.points@.subrange(0, i as int));
        }
        assert(points@ == self.points@);
        let mut triangles: Vec<(usize, usize, usize)> = Vec::new();
        let mut j: usize = 0;
        while j < self.triangles.len()
            invariant
                self@.wf(),
                j <= self.triangles@.len(),
                triangles@.len() == j,
                forall|k: int|
                    0 <= k < j ==> {
                        &&& (#[trigger] triangles@[k]).0 == self.triangles@[k].0
                        &&& triangles@[k].1 == self.triangles@[k].1
                        &&& triangles@[k].2 == self.triangles@[k].2
                    },
            decreases self.triangles@.len() - j,
        {
            let t = self.triangles[j];
            triangles.push((t.0, t.1, t.2));
            j += 1;
        }
        proof {
            assert forall|k: int| 0 <= k < triangles@.len() implies {
                &&& (#[trigger] triangles@[k]).0 < points@.len()
                &&& triangles@[k].1 < points@.len()
                &&& triangles@[k].2 < points@.len()
            } by {
                assert(self@.triangles[k] == self.triangles@[k]);
            }
        }
        MeshSnapshot { points, triangles }
    }
}

/// The first match, when there is one, is a match; there is one exactly
/// when some entry matches.
pub proof fn lemma_first_near_found(s: Seq<Vec3>, p: Vec3, tol: int)
    ensures
        0 <= first_near(s, p, tol) <= s.len(),
        first_near(s, p, tol) < s.len() ==> near(s[first_near(s, p, tol)], p, tol),
        first_near(s, p, tol) == s.len() ==> forall|k: int| 0 <= k < s.len() ==> !near(#[trigger] s[k], p, tol),
    decreases s.len(),
{
    if s.len() > 0 && !near(s[0], p, tol) {
        let t = s.drop_first();
        lemma_first_near_found(t, p, tol);
        if first_near(s, p, tol) < s.len() {
            assert(s[first_near(s, p, tol)] == t[first_near(t, p, tol)]);
        } else {
            assert forall|k: int| 0 <= k < s.len() implies !near(#[trigger] s[k], p, tol) by {
                if k > 0 {
                    assert(s[k] == t[k - 1]);
                }
            }
        }
    }
}

/// Resolving a point keeps every earlier entry in place and leaves an
/// entry that matches the point.
pub proof fn lemma_pool_insert_keeps(s: Seq<Vec3>, p: Vec3, tol: int)
    requires
        tol >= 0,
    ensures
        pool_insert(s, p, tol).len() >= s.len(),
        forall|k: int| 0 <= k < s.len() ==> #[trigger] pool_insert(s, p, tol)[k] == s[k],
        exists|k: int| 0 <= k < pool_insert(s, p, tol).len() && near(#[trigger] pool_insert(s, p, tol)[k], p, tol),
{
    lemma_first_near_found(s, p, tol);
    if first_near(s, p, tol) < s.len() {
        let k = first_near(s, p, tol);
        assert(near(pool_insert(s, p, tol)[k], p, tol));
    } else {
        let k = s.len() as int;
        assert(pool_insert(s, p, tol)[k] == p);
        assert(near(pool_insert(s, p, tol)[k], p, tol));
    }
}

/// A point that some pool entry already matches does not grow the pool.
pub proof fn lemma_pool_insert_matching(s: Seq<Vec3>, p: Vec3, tol: int, k: int)
    requires
        0 <= k < s.len(),
        near(s[k], p, tol),
    ensures
        pool_insert(s, p, tol) == s,
{
    lemma_first_near_found(s, p, tol);
}

/// Deduplication: resolving a point grows the pool by one entry exactly when
/// no entry matches it, and submitting the same triangle again for the same
/// owner leaves the vertex pool unchanged.
pub proof fn lemma_add_triangle_dedup(m: MeshView, owner: Owner, t: (Vec3, Vec3, Vec3))
    requires
        m.wf(),
    ensures
        forall|p: Vec3|
            #[trigger] pool_insert(m.points, p, m.tolerance).len() == m.points.len() + if (exists|k: int|
                0 <= k < m.points.len() && near(#[trigger] m.points[k], p, m.tolerance)) {
                0int
            } else {
                1int
            },
        m.add_spec(owner, t).add_spec(owner, t).points == m.add_spec(owner, t).points,
        m.add_spec(owner, t).points.len() <= m.points.len() + 3,
{
    let tol = m.tolerance;
    assert forall|p: Vec3|
        #[trigger] pool_insert(m.points, p, tol).len() == m.points.len() + if (exists|k: int|
            0 <= k < m.points.len() && near(#[trigger] m.points[k], p, tol)) {
            0int
        } else {
            1int
        } by {
        lemma_first_near_found(m.points, p, tol);
        if exists|k: int| 0 <= k < m.points.len() && near(#[trigger] m.points[k], p, tol) {
            let k = choose|k: int| 0 <= k < m.points.len() && near(#[trigger] m.points[k], p, tol);
            lemma_pool_insert_matching(m.points, p, tol, k);
        }
    }
    let s0 = m.points;
    let s1 = pool_insert(s0, t.0, tol);
    let s2 = pool_insert(s1, t.1, tol);
    let s3 = pool_insert(s2, t.2, tol);
    lemma_pool_insert_keeps(s0, t.0, tol);
    lemma_pool_insert_keeps(s1, t.1, tol);
    lemma_pool_insert_keeps(s2, t.2, tol);
    let k0 = choose|k: int| 0 <= k < s1.len() && near(#[trigger] s1[k], t.0, tol);
    let k1 = choose|k: int| 0 <= k < s2.len() && near(#[trigger] s2[k], t.1, tol);
    let k2 = choose|k: int| 0 <= k < s3.len() && near(#[trigger] s3[k], t.2, tol);
    assert(s3[k0] == s1[k0]) by {
        assert(s2[k0] == s1[k0]);
    }
    assert(s3[k1] == s2[k1]);
    lemma_pool_insert_matching(s3, t.0, tol, k0);
    lemma_pool_insert_matching(s3, t.1, tol, k1);
    lemma_pool_insert_matching(s3, t.2, tol, k2);
}

proof fn lemma_filter_push<A>(s: Seq<A>, e: A, pred: spec_fn(A) -> bool)
    ensures
        s.push(e).filter(pred) == if pred(e) {
            s.filter(pred).push(e)
        } else {
            s.filter(pred)
        },
{
    reveal(Seq::filter);
    assert(s.push(e).drop_last() == s);
}

/// Removing the triangles of `owner` keeps the vertex pool, leaves no
/// triangle of `owner`, and leaves the triangles of every other owner
/// exactly as they were, in the same order.
pub proof fn lemma_remove_entity_exact(m: MeshView, owner: Owner, other: Owner)
    requires
        other != owner,
    ensures
        m.remove_spec(owner).points == m.points,
        forall|i: int|
            0 <= i < m.remove_spec(owner).triangles.len() ==> (#[trigger] m.remove_spec(
                owner,
            ).triangles[i]).3 != owner,
        m.remove_spec(owner).triangles.filter(owned_by(other)) == m.triangles.filter(
            owned_by(other),
        ),
{
    broadcast use vstd::seq_lib::group_filter_ensures;

    lemma_filter_other_keeps(m.triangles, owner, other);
}

proof fn lemma_filter_other_keeps(s: Seq<(usize, usize, usize, Owner)>, owner: Owner, other: Owner)
    requires
        other != owner,
    ensures
        s.filter(other_owner(owner)).filter(owned_by(other)) == s.filter(owned_by(other)),
    decreases s.len(),
{
    if s.len() == 0 {
        reveal(Seq::filter);
    } else {
        let rest = s.drop_last();
        let e = s.last();
        assert(rest.push(e) == s);
        lemma_filter_other_keeps(rest, owner, other);
        lemma_filter_push(rest, e, other_owner(owner));
        lemma_filter_push(rest, e, owned_by(other));
        lemma_filter_push(rest.filter(other_owner(owner)), e, owned_by(other));
    }
}

proof fn lemma_first_near(s: Seq<Vec3>, p: Vec3, tol: int, i: int)
    requires
        0 <= i <= s.len(),
        forall|j: int| 0 <= j < i ==> !near(#[trigger] s[j], p, tol),
        i == s.len() || near(s[i], p, tol),
    ensures
        first_near(s, p, tol) == i,
    decreases i,
{
    if i > 0 {
        assert(!near(s[0], p, tol));
        let t = s.drop_first();
        assert forall|j: int| 0 <= j < i - 1 implies !near(#[trigger] t[j], p, tol) by {
            assert(t[j] == s[j + 1]);
        }
        if i < s.len() {
            assert(t[i - 1] == s[i]);
        }
        lemma_first_near(t, p, tol, i - 1);
    }
}

} // verus!
