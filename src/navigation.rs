//! Per-agent navigation state and the policy that decides when a path is
//! planned again.
use vstd::prelude::*;
use crate::geo::vector::Vec3;

verus! {

/// The triangles a geometry source contributes, in its local coordinates.
#[derive(Clone, Debug, Default)]
pub struct Navmesh {
    pub points: Vec<Vec3>,
    pub triangles: Vec<(Vec3, Vec3, Vec3)>,
}

/// An agent's destination and its planned route, nearest waypoint first.
#[derive(Clone, Debug, Default)]
pub struct Navigation {
    pub dest: Vec3,
    pub path: Vec<Vec3>,
}

impl Navigation {
    pub fn new(dest: Vec3) -> (r: Navigation)
        ensures
            r.dest == dest,
            r.path@.len() == 0,
    {
        Navigation { dest, path: Vec::new() }
    }

    /// Returns the next waypoint, if any.
    pub fn next(&self) -> (r: Option<&Vec3>)
        ensures
            self.path@.len() == 0 ==> r is None,
            self.path@.len() > 0 ==> r == Some(&self.path@[0]),
    {
        if self.path.len() == 0 {
            None
        } else {
            Some(&self.path[0])
        }
    }

    /// Stores the result of a path query. The first waypoint of a found
    /// route is the agent's own position and is dropped. When no route was
    /// found the last known path is kept.
    pub fn accept_path(&mut self, found: Option<Vec<Vec3>>)
        ensures
            final(self).dest == old(self).dest,
            found is None ==> final(self).path@ == old(self).path@,
            found matches Some(points) ==> final(self).path@ == if points@.len() == 0 {
                Seq::<Vec3>::empty()
            } else {
                points@.drop_first()
            },
    {
        match found {
            Some(points) => {
                let mut path: Vec<Vec3> = Vec::new();
                if points.len() > 0 {
                    let mut i: usize = 1;
                    while i < points.len()
                        invariant
                            1 <= i <= points@.len(),
                            path@ == points@.subrange(1, i as int),
                        decreases points@.len() - i,
                    {
                        path.push(points[i]);
                        i += 1;
                        assert(path@ == points@.subrange(1, i as int));
                    }
                    assert(path@ == points@.drop_first());
                }
                self.path = path;
            },
            None => {},
        }
    }
}

/// Whether an agent's path must be planned again this tick: exactly when the
/// mesh is dirty, the agent's navigation state changed, or its position
/// changed. An agent for which none of these holds keeps its cached path.
pub fn needs_path_update(mesh_dirty: bool, navigation_changed: bool, position_changed: bool) -> (r: bool)
    ensures
        r == (mesh_dirty || navigation_changed || position_changed),
        !mesh_dirty && !navigation_changed && !position_changed ==> !r,
        mesh_dirty ==> r,
        navigation_changed ==> r,
{
    !(!mesh_dirty && !navigation_changed && !position_changed)
}

} // verus!
