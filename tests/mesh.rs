use bevy_navmesh::geo::vector::Vec3;
use bevy_navmesh::navigation::{needs_path_update, Navigation};
use bevy_navmesh::proto_navmesh::{Owner, ProtoNavMesh};

fn tri(a: (i64, i64, i64), b: (i64, i64, i64), c: (i64, i64, i64)) -> (Vec3, Vec3, Vec3) {
    (Vec3::new(a.0, a.1, a.2), Vec3::new(b.0, b.1, b.2), Vec3::new(c.0, c.1, c.2))
}

#[test]
fn adding_same_triangle_twice_keeps_pool() {
    let mut mesh = ProtoNavMesh::new();
    let t = tri((0, 0, 0), (1, 0, 0), (0, 1, 0));
    mesh.add_triangle(Owner(1), t);
    assert_eq!(mesh.points().len(), 3);
    mesh.add_triangle(Owner(1), t);
    assert_eq!(mesh.points().len(), 3);
    assert_eq!(mesh.triangles().len(), 2);
    assert_eq!(mesh.triangles()[1], (0, 1, 2, Owner(1)));
}

#[test]
fn shared_corners_are_pooled() {
    let mut mesh = ProtoNavMesh::new();
    mesh.add_triangle(Owner(1), tri((0, 0, 0), (1, 0, 0), (0, 1, 0)));
    mesh.add_triangle(Owner(2), tri((1, 0, 0), (1, 1, 0), (0, 1, 0)));
    assert_eq!(mesh.points().len(), 4);
    assert_eq!(mesh.triangles()[1], (1, 3, 2, Owner(2)));
}

#[test]
fn tolerance_merges_close_points() {
    let mut mesh = ProtoNavMesh::with_tolerance(2);
    mesh.add_triangle(Owner(1), tri((0, 0, 0), (10, 0, 0), (0, 10, 0)));
    mesh.add_triangle(Owner(1), tri((1, -2, 0), (10, 2, 1), (0, 13, 0)));
    assert_eq!(mesh.points().len(), 4);
    assert_eq!(mesh.triangles()[1], (0, 1, 3, Owner(1)));
    assert_eq!(mesh.tolerance(), 2);
}

#[test]
fn remove_entity_removes_only_that_owner() {
    let mut mesh = ProtoNavMesh::new();
    mesh.add_triangle(Owner(1), tri((0, 0, 0), (1, 0, 0), (0, 1, 0)));
    mesh.add_triangle(Owner(2), tri((5, 0, 0), (6, 0, 0), (5, 1, 0)));
    mesh.add_triangle(Owner(1), tri((9, 0, 0), (8, 0, 0), (9, 1, 0)));
    mesh.add_triangle(Owner(3), tri((0, 0, 0), (5, 0, 0), (9, 0, 0)));
    mesh.remove_entity(Owner(1));
    assert_eq!(mesh.points().len(), 9);
    assert_eq!(mesh.triangles().len(), 2);
    assert_eq!(mesh.triangles()[0], (3, 4, 5, Owner(2)));
    assert_eq!(mesh.triangles()[1], (0, 3, 6, Owner(3)));
}

#[test]
fn dirty_flag_control() {
    let mut mesh = ProtoNavMesh::default();
    assert!(mesh.is_clean() && !mesh.is_dirty());
    mesh.add_triangle(Owner(1), tri((0, 0, 0), (1, 0, 0), (0, 1, 0)));
    assert!(mesh.is_clean());
    mesh.dirty();
    assert!(mesh.is_dirty() && !mesh.is_clean());
    mesh.clean();
    assert!(mesh.is_clean());
}

#[test]
fn replace_entity_moves_and_marks_dirty() {
    let mut mesh = ProtoNavMesh::new();
    mesh.add_triangle(Owner(7), tri((0, 0, 0), (1, 0, 0), (0, 1, 0)));
    let shape = vec![tri((0, 0, 0), (2, 0, 0), (0, 2, 0))];
    mesh.replace_entity(Owner(7), &shape, Vec3::new(10, 0, 0));
    assert!(mesh.is_dirty());
    assert_eq!(mesh.triangles().len(), 1);
    let snap = mesh.snapshot();
    let (a, b, c) = snap.triangles[0];
    assert_eq!(snap.points[a], Vec3::new(10, 0, 0));
    assert_eq!(snap.points[b], Vec3::new(12, 0, 0));
    assert_eq!(snap.points[c], Vec3::new(10, 2, 0));
    assert_eq!(snap.points.len(), 6);
}

#[test]
fn snapshot_drops_owners() {
    let mut mesh = ProtoNavMesh::new();
    mesh.add_triangle(Owner(1), tri((0, 0, 0), (1, 0, 0), (0, 1, 0)));
    mesh.add_triangle(Owner(2), tri((1, 0, 0), (1, 1, 0), (0, 1, 0)));
    let snap = mesh.snapshot();
    assert_eq!(snap.points, mesh.points().clone());
    assert_eq!(snap.triangles, vec![(0, 1, 2), (1, 3, 2)]);
}

#[test]
fn unchanged_agent_keeps_cached_path() {
    assert!(!needs_path_update(false, false, false));
    assert!(needs_path_update(false, true, false));
    assert!(needs_path_update(true, false, false));
    assert!(needs_path_update(false, false, true));
}

#[test]
fn found_path_drops_own_position() {
    let mut nav = Navigation::new(Vec3::new(5, 5, 0));
    assert_eq!(nav.next(), None);
    nav.accept_path(Some(vec![Vec3::new(0, 0, 0), Vec3::new(2, 3, 0), Vec3::new(5, 5, 0)]));
    assert_eq!(nav.path, vec![Vec3::new(2, 3, 0), Vec3::new(5, 5, 0)]);
    assert_eq!(nav.next(), Some(&Vec3::new(2, 3, 0)));
    nav.accept_path(None);
    assert_eq!(nav.path.len(), 2);
    nav.accept_path(Some(vec![]));
    assert!(nav.path.is_empty());
    assert_eq!(nav.dest, Vec3::new(5, 5, 0));
}
