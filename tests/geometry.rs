use bevy_navmesh::geo::line::{Line, LineIntersection, LineSegment};
use bevy_navmesh::geo::plane::{Plane, PlaneIntersection};
use bevy_navmesh::geo::triangle::Triangle;
use bevy_navmesh::geo::vector::{RatVec3, Vec3};

fn coords(p: RatVec3) -> (f64, f64, f64) {
    let w = p.w as f64;
    (p.x as f64 / w, p.y as f64 / w, p.z as f64 / w)
}

#[test]
fn line_intersection() {
    let line = Line::new(Vec3::new(6, 8, 4), Vec3::new(6, 7, 0));
    let other = Line::new(Vec3::new(6, 8, 2), Vec3::new(6, 7, 4));

    assert_eq!(coords(line.intersection(&other).unwrap().point().unwrap()), (9., 11.5, 4.));
    assert_eq!(coords(other.intersection(&line).unwrap().point().unwrap()), (9., 11.5, 4.));
}

#[test]
fn line_intersection2() {
    let line = Line::new(Vec3::new(3, -3, 0), Vec3::new(-7, 0, 4));
    let other = Line::new(Vec3::new(2, 5, 1), Vec3::new(-6, -8, 3));

    assert_eq!(coords(line.intersection(&other).unwrap().point().unwrap()), (-4., -3., 4.));
    assert_eq!(coords(other.intersection(&line).unwrap().point().unwrap()), (-4., -3., 4.));
}

#[test]
fn line_no_intersection() {
    let line = Line::new(Vec3::new(3, -3, 1), Vec3::new(-7, 0, 4));
    let other = Line::new(Vec3::new(2, 5, 1), Vec3::new(-6, -8, 3));

    assert!(line.intersection(&other).is_none());
    assert!(other.intersection(&line).is_none());
}

#[test]
fn parallel_to() {
    let line = Line::new(Vec3::new(3, -3, 1), Vec3::new(-7, 0, 4));
    let other = Line::new(Vec3::new(4, -3, 1), Vec3::new(-14, 0, 8));

    assert!(line.parallel_to(&other));
    assert!(other.parallel_to(&line));
}

#[test]
fn exact_intersection_point() {
    let line = Line::new(Vec3::new(6, 8, 4), Vec3::new(6, 7, 0));
    let other = Line::new(Vec3::new(6, 8, 2), Vec3::new(6, 7, 4));
    let p = line.intersection(&other).unwrap().point().unwrap();
    assert_eq!(p.w, 1360);
    assert_eq!((p.x, p.y, p.z), (9 * 1360, 23 * 680, 4 * 1360));
}

#[test]
fn lines_meeting_at_different_parameters() {
    // (0,0,0) + 10 (1,0,0) == (10,-1,0) + 1 (0,1,0)
    let line = Line::new(Vec3::new(0, 0, 0), Vec3::new(1, 0, 0));
    let other = Line::new(Vec3::new(10, -1, 0), Vec3::new(0, 1, 0));
    assert_eq!(coords(line.intersection(&other).unwrap().point().unwrap()), (10., 0., 0.));
    assert_eq!(coords(other.intersection(&line).unwrap().point().unwrap()), (10., 0., 0.));
    let steep = Line::new(Vec3::new(1, 2, 0), Vec3::new(3, 1, 2));
    let flat = Line::new(Vec3::new(2, 7, 2), Vec3::new(4, -1, 2));
    // steep at t = 3 and flat at s = 2 both reach (10, 5, 6)
    assert_eq!(coords(steep.intersection(&flat).unwrap().point().unwrap()), (10., 5., 6.));
    assert_eq!(coords(flat.intersection(&steep).unwrap().point().unwrap()), (10., 5., 6.));
}

#[test]
fn same_line_meets_everywhere() {
    let line = Line::new(Vec3::new(0, 0, 0), Vec3::new(1, 2, 3));
    let other = Line::new(Vec3::new(2, 4, 6), Vec3::new(-2, -4, -6));
    match line.intersection(&other) {
        Some(LineIntersection::Line(l)) => assert_eq!(l, other),
        _ => panic!("expected the same line"),
    }
    assert!(!line.intersection(&other).unwrap().is_point());
}

#[test]
fn shared_anchor_is_the_meeting_point() {
    let line = Line::new(Vec3::new(1, 1, 1), Vec3::new(1, 0, 0));
    let other = Line::new(Vec3::new(3, 1, 1), Vec3::new(0, 1, 0));
    let p = line.intersection(&other).unwrap().point().unwrap();
    assert_eq!(coords(p), (3., 1., 1.));
    let q = other.intersection(&line).unwrap().point().unwrap();
    assert_eq!(coords(q), (3., 1., 1.));
}

#[test]
fn parallel_distinct_lines_do_not_meet() {
    let line = Line::new(Vec3::new(0, 0, 0), Vec3::new(1, 0, 0));
    let other = Line::new(Vec3::new(0, 1, 0), Vec3::new(2, 0, 0));
    assert!(line.intersection(&other).is_none());
    assert!(line.parallel_to(&other));
}

#[test]
fn line_contains_points() {
    let line = Line::new(Vec3::new(1, 2, 3), Vec3::new(2, 0, -1));
    assert!(line.contains(Vec3::new(1, 2, 3)));
    assert!(line.contains(Vec3::new(5, 2, 1)));
    assert!(line.contains(Vec3::new(-1, 2, 4)));
    assert!(!line.contains(Vec3::new(5, 3, 1)));
}

#[test]
fn segment_length() {
    let s = LineSegment::new(Vec3::new(1, 1, 1), Vec3::new(3, 4, 0));
    let l = s.length();
    assert_eq!((l.num, l.den), (25, 1));
    assert_eq!(Line::from(s), Line::new(Vec3::new(1, 1, 1), Vec3::new(3, 4, 0)));
}

#[test]
fn contains_origin() {
    let plane = Plane::new(Vec3::new(0, 0, 0), Vec3::new(5, 3, 2));

    assert!(plane.contains(plane.point));
}

#[test]
fn contains_point() {
    let point = Vec3::new(-2, 0, 5);
    let plane = Plane::new(Vec3::new(0, 0, 0), Vec3::new(5, 3, 2));

    assert!(plane.contains(point));
}

#[test]
fn coplanar_to_self() {
    let plane = Plane::new(Vec3::new(0, 0, 0), Vec3::new(5, 3, 2));

    assert!(plane.coplanar_with(&plane.clone()));
}

#[test]
fn not_coplanar_to_parallel() {
    let plane = Plane::new(Vec3::new(0, 0, 0), Vec3::new(5, 3, 2));
    let other = Plane::new(Vec3::new(1, 1, 1), plane.normal.clone());

    assert!(!plane.coplanar_with(&other));
    assert!(!other.coplanar_with(&plane));
}

#[test]
fn parallel_planes() {
    let plane = Plane::new(Vec3::new(0, 0, 0), Vec3::new(5, 3, 2));
    let other = Plane::new(Vec3::new(1, 2, 3), Vec3::new(10, 6, 4));

    assert!(plane.parallel_to(&other));
    assert!(other.parallel_to(&plane));
}

#[test]
fn plane_intersection_cases() {
    let floor = Plane::new(Vec3::new(0, 0, 2), Vec3::new(0, 0, 1));
    let wall = Plane::new(Vec3::new(3, 0, 0), Vec3::new(1, 0, 0));
    match floor.intersection(&wall) {
        Some(PlaneIntersection::Line(l)) => {
            assert_eq!(coords(l.point), (3., 0., 2.));
            assert_eq!(l.vec, Vec3::new(0, 1, 0));
        }
        _ => panic!("expected a line"),
    }
    let raised = Plane::new(Vec3::new(0, 0, 5), Vec3::new(0, 0, 2));
    assert!(floor.intersection(&raised).is_none());
    let same = Plane::new(Vec3::new(7, 1, 2), Vec3::new(0, 0, -3));
    assert_eq!(floor.intersection(&same), Some(PlaneIntersection::Plane(same)));
}

#[test]
fn plane_from_points_and_contains_line() {
    let plane = Plane::from_points(Vec3::new(0, 0, 0), Vec3::new(1, 0, 0), Vec3::new(0, 1, 0));
    assert_eq!(plane.normal, Vec3::new(0, 0, 1));
    assert!(plane.contains_line(&Line::new(Vec3::new(2, 2, 0), Vec3::new(1, -1, 0))));
    assert!(!plane.contains_line(&Line::new(Vec3::new(2, 2, 0), Vec3::new(1, -1, 1))));
}

#[test]
fn triangle_center() {
    let triangle = Triangle::from_points(
        Vec3::new(-1, 0, 0),
        Vec3::new(1, 0, 0),
        Vec3::new(0, 2, 1),
    );

    assert_eq!(coords(triangle.center()), (0., 2. / 3., 1. / 3.));
}

#[test]
fn triangle_area() {
    let triangle = Triangle::from_points(
        Vec3::new(0, 0, 0),
        Vec3::new(1, 0, 0),
        Vec3::new(0, 1, 0),
    );

    let area = triangle.area();
    assert_eq!((area.num as f64 / area.den as f64).sqrt(), 0.5);
}

#[test]
fn triangle_edges() {
    let triangle = Triangle::from_points(Vec3::new(0, 0, 0), Vec3::new(3, 0, 0), Vec3::new(0, 4, 0));
    let (ab, bc, ca) = triangle.perimeter();
    assert_eq!((ab.num, bc.num, ca.num), (9, 25, 16));
    assert_eq!((ab.den, bc.den, ca.den), (1, 1, 1));
    let area = triangle.area();
    assert_eq!((area.num, area.den), (144, 4));
}
