use bevy_navmesh::geo::interval::{Interval, StrictInterval};

#[test]
fn test_intersection() {
    let a = StrictInterval::from_points(1, 5).unwrap();
    let b = StrictInterval::from_points(3, 7).unwrap();

    assert_eq!(a.intersection(&b), StrictInterval::from_points(3, 5));
    assert_eq!(
        Interval::Strict(a).intersection(Interval::Strict(b)),
        Interval::from_points(3, 5)
    );
}

#[test]
fn test_empty_intersection() {
    let a = StrictInterval::from_points(1, 3).unwrap();
    let b = StrictInterval::from_points(5, 7).unwrap();

    assert_eq!(a.intersection(&b), None);
    assert_eq!(
        Interval::Strict(a).intersection(Interval::Strict(b)),
        Interval::Empty
    );
}

#[test]
fn from_points_keeps_bounds() {
    match Interval::from_points(-4, 9) {
        Interval::Strict(s) => {
            assert_eq!(s.lo(), -4);
            assert_eq!(s.hi(), 9);
            assert_eq!(s.length(), 13);
        }
        Interval::Empty => panic!("expected a strict interval"),
    }
    assert_eq!(Interval::from_points(2, 2), Interval::Strict(StrictInterval::Points { lo: 2, hi: 2 }));
}

#[test]
fn from_points_reversed_is_empty() {
    assert_eq!(Interval::from_points(5, 1), Interval::Empty);
    assert!(Interval::from_points(5, 1).is_empty());
    assert_eq!(StrictInterval::from_points(5, 1), None);
}

#[test]
fn extend_by_contained_point_is_unchanged() {
    let a = Interval::from_points(1, 5);
    assert_eq!(a.extend(3), a);
    assert_eq!(a.extend(1), a);
    let p = Interval::from_point(4);
    assert_eq!(p.extend(4), p);
}

#[test]
fn extend_grows_to_cover_point() {
    assert_eq!(Interval::empty().extend(3), Interval::from_point(3));
    assert_eq!(Interval::from_point(3).extend(8), Interval::from_points(3, 8));
    assert_eq!(Interval::from_point(3).extend(-2), Interval::from_points(-2, 3));
    assert_eq!(Interval::from_points(1, 5).extend(9), Interval::from_points(1, 9));
    assert_eq!(Interval::from_points(1, 5).extend(-1), Interval::from_points(-1, 5));
}

#[test]
fn intersection_with_empty_is_empty() {
    let a = Interval::from_points(1, 5);
    assert_eq!(a.intersection(Interval::empty()), Interval::Empty);
    assert_eq!(Interval::empty().intersection(a), Interval::Empty);
}

#[test]
fn intersection_commutes_and_associates() {
    let a = Interval::from_points(0, 10);
    let b = Interval::from_points(4, 12);
    let c = Interval::from_points(-3, 6);
    assert_eq!(a.intersection(b), b.intersection(a));
    assert_eq!(a.intersection(b).intersection(c), a.intersection(b.intersection(c)));
    assert_eq!(a.intersection(b).intersection(c), Interval::from_points(4, 6));
}

#[test]
fn point_interval_intersection() {
    let p = StrictInterval::from_point(3);
    let r = StrictInterval::from_points(1, 5).unwrap();
    assert_eq!(p.intersection(&r), Some(StrictInterval::Point(3)));
    assert_eq!(r.intersection(&p), Some(StrictInterval::Points { lo: 3, hi: 3 }));
    assert_eq!(StrictInterval::from_point(9).intersection(&r), None);
}

#[test]
fn strict_interval_queries() {
    let r = StrictInterval::from_points(2, 7).unwrap();
    let c = r.center();
    assert_eq!((c.num, c.den), (9, 2));
    assert_eq!(StrictInterval::from_point(4).center().num, 8);
    assert_eq!(StrictInterval::from_point(4).length(), 0);
    assert_eq!(r.clamp_point(10), 7);
    assert_eq!(r.clamp_point(-1), 2);
    assert_eq!(r.clamp_point(5), 5);
    assert!(r.contains(2) && r.contains(7) && !r.contains(8));
    assert!(r.contains_interval(&StrictInterval::from_points(3, 6).unwrap()));
    assert!(!r.contains_interval(&StrictInterval::from_points(3, 9).unwrap()));
    assert!(r.contains_interval(&StrictInterval::from_point(7)));
}

#[test]
fn length_spans_full_range() {
    let r = StrictInterval::from_points(i64::MIN, i64::MAX).unwrap();
    assert_eq!(r.length(), u64::MAX);
}
