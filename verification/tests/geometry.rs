use dungeon_gen::{clamp, Coords, GenRng, Rect};

#[test]
fn intersects() {
    let rect = Rect::new(0, 0, 5, 5);
    assert!(rect.intersects(&rect));
    assert!(rect.intersects(&Rect::new(2, 2, 5, 5)));
    assert!(Rect::new(0, 0, 10, 10).intersects(&Rect::new(2, 2, 10, 10)));
}

#[test]
fn intersects_touching_edges_counts() {
    // boundary-inclusive: rectangles that merely touch intersect
    let a = Rect::new(0, 0, 5, 5);
    let b = Rect::new(5, 0, 5, 5);
    assert!(a.intersects(&b));
    let c = Rect::new(6, 0, 5, 5);
    assert!(!a.intersects(&c));
}

#[test]
fn intersects_disjoint() {
    let a = Rect::new(0, 0, 1, 1);
    let b = Rect::new(5, 5, 1, 1);
    assert!(!a.intersects(&b));
    assert!(!b.intersects(&a));
}

#[test]
fn buffer_grows_and_clamps() {
    let a = Rect::new(5, 5, 4, 4);
    let b = a.buffer(2);
    assert_eq!(b.x, 3);
    assert_eq!(b.y, 3);
    assert_eq!(b.width, 6);
    assert_eq!(b.height, 6);
    // near the origin the left/top corner clamps at zero
    let c = Rect::new(1, 1, 4, 4);
    let d = c.buffer(2);
    assert_eq!(d.x, 0);
    assert_eq!(d.y, 0);
    assert_eq!(d.width, 6);
    assert_eq!(d.height, 6);
}

#[test]
fn intersects_with_buffer_pads_both() {
    // two cells apart: plain rects are disjoint, buffered ones touch
    let a = Rect::new(0, 0, 2, 2);
    let b = Rect::new(5, 0, 2, 2);
    assert!(!a.intersects(&b));
    assert!(a.intersects_with_buffer(&b, 2));
    assert!(!a.intersects_with_buffer(&Rect::new(20, 0, 2, 2), 2));
}

#[test]
fn accessors_and_center() {
    let r = Rect::new(2, 3, 5, 7);
    assert_eq!(r.x(), 2);
    assert_eq!(r.y(), 3);
    assert_eq!(r.left(), 2);
    assert_eq!(r.top(), 3);
    assert_eq!(r.right(), 7);
    assert_eq!(r.bottom(), 10);
    assert_eq!(r.center(), (4, 6));
}

#[test]
fn contains_is_boundary_inclusive() {
    let r = Rect::new(2, 2, 4, 4);
    assert!(r.contains((2, 2)));
    assert!(r.contains((6, 6)));
    assert!(r.contains((4, 3)));
    assert!(!r.contains((1, 3)));
    assert!(!r.contains((4, 7)));
}

#[test]
fn clamp_values() {
    assert_eq!(clamp(7, 0, 5), 5);
    assert_eq!(clamp(-3, 0, 5), 0);
    assert_eq!(clamp(3, 0, 5), 3);
    assert_eq!(clamp(0, 0, 5), 0);
    assert_eq!(clamp(5, 0, 5), 5);
}

#[test]
fn random_rect_samples_each_field_from_its_range() {
    let mut rng = GenRng::from_seed(99);
    let mut seen_x = std::collections::BTreeSet::new();
    for _ in 0..50 {
        let r = Rect::random_rect(&mut rng, (2, 10), (3, 12), (4, 8), (5, 9));
        assert!((2..10).contains(&r.x));
        assert!((3..12).contains(&r.y));
        assert!((4..8).contains(&r.width));
        assert!((5..9).contains(&r.height));
        seen_x.insert(r.x);
    }
    // the draws are uniform over eight values, not a constant
    assert!(seen_x.len() > 1);
}

#[test]
fn coords_distance_is_manhattan() {
    let a = Coords::new(1, 2);
    assert_eq!(a.distance(Coords::new(4, 6)), 7);
    assert_eq!(a.distance(Coords::new(1, 2)), 0);
    assert_eq!(Coords::new(4, 6).distance(a), 7);
}
