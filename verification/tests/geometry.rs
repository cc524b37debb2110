use walk_the_dog::point::Point;
use walk_the_dog::rect::Rect;

#[test]
fn two_rects_that_intersect_one_the_left() {
    let rect1 = Rect {
        position: Point { x: 10, y: 10 },
        height: 100,
        width: 100,
    };

    let rect2 = Rect {
        position: Point { x: 0, y: 10 },
        height: 100,
        width: 100,
    };

    assert_eq!(rect2.intersects(&rect1), true);
}

#[test]
fn intersection_is_symmetric_on_samples() {
    let samples = [
        Rect { position: Point { x: 0, y: 0 }, width: 10, height: 10 },
        Rect { position: Point { x: 5, y: 5 }, width: 10, height: 10 },
        Rect { position: Point { x: 20, y: 0 }, width: 3, height: 40 },
        Rect { position: Point { x: -7, y: -7 }, width: 7, height: 7 },
        Rect { position: Point { x: 0, y: 0 }, width: 0, height: 10 },
    ];
    for a in &samples {
        for b in &samples {
            assert_eq!(a.intersects(b), b.intersects(a));
        }
    }
}

#[test]
fn zero_sized_rect_never_intersects_at_identical_origin() {
    let solid = Rect { position: Point { x: 10, y: 10 }, width: 100, height: 100 };
    let flat = Rect { position: Point { x: 10, y: 10 }, width: 0, height: 100 };
    let thin = Rect { position: Point { x: 10, y: 10 }, width: 100, height: 0 };
    let point = Rect { position: Point { x: 10, y: 10 }, width: 0, height: 0 };

    assert!(!flat.intersects(&solid));
    assert!(!solid.intersects(&flat));
    assert!(!thin.intersects(&solid));
    assert!(!solid.intersects(&thin));
    assert!(!point.intersects(&point));
    assert!(!flat.intersects(&flat));
}

#[test]
fn rect_accessors_and_edges() {
    let mut r = Rect::new_from_x_y(3, 4, 10, 20);
    assert_eq!(r.x(), 3);
    assert_eq!(r.y(), 4);
    assert_eq!(r.right(), 13);
    assert_eq!(r.bottom(), 24);
    r.set_x(-5);
    assert_eq!(r.x(), -5);
    assert_eq!(r.right(), 5);
    assert_eq!(r.y(), 4);

    let s = Rect::new(Point { x: 1, y: 2 }, 7, 8);
    assert_eq!(s.right(), 8);
    assert_eq!(s.bottom(), 10);
}
