use cascade::geometry::halve;
use cascade::geometry::sat_add;
use cascade::geometry::sat_sub;
use cascade::geometry::saturate;
use cascade::geometry::Displacement;
use cascade::geometry::Point;
use cascade::geometry::Rectangle;
use cascade::geometry::Size;

#[test]
fn it_works() {
    assert_eq!(2 + 2, 4);
}

#[test]
fn point_accessors() {
    let p = Point::new(3, -4);
    assert_eq!(p.x(), 3);
    assert_eq!(p.y(), -4);
    assert_eq!(p, Point { x: 3, y: -4 });
}

#[test]
fn point_difference_is_a_displacement() {
    assert_eq!(Point::new(10, 2) - Point::new(4, 7), Displacement::new(6, -5));
    assert_eq!(
        Point::new(i32::MAX, i32::MIN) - Point::new(-1, 1),
        Displacement { dx: i32::MAX, dy: i32::MIN }
    );
}

#[test]
fn size_partial_updates() {
    let s = Size::new(400, 600);
    assert_eq!(s.width(), 400);
    assert_eq!(s.height(), 600);
    assert_eq!(s.with_width(10), Size { width: 10, height: 600 });
    assert_eq!(s.with_height(20), Size { width: 400, height: 20 });
}

#[test]
fn rectangle_edges() {
    let r = Rectangle::new(Point::new(10, 20), Size::new(30, 40));
    assert_eq!(r.left(), 10);
    assert_eq!(r.top(), 20);
    assert_eq!(r.right(), 40);
    assert_eq!(r.bottom(), 60);
    assert_eq!(r.width(), 30);
    assert_eq!(r.height(), 40);
    assert_eq!(r.bottom_right(), Point::new(40, 60));
    assert_eq!(r.center_x(), 25);
}

#[test]
fn rectangle_edges_saturate() {
    let r = Rectangle::new(Point::new(i32::MAX - 5, i32::MAX), Size::new(100, 1));
    assert_eq!(r.right(), i32::MAX);
    assert_eq!(r.bottom(), i32::MAX);
    assert!(r.contains(&Point::new(i32::MAX, i32::MAX)));
}

#[test]
fn rectangle_contains_is_half_open() {
    let r = Rectangle::new(Point::new(0, 0), Size::new(10, 10));
    assert!(r.contains(&Point::new(0, 0)));
    assert!(r.contains(&Point::new(9, 9)));
    assert!(!r.contains(&Point::new(10, 5)));
    assert!(!r.contains(&Point::new(5, 10)));
    assert!(!r.contains(&Point::new(-1, 5)));
    assert!(!Rectangle::new(Point::new(0, 0), Size::new(0, 10)).contains(&Point::new(0, 0)));
}

#[test]
fn rectangle_plus_displacement_moves_the_corner() {
    let r = Rectangle::new(Point::new(10, 20), Size::new(30, 40));
    let moved = r + Displacement::new(-800, 0);
    assert_eq!(moved, Rectangle::new(Point::new(-790, 20), Size::new(30, 40)));
    assert_eq!(r.translate(Displacement::new(1, 2)).top_left, Point::new(11, 22));
}

#[test]
fn saturating_helpers() {
    assert_eq!(saturate(5_000_000_000), i32::MAX);
    assert_eq!(saturate(-5_000_000_000), i32::MIN);
    assert_eq!(saturate(-7), -7);
    assert_eq!(sat_add(i32::MAX, 1), i32::MAX);
    assert_eq!(sat_add(2, 3), 5);
    assert_eq!(sat_sub(i32::MIN, 1), i32::MIN);
    assert_eq!(sat_sub(2, 3), -1);
    assert_eq!(halve(7), 3);
    assert_eq!(halve(-7), -3);
}
