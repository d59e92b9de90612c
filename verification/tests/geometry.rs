//! Tests of the geometry primitives.

use coffee::graphics::{Point, Rectangle};

#[test]
fn contains_includes_all_four_edges() {
    let r = Rectangle { x: 10u32, y: 20u32, width: 30u32, height: 40u32 };
    assert!(r.contains(Point::new(10, 20)));
    assert!(r.contains(Point::new(40, 60)));
    assert!(r.contains(Point::new(25, 35)));
    assert!(!r.contains(Point::new(9, 20)));
    assert!(!r.contains(Point::new(41, 60)));
    assert!(!r.contains(Point::new(25, 61)));
}

#[test]
fn negative_cursor_positions_are_outside() {
    let r = Rectangle { x: 0u32, y: 0u32, width: 100u32, height: 100u32 };
    assert!(!r.contains(Point::new(-1, 5)));
    assert!(!r.contains(Point::new(5, -1)));
    assert!(r.contains(Point::new(0, 0)));
}

#[test]
fn contains_survives_the_largest_sizes() {
    let r = Rectangle { x: 0u32, y: 0u32, width: u32::MAX, height: u32::MAX };
    assert!(r.contains(Point::new(i32::MAX, i32::MAX)));
    assert!(!r.contains(Point::new(-1, 0)));
}
