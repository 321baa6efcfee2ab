use ui_overlay::widgets::{
    rect_into_points, Button, GetMesh, IntersectsPoint, Point2, Rect, Rectangle,
};

fn button(x: i32, y: i32, width: i32, height: i32) -> Button {
    let mut button = Button::default();
    button.set_size(width, height);
    button.set_position(x, y);
    button
}

#[test]
fn corners_of_a_widget_intersect() {
    let widget = button(10, 10, 50, 50);
    assert!(widget.intersects_point(10, 10));
    assert!(widget.intersects_point(60, 10));
    assert!(widget.intersects_point(60, 60));
    assert!(widget.intersects_point(10, 60));
}

#[test]
fn points_next_to_an_edge_do_not_intersect() {
    let widget = button(10, 10, 50, 50);
    assert!(!widget.intersects_point(9, 30));
    assert!(!widget.intersects_point(61, 30));
    assert!(!widget.intersects_point(30, 9));
    assert!(!widget.intersects_point(30, 61));
    assert!(!widget.intersects_point(9, 9));
    assert!(!widget.intersects_point(61, 61));
}

#[test]
fn points_a_thousandth_outside_do_not_intersect() {
    // The same widget with a thousandth of a pixel as the unit.
    let widget = button(10_000, 10_000, 50_000, 50_000);
    assert!(widget.intersects_point(10_000, 10_000));
    assert!(widget.intersects_point(60_000, 10_000));
    assert!(widget.intersects_point(60_000, 60_000));
    assert!(widget.intersects_point(10_000, 60_000));
    assert!(!widget.intersects_point(9_999, 30_000));
    assert!(!widget.intersects_point(60_001, 30_000));
}

#[test]
fn edges_and_interior_intersect() {
    let widget = button(10, 10, 50, 50);
    assert!(widget.intersects_point(35, 35));
    assert!(widget.intersects_point(10, 30));
    assert!(widget.intersects_point(60, 30));
    assert!(widget.intersects_point(30, 10));
    assert!(widget.intersects_point(30, 60));
}

#[test]
fn default_button_has_no_size_and_sits_at_the_origin() {
    let widget = Button::default();
    assert_eq!(widget.get_mesh(), Rect { x: 0, y: 0, w: 0, h: 0 });
}

#[test]
fn rectangle_without_area_holds_only_its_own_corner() {
    let widget = button(7, -3, 0, 0);
    assert!(widget.intersects_point(7, -3));
    assert!(!widget.intersects_point(8, -3));
    assert!(!widget.intersects_point(6, -3));
    assert!(!widget.intersects_point(7, -2));
    assert!(!widget.intersects_point(7, -4));
}

#[test]
fn negative_size_never_intersects() {
    let narrow = button(10, 10, -5, 50);
    let flat = button(10, 10, 50, -5);
    for x in 0..70 {
        for y in 0..70 {
            assert!(!narrow.intersects_point(x, y));
            assert!(!flat.intersects_point(x, y));
        }
    }
}

#[test]
fn set_position_keeps_the_size() {
    let mut widget = button(1, 2, 30, 40);
    widget.set_position(-5, 9);
    assert_eq!(widget.get_mesh(), Rect { x: -5, y: 9, w: 30, h: 40 });
}

#[test]
fn set_size_keeps_the_position() {
    let mut widget = button(1, 2, 30, 40);
    widget.set_size(7, 8);
    assert_eq!(widget.get_mesh(), Rect { x: 1, y: 2, w: 7, h: 8 });
}

#[test]
fn setters_overwrite_earlier_values() {
    let mut widget = Button::default();
    widget.set_size(120, 60);
    widget.set_position(100, 50);
    widget.set_size(10, 20);
    widget.set_position(3, 4);
    assert_eq!(widget.get_mesh(), Rect { x: 3, y: 4, w: 10, h: 20 });
    assert!(widget.intersects_point(13, 24));
    assert!(!widget.intersects_point(100, 50));
}

#[test]
fn shared_edge_belongs_to_both_neighbours() {
    let left = button(0, 0, 50, 50);
    let right = button(50, 0, 50, 50);
    for y in 0..=50 {
        assert!(left.intersects_point(50, y));
        assert!(right.intersects_point(50, y));
    }
    assert!(!right.intersects_point(49, 10));
    assert!(!left.intersects_point(51, 10));
}

#[test]
fn far_corner_beyond_the_coordinate_range_is_not_wrapped() {
    let widget = button(i32::MAX, i32::MAX, i32::MAX, i32::MAX);
    assert!(widget.intersects_point(i32::MAX, i32::MAX));
    assert!(!widget.intersects_point(i32::MAX - 1, i32::MAX));
    assert!(!widget.intersects_point(i32::MIN, i32::MIN));

    let low = button(i32::MIN, i32::MIN, i32::MIN, i32::MIN);
    assert!(!low.intersects_point(i32::MIN, i32::MIN));
    assert!(!low.intersects_point(0, 0));

    let whole = button(i32::MIN, i32::MIN, i32::MAX, i32::MAX);
    assert!(whole.intersects_point(i32::MIN, i32::MIN));
    assert!(whole.intersects_point(-1, -1));
    assert!(!whole.intersects_point(0, 0));
}

#[test]
fn rect_is_hit_tested_like_a_button() {
    let rect = Rect { x: 10, y: 10, w: 50, h: 50 };
    assert_eq!(rect.get_pos_x(), 10);
    assert_eq!(rect.get_pos_y(), 10);
    assert_eq!(rect.get_width(), 50);
    assert_eq!(rect.get_height(), 50);
    assert!(rect.intersects_point(10, 10));
    assert!(rect.intersects_point(60, 60));
    assert!(!rect.intersects_point(61, 60));
    assert_eq!(rect.get_mesh(), rect);
}

#[test]
fn getters_are_not_mixed_up() {
    let rect = Rect { x: 1, y: 2, w: 3, h: 4 };
    assert_eq!(rect.get_pos_x(), 1);
    assert_eq!(rect.get_pos_y(), 2);
    assert_eq!(rect.get_width(), 3);
    assert_eq!(rect.get_height(), 4);
    assert!(rect.intersects_point(4, 6));
    assert!(!rect.intersects_point(5, 6));
    assert!(!rect.intersects_point(4, 7));
}

#[test]
fn rect_into_points_goes_clockwise_from_the_top_left() {
    let points = rect_into_points(Rect { x: 100, y: 50, w: 120, h: 60 });
    assert_eq!(points[0], Point2 { x: 100, y: 50 });
    assert_eq!(points[1], Point2 { x: 220, y: 50 });
    assert_eq!(points[2], Point2 { x: 220, y: 110 });
    assert_eq!(points[3], Point2 { x: 100, y: 110 });
}

#[test]
fn rect_into_points_of_a_button_mesh() {
    let widget = button(-10, -20, 30, 5);
    let points = rect_into_points(widget.get_mesh());
    assert_eq!(
        points,
        [
            Point2::new(-10, -20),
            Point2::new(20, -20),
            Point2::new(20, -15),
            Point2::new(-10, -15),
        ]
    );
}

#[test]
fn rect_into_points_does_not_wrap_at_the_coordinate_range() {
    let points = rect_into_points(Rect { x: i32::MAX, y: i32::MAX, w: i32::MAX, h: 1 });
    assert_eq!(points[0], Point2 { x: 2_147_483_647, y: 2_147_483_647 });
    assert_eq!(points[1], Point2 { x: 4_294_967_294, y: 2_147_483_647 });
    assert_eq!(points[2], Point2 { x: 4_294_967_294, y: 2_147_483_648 });
    assert_eq!(points[3], Point2 { x: 2_147_483_647, y: 2_147_483_648 });
}

#[test]
fn rect_into_points_keeps_a_negative_size() {
    let points = rect_into_points(Rect { x: 10, y: 10, w: -4, h: -6 });
    assert_eq!(points[0], Point2 { x: 10, y: 10 });
    assert_eq!(points[1], Point2 { x: 6, y: 10 });
    assert_eq!(points[2], Point2 { x: 6, y: 4 });
    assert_eq!(points[3], Point2 { x: 10, y: 4 });
}

#[test]
fn point2_new_keeps_its_coordinates_apart() {
    let point = Point2::new(3, -4);
    assert_eq!(point.x, 3);
    assert_eq!(point.y, -4);
}
