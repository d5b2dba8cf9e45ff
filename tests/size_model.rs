use simple_layout::geometry::{clamp_coord, Point, Rectangle, Size};
use simple_layout::layoutable::text_block_size;
use simple_layout::scale::{scale_dots, scale_size};
use simple_layout::{ComponentSize, ValueRange};

#[test]
fn fixed_range_has_equal_values() {
    let r = ValueRange::fixed(7);
    assert_eq!((r.preferred_value, r.min_value, r.max_value), (7, 7, 7));
}

#[test]
fn adding_saturates_at_the_top() {
    let r = ValueRange::new(10, 5, u32::MAX - 1);
    assert_eq!(r.add_value(3), ValueRange::new(13, 8, u32::MAX));
    assert_eq!(r.add_signed(5), ValueRange::new(15, 10, u32::MAX));
    assert_eq!(r.add_signed(i64::MAX), ValueRange::new(u32::MAX, u32::MAX, u32::MAX));
}

#[test]
fn subtracting_saturates_at_zero() {
    let r = ValueRange::new(10, 5, 20);
    assert_eq!(r.sub_value(7), ValueRange::new(3, 0, 13));
    assert_eq!(r.add_signed(-7), ValueRange::new(3, 0, 13));
    assert_eq!(r.add_signed(i64::MIN), ValueRange::new(0, 0, 0));
    assert_eq!(r.add_signed(i32::MIN as i64), ValueRange::new(0, 0, 0));
}

#[test]
fn add_assign_adds_field_by_field() {
    let mut r = ValueRange::new(10, 5, 20);
    r.add_assign(&ValueRange::new(1, 2, u32::MAX));
    assert_eq!(r, ValueRange::new(11, 7, u32::MAX));
}

#[test]
fn expand_takes_field_wise_maximum() {
    let mut r = ValueRange::new(10, 5, 20);
    r.expand(&ValueRange::new(8, 6, 30));
    assert_eq!(r, ValueRange::new(10, 6, 30));
}

#[test]
fn expand_max_drops_upper_bound() {
    let r = ValueRange::new(10, 5, 20).expand_max();
    assert_eq!(r, ValueRange::new(10, 5, u32::MAX));
}

#[test]
fn component_size_constructors() {
    let s = ComponentSize::new(10, 20, 5..30, 15..40);
    assert_eq!(s.width, ValueRange::new(10, 5, 30));
    assert_eq!(s.height, ValueRange::new(20, 15, 40));
    let f = ComponentSize::fixed_size(3, 4);
    assert_eq!(f.width, ValueRange::fixed(3));
    assert_eq!(f.height, ValueRange::fixed(4));
    assert_eq!(ComponentSize::default(), ComponentSize::fixed_size(0, 0));
}

#[test]
fn text_block_from_line_boxes() {
    let lines = vec![Size::new(30, 9), Size::new(42, 9), Size::new(12, 9)];
    assert_eq!(text_block_size(&lines), ComponentSize::fixed_size(41, 27));
    assert_eq!(text_block_size(&vec![]), ComponentSize::fixed_size(0, 0));
    assert_eq!(
        text_block_size(&vec![Size::new(1, u32::MAX), Size::new(1, 5)]),
        ComponentSize::fixed_size(0, u32::MAX)
    );
}

#[test]
fn scale_has_fixed_height_and_open_width() {
    let s = scale_size();
    assert_eq!(s.width, ValueRange::new(11, 11, u32::MAX));
    assert_eq!(s.height, ValueRange::fixed(4));
}

#[test]
fn scale_dots_for_a_narrow_scale() {
    // Width 11: two dots fit, with no margin.
    let r = Rectangle::new(Point::new(0, 0), Size::new(11, 4));
    let columns: Vec<i32> = vec![1, 1, 9, 9, 3, 3, 4, 4];
    let points = scale_dots(r, 1);
    let xs: Vec<i32> = points.iter().map(|p| p.x).collect();
    let ys: Vec<i32> = points.iter().map(|p| p.y).collect();
    assert_eq!(xs, columns);
    assert_eq!(ys, vec![1, 2, 1, 2, 1, 2, 1, 2]);
}

#[test]
fn scale_dots_are_centered_and_capped() {
    // Width 13: two dots fit and one pixel of margin is left on the left.
    let r = Rectangle::new(Point::new(10, 20), Size::new(13, 4));
    let points = scale_dots(r, 7);
    let xs: Vec<i32> = points.iter().map(|p| p.x).collect();
    assert_eq!(xs, vec![12, 12, 20, 20, 14, 14, 15, 15, 17, 17, 18, 18]);
    assert!(points.iter().all(|p| p.y == 21 || p.y == 22));
    let narrow = Rectangle::new(Point::new(0, 0), Size::new(3, 4));
    assert_eq!(scale_dots(narrow, 5).len(), 4);
}

#[test]
fn coordinates_clamp() {
    assert_eq!(clamp_coord(5), 5);
    assert_eq!(clamp_coord(i128::MAX), i32::MAX);
    assert_eq!(clamp_coord(-(1i128 << 40)), i32::MIN);
    assert_eq!(Point::new(i32::MAX, 0).offset(10, -3), Point::new(i32::MAX, -3));
}
