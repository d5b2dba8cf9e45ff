use std::cell::RefCell;
use std::rc::Rc;

use simple_layout::align::{Alignment, CenteredAlignment, EndAlignment, StartAlignment};
use simple_layout::border::inset;
use simple_layout::linear::{place_slots, Horizontal, Orientation, Vertical};
use simple_layout::padding::padding;
use simple_layout::prelude::{
    bordered, center, east, expand, expand_horizontal, expand_vertical, horizontal_layout, north,
    south, vertical_layout, west, ComponentSize, DashedLine, Decorator, DrawSurface, Layoutable,
    Pixel, Point, Rectangle, RoundedLine, Size, ValueRange,
};

struct Recorder {
    pixels: Vec<(Point, u8)>,
    fail: bool,
}

impl Recorder {
    fn new() -> Recorder {
        Recorder { pixels: Vec::new(), fail: false }
    }
}

impl DrawSurface<u8> for Recorder {
    type Error = &'static str;

    fn bounding_box(&self) -> Rectangle {
        Rectangle::new(Point::new(0, 0), Size::new(64, 64))
    }

    fn draw_pixels(&mut self, pixels: &Vec<Pixel<u8>>) -> Result<(), Self::Error> {
        if self.fail {
            return Err("surface full");
        }
        for p in pixels {
            self.pixels.push((p.point, p.color));
        }
        Ok(())
    }
}

/// A plain element of a given size that logs where it is drawn.
struct Block {
    size: ComponentSize,
    log: Rc<RefCell<Vec<Rectangle>>>,
}

impl Block {
    fn fixed(w: u32, h: u32) -> (Block, Rc<RefCell<Vec<Rectangle>>>) {
        Block::sized(ComponentSize::fixed_size(w, h))
    }

    fn sized(size: ComponentSize) -> (Block, Rc<RefCell<Vec<Rectangle>>>) {
        let log = Rc::new(RefCell::new(Vec::new()));
        (Block { size, log: log.clone() }, log)
    }
}

impl Layoutable<u8> for Block {
    fn size(&self) -> ComponentSize {
        self.size
    }

    fn draw_placed<S: DrawSurface<u8>>(
        &self,
        target: &mut S,
        position: Rectangle,
    ) -> Result<(), S::Error> {
        self.log.borrow_mut().push(position);
        target.draw_pixels(&vec![Pixel { point: position.top_left, color: 9 }])
    }
}

fn rect(x: i32, y: i32, w: u32, h: u32) -> Rectangle {
    Rectangle::new(Point::new(x, y), Size::new(w, h))
}

fn fixed(v: u32) -> ValueRange {
    ValueRange::fixed(v)
}

#[test]
fn center_five_in_eleven() {
    assert_eq!(CenteredAlignment::place(11, fixed(5)), (3, 5));
    let (block, log) = Block::fixed(5, 5);
    let centered = center(block);
    let mut surface = Recorder::new();
    centered.draw_placed(&mut surface, rect(0, 0, 11, 5)).unwrap();
    assert_eq!(log.borrow()[0], rect(3, 0, 5, 5));
}

#[test]
fn alignment_rules_place_and_size() {
    let r = ValueRange::new(6, 4, 8);
    assert_eq!(StartAlignment::place(20, r), (0, 8));
    assert_eq!(CenteredAlignment::place(20, r), (6, 8));
    assert_eq!(EndAlignment::place(20, r), (12, 8));
    assert_eq!(StartAlignment::place(2, r), (0, 4));
    assert_eq!(CenteredAlignment::place(2, r), (-1, 4));
    assert_eq!(EndAlignment::place(2, r), (-2, 4));
    assert_eq!(StartAlignment::place(7, r), (0, 7));
    assert_eq!(CenteredAlignment::place(7, r), (0, 7));
    assert_eq!(EndAlignment::place(7, r), (0, 7));
    assert_eq!(CenteredAlignment::place(8, r), (0, 8));
    assert_eq!(CenteredAlignment::place(3, r), (0, 4));
}

#[test]
fn alignment_extent_stays_in_range() {
    let r = ValueRange::new(6, 4, 8);
    for available in 0..30u32 {
        for (_, e) in [
            StartAlignment::place(available, r),
            CenteredAlignment::place(available, r),
            EndAlignment::place(available, r),
        ] {
            assert!(4 <= e && e <= 8);
            if available >= 8 {
                assert_eq!(e, 8);
            }
        }
    }
}

#[test]
fn compass_wrappers_place_children() {
    let area = rect(10, 20, 30, 40);
    let (b, log) = Block::fixed(4, 6);
    west(b).draw_placed(&mut Recorder::new(), area).unwrap();
    assert_eq!(log.borrow()[0], rect(10, 37, 4, 6));
    let (b, log) = Block::fixed(4, 6);
    east(b).draw_placed(&mut Recorder::new(), area).unwrap();
    assert_eq!(log.borrow()[0], rect(36, 37, 4, 6));
    let (b, log) = Block::fixed(4, 6);
    north(b).draw_placed(&mut Recorder::new(), area).unwrap();
    assert_eq!(log.borrow()[0], rect(23, 20, 4, 6));
    let (b, log) = Block::fixed(4, 6);
    south(b).draw_placed(&mut Recorder::new(), area).unwrap();
    assert_eq!(log.borrow()[0], rect(23, 54, 4, 6));
}

#[test]
fn alignment_keeps_child_size() {
    let (b, _) = Block::fixed(4, 6);
    assert_eq!(center(b).size(), ComponentSize::fixed_size(4, 6));
}

#[test]
fn size_is_repeatable() {
    let (a, _) = Block::fixed(4, 6);
    let (b, _) = Block::fixed(3, 9);
    let layout = vertical_layout(bordered(a, DashedLine::new(1, 1, 1u8)), 1).append(center(b), 2);
    let first = layout.size();
    let second = layout.size();
    assert_eq!(first, second);
    let mut surface = Recorder::new();
    layout.draw_placed(&mut surface, rect(0, 0, 20, 30)).unwrap();
    assert_eq!(layout.size(), first);
}

#[test]
fn border_adds_twice_the_width() {
    let size = ComponentSize::new(10, 20, 5..30, 15..40);
    let (b, _) = Block::sized(size);
    let dashed = bordered(b, DashedLine::new(2, 2, 1u8));
    assert_eq!(dashed.size(), ComponentSize::new(12, 22, 7..32, 17..42));
    let (b, _) = Block::sized(size);
    let rounded = bordered(b, RoundedLine::new(1u8));
    assert_eq!(rounded.size(), ComponentSize::new(14, 24, 9..34, 19..44));
}

#[test]
fn border_draws_child_inset() {
    let (b, log) = Block::fixed(4, 4);
    let mut surface = Recorder::new();
    bordered(b, RoundedLine::new(1u8)).draw_placed(&mut surface, rect(5, 6, 20, 10)).unwrap();
    assert_eq!(log.borrow()[0], rect(7, 8, 16, 6));
    assert_eq!(inset(rect(0, 0, 1, 1), 2), rect(2, 2, 0, 0));
}

#[test]
fn dashed_line_paints_pattern_around_perimeter() {
    let line = DashedLine::new(2, 2, 1u8);
    let points = line.outline(rect(0, 0, 7, 7));
    let expected = vec![
        Point::new(0, 0),
        Point::new(1, 0),
        Point::new(4, 0),
        Point::new(5, 0),
        Point::new(6, 2),
        Point::new(6, 3),
        Point::new(6, 6),
        Point::new(5, 6),
        Point::new(2, 6),
        Point::new(1, 6),
        Point::new(0, 4),
        Point::new(0, 3),
    ];
    assert_eq!(points, expected);
    let mut surface = Recorder::new();
    line.draw_placed(&mut surface, rect(0, 0, 7, 7)).unwrap();
    let painted: Vec<Point> = surface.pixels.iter().map(|(p, _)| *p).collect();
    assert_eq!(painted, expected);
    assert!(surface.pixels.iter().all(|(_, c)| *c == 1));
}

#[test]
fn dashed_line_edge_cases() {
    assert!(DashedLine::new(0, 0, 1u8).outline(rect(0, 0, 7, 7)).is_empty());
    assert!(DashedLine::new(3, 0, 1u8).outline(rect(0, 0, 0, 7)).is_empty());
    assert_eq!(DashedLine::new(1, 0, 1u8).outline(rect(0, 0, 3, 3)).len(), 8);
}

#[test]
fn rounded_line_outline() {
    let mut surface = Recorder::new();
    RoundedLine::new(3u8).draw_placed(&mut surface, rect(0, 0, 6, 5)).unwrap();
    let painted: Vec<Point> = surface.pixels.iter().map(|(p, _)| *p).collect();
    let expected = vec![
        Point::new(2, 0),
        Point::new(3, 0),
        Point::new(4, 1),
        Point::new(5, 2),
        Point::new(4, 3),
        Point::new(3, 4),
        Point::new(2, 4),
        Point::new(1, 3),
        Point::new(0, 2),
        Point::new(1, 1),
    ];
    assert_eq!(painted, expected);
}

#[test]
fn padding_moves_and_shrinks_child() {
    let (b, log) = Block::fixed(4, 4);
    let padded = padding(b, 1, 2, 3, 4);
    padded.draw_placed(&mut Recorder::new(), rect(10, 10, 20, 20)).unwrap();
    assert_eq!(log.borrow()[0], rect(14, 11, 14, 16));
    assert_eq!(padded.size(), ComponentSize::fixed_size(10, 8));
}

#[test]
fn padding_matches_drawing_into_shrunk_rect() {
    let (b1, log1) = Block::fixed(4, 4);
    let (b2, log2) = Block::fixed(4, 4);
    let r = rect(3, 5, 30, 20);
    let mut s1 = Recorder::new();
    let mut s2 = Recorder::new();
    padding(b1, 2, -1, 4, 3).draw_placed(&mut s1, r).unwrap();
    b2.draw_placed(&mut s2, rect(3 + 3, 5 + 2, 30 - (3 - 1), 20 - (2 + 4))).unwrap();
    assert_eq!(log1.borrow()[0], log2.borrow()[0]);
    assert_eq!(s1.pixels, s2.pixels);
}

#[test]
fn negative_padding_saturates() {
    let (b, _) = Block::fixed(2, 2);
    let padded = padding(b, -5, 0, 0, 0);
    assert_eq!(padded.size(), ComponentSize::fixed_size(2, 0));
    let (b, log) = Block::fixed(2, 2);
    padding(b, 0, 10, 0, 10).draw_placed(&mut Recorder::new(), rect(0, 0, 5, 5)).unwrap();
    assert_eq!(log.borrow()[0], rect(10, 0, 0, 5));
}

#[test]
fn expand_lifts_upper_bounds() {
    let size = ComponentSize::new(10, 20, 5..30, 15..40);
    let (b, _) = Block::sized(size);
    assert_eq!(expand(b).size(), ComponentSize::new(10, 20, 5..u32::MAX, 15..u32::MAX));
    let (b, _) = Block::sized(size);
    assert_eq!(expand_horizontal(b).size(), ComponentSize::new(10, 20, 5..u32::MAX, 15..40));
    let (b, _) = Block::sized(size);
    assert_eq!(expand_vertical(b).size(), ComponentSize::new(10, 20, 5..30, 15..u32::MAX));
}

#[test]
fn absent_element_is_empty() {
    let none: Option<Block> = None;
    assert_eq!(none.size(), ComponentSize::fixed_size(0, 0));
    let mut surface = Recorder::new();
    none.draw_placed(&mut surface, rect(0, 0, 5, 5)).unwrap();
    assert!(surface.pixels.is_empty());
    let (b, log) = Block::fixed(3, 3);
    let some = Some(b);
    assert_eq!(some.size(), ComponentSize::fixed_size(3, 3));
    some.draw_placed(&mut surface, rect(1, 1, 5, 5)).unwrap();
    assert_eq!(log.borrow().len(), 1);
}

#[test]
fn horizontal_layout_size_and_placement() {
    let (a, log_a) = Block::sized(ComponentSize::new(10, 4, 5..100, 4..4));
    let (b, log_b) = Block::sized(ComponentSize::new(20, 6, 5..100, 2..8));
    let (c, log_c) = Block::sized(ComponentSize::new(10, 3, 5..100, 3..9));
    let layout = horizontal_layout(a, 1).append(b, 1).append(c, 1);
    assert_eq!(layout.size(), ComponentSize::new(40, 6, 15..300, 4..9));
    let places = layout.placements(rect(2, 3, 30, 7));
    assert_eq!(places, vec![rect(2, 3, 7, 7), rect(9, 3, 17, 7), rect(26, 3, 6, 7)]);
    layout.draw_placed(&mut Recorder::new(), rect(2, 3, 30, 7)).unwrap();
    assert_eq!(log_a.borrow()[0], rect(2, 3, 7, 7));
    assert_eq!(log_b.borrow()[0], rect(9, 3, 17, 7));
    assert_eq!(log_c.borrow()[0], rect(26, 3, 6, 7));
}

#[test]
fn vertical_layout_stacks_children() {
    let (a, log_a) = Block::sized(ComponentSize::new(4, 10, 4..4, 0..100));
    let (b, log_b) = Block::fixed(6, 5);
    let layout = vertical_layout(a, 1).append(b, 0);
    assert_eq!(layout.size(), ComponentSize::new(6, 15, 6..6, 5..105));
    layout.draw_placed(&mut Recorder::new(), rect(0, 0, 8, 40)).unwrap();
    assert_eq!(log_a.borrow()[0], rect(0, 0, 8, 35));
    assert_eq!(log_b.borrow()[0], rect(0, 35, 8, 5));
}

#[test]
fn surface_error_stops_drawing() {
    let (a, log_a) = Block::fixed(3, 3);
    let (b, log_b) = Block::fixed(3, 3);
    let layout = horizontal_layout(a, 1).append(b, 1);
    let mut surface = Recorder::new();
    surface.fail = true;
    assert_eq!(layout.draw_placed(&mut surface, rect(0, 0, 6, 3)), Err("surface full"));
    assert_eq!(log_a.borrow().len(), 1);
    assert!(log_b.borrow().is_empty());
    let (c, log_c) = Block::fixed(3, 3);
    let framed = bordered(c, DashedLine::new(1, 1, 1u8));
    assert_eq!(framed.draw_placed(&mut surface, rect(0, 0, 6, 6)), Err("surface full"));
    assert!(log_c.borrow().is_empty());
}

#[test]
fn orientations_map_along_and_across() {
    let size = ComponentSize::new(10, 20, 5..30, 15..40);
    assert_eq!(Horizontal::split_component_size(size), (size.width, size.height));
    assert_eq!(Vertical::split_component_size(size), (size.height, size.width));
    assert_eq!(Horizontal::split_size(Size::new(3, 4)), (3, 4));
    assert_eq!(Vertical::split_size(Size::new(3, 4)), (4, 3));
    assert_eq!(Horizontal::split_point(Point::new(-1, 2)), (-1, 2));
    assert_eq!(Vertical::split_point(Point::new(-1, 2)), (2, -1));
    assert_eq!(Vertical::create_point(2, -1), Point::new(-1, 2));
    assert_eq!(Vertical::create_size(4, 3), Size::new(3, 4));
    assert_eq!(Vertical::create_component_size(size.height, size.width), size);
    assert_eq!(Horizontal::create_component_size(size.width, size.height), size);
}

#[test]
fn slots_follow_each_other() {
    let places = place_slots::<Vertical>(rect(1, 2, 9, 50), &vec![5, 0, 7]);
    assert_eq!(places, vec![rect(1, 2, 9, 5), rect(1, 7, 9, 0), rect(1, 7, 9, 7)]);
}

/// A surface that accepts a number of writes and then refuses every one.
struct Limited {
    pixels: Vec<Point>,
    writes_left: u32,
}

impl DrawSurface<u8> for Limited {
    type Error = u32;

    fn bounding_box(&self) -> Rectangle {
        Rectangle::new(Point::new(0, 0), Size::new(64, 64))
    }

    fn draw_pixels(&mut self, pixels: &Vec<Pixel<u8>>) -> Result<(), Self::Error> {
        if self.writes_left == 0 {
            return Err(7);
        }
        self.writes_left -= 1;
        self.pixels.extend(pixels.iter().map(|p| p.point));
        Ok(())
    }
}

#[test]
fn child_error_is_returned_and_later_children_skipped() {
    let (a, log_a) = Block::fixed(3, 3);
    let (b, log_b) = Block::fixed(3, 3);
    let (c, log_c) = Block::fixed(3, 3);
    let layout = horizontal_layout(a, 1).append(b, 1).append(c, 1);
    let mut surface = Limited { pixels: Vec::new(), writes_left: 1 };
    assert_eq!(layout.draw_placed(&mut surface, rect(0, 0, 9, 3)), Err(7));
    assert_eq!(log_a.borrow().len(), 1);
    assert_eq!(log_b.borrow().len(), 1);
    assert!(log_c.borrow().is_empty());
    assert_eq!(surface.pixels, vec![Point::new(0, 0)]);
}

#[test]
fn absent_element_leaves_failing_surface_alone() {
    let none: Option<Block> = None;
    let mut surface = Limited { pixels: Vec::new(), writes_left: 0 };
    assert_eq!(none.draw_placed(&mut surface, rect(0, 0, 5, 5)), Ok(()));
    assert!(surface.pixels.is_empty());
}
