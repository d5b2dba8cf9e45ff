//! Borders: an inset band around an element, painted with a pattern.
use vstd::prelude::*;

use crate::geometry::{clamp_coord, point_at, Pixel, Point, Rectangle, Size};
use crate::layoutable::{
    lemma_prefix_after_full, lemma_prefix_of_first, wrote_prefix, DrawSurface, Layoutable,
};
use crate::{sat, ComponentSize};

verus! {

/// A pattern painted around the outline of a rectangle.
pub trait Decorator<C> {
    /// The width of the band the pattern needs. The decorators of this library
    /// define it; for one written outside verified code the default below is
    /// only a stand-in, and what its `width` returns is taken on trust.
    closed spec fn spec_width(&self) -> u32 {
        0
    }

    /// The pixels the pattern paints around `position`, in order; for a
    /// decorator written outside verified code the default below is only a
    /// stand-in, and its drawing is taken on trust.
    closed spec fn spec_pixels(&self, position: Rectangle) -> Seq<Pixel<C>> {
        Seq::empty()
    }

    /// How much space to reserve on each side for the pattern.
    fn width(&self) -> (r: u32)
        ensures
            r == self.spec_width(),
    ;

    /// Paints the pattern along the outline of `position`; on success its
    /// pixels follow what the surface held. The surface's error is returned
    /// unchanged, after at most a leading part of the pattern.
    fn draw_placed<S: DrawSurface<C>>(&self, target: &mut S, position: Rectangle) -> (r: Result<
        (),
        S::Error,
    >)
        ensures
            r is Ok ==> final(target).written() == old(target).written() + self.spec_pixels(
                position,
            ),
            r matches Err(e) ==> final(target).failure() == Some(e),
            r is Err ==> wrote_prefix(
                old(target).written(),
                final(target).written(),
                self.spec_pixels(position),
            ),
    ;
}

/// The points painted in one color.
pub open spec fn colored<C>(points: Seq<Point>, color: C) -> Seq<Pixel<C>> {
    Seq::new(points.len(), |i: int| Pixel { point: points[i], color })
}

/// `position` shrunk by `border` on every side; the size stops at zero.
pub open spec fn inset_rect(position: Rectangle, border: u32) -> Rectangle {
    Rectangle {
        top_left: point_at(position.top_left.x + border, position.top_left.y + border),
        size: Size {
            width: sat(position.size.width - 2 * border),
            height: sat(position.size.height - 2 * border),
        },
    }
}

/// The rectangle inside a border of width `border`.
pub fn inset(position: Rectangle, border: u32) -> (r: Rectangle)
    ensures
        r == inset_rect(position, border),
{
    let twice: u64 = 2 * border as u64;
    let width: u32 = if (position.size.width as u64) < twice {
        0
    } else {
        (position.size.width as u64 - twice) as u32
    };
    let height: u32 = if (position.size.height as u64) < twice {
        0
    } else {
        (position.size.height as u64 - twice) as u32
    };
    Rectangle {
        top_left: position.top_left.offset(border as i64, border as i64),
        size: Size { width, height },
    }
}

/// An element with a decorated border around it.
pub struct Bordered<L, D> {
    layoutable: L,
    decorator: D,
}

impl<L, D> Bordered<L, D> {
    pub closed spec fn spec_child(&self) -> L {
        self.layoutable
    }

    pub closed spec fn spec_decorator(&self) -> D {
        self.decorator
    }
}

/// Puts a border drawn by `decorator` around `layoutable`.
pub fn bordered<L, D>(layoutable: L, decorator: D) -> (r: Bordered<L, D>)
    ensures
        r.spec_child() == layoutable,
        r.spec_decorator() == decorator,
{
    Bordered { layoutable, decorator }
}

impl<C, L: Layoutable<C>, D: Decorator<C>> Layoutable<C> for Bordered<L, D> {
    open spec fn spec_size(&self) -> ComponentSize {
        let twice = 2 * self.spec_decorator().spec_width();
        self.spec_child().spec_size().grown(twice, twice)
    }

    /// The border's pattern around `position`, then the child inside it.
    open spec fn spec_pixels(&self, position: Rectangle) -> Seq<Pixel<C>> {
        self.spec_decorator().spec_pixels(position) + self.spec_child().spec_pixels(
            inset_rect(position, self.spec_decorator().spec_width()),
        )
    }

    fn size(&self) -> (r: ComponentSize) {
        let s = self.layoutable.size();
        let w = self.decorator.width();
        let offset = w.saturating_add(w);
        ComponentSize { width: s.width.add_value(offset), height: s.height.add_value(offset) }
    }

    fn draw_placed<S: DrawSurface<C>>(&self, target: &mut S, position: Rectangle) -> (r: Result<
        (),
        S::Error,
    >) {
        let ghost before = target.written();
        let border = self.decorator.width();
        let inner_position = inset(position, border);
        let ghost frame = self.spec_decorator().spec_pixels(position);
        let ghost inner = self.spec_child().spec_pixels(inset_rect(position, border));
        match self.decorator.draw_placed(target, position) {
            Ok(()) => {
                let ghost middle = target.written();
                let r = self.layoutable.draw_placed(target, inner_position);
                proof {
                    if r is Ok {
                        assert(target.written() =~= before + self.spec_pixels(position));
                    } else {
                        lemma_prefix_after_full(before, frame, inner, target.written());
                    }
                }
                r
            },
            Err(e) => {
                proof {
                    lemma_prefix_of_first(before, frame, inner, target.written());
                }
                Err(e)
            },
        }
    }
}

/// A bordered element asks for its child's size plus twice the decorator's
/// width on both axes.
pub proof fn lemma_border_size<C, L: Layoutable<C>, D: Decorator<C>>(b: Bordered<L, D>)
    ensures
        b.spec_size() == b.spec_child().spec_size().grown(
            2 * b.spec_decorator().spec_width(),
            2 * b.spec_decorator().spec_width(),
        ),
{
}

/// Number of pixels on the outline of `r`, walked once around.
pub open spec fn perimeter_len(r: Rectangle) -> int {
    if r.size.width == 0 || r.size.height == 0 {
        0
    } else {
        2 * (r.size.width - 1) + 2 * (r.size.height - 1)
    }
}

/// The `i`-th pixel of the outline of `r`, walked clockwise from the top left
/// corner: along the top edge, down the right edge, back along the bottom edge
/// and up the left edge.
pub open spec fn perimeter_point(r: Rectangle, i: int) -> Point {
    let w = r.size.width as int;
    let h = r.size.height as int;
    let sx = r.top_left.x as int;
    let sy = r.top_left.y as int;
    let ex = sx + w - 1;
    let ey = sy + h - 1;
    if i < w - 1 {
        point_at(sx + i, sy)
    } else if i < (w - 1) + (h - 1) {
        point_at(ex, sy + (i - (w - 1)))
    } else if i < 2 * (w - 1) + (h - 1) {
        point_at(ex - (i - (w - 1) - (h - 1)), ey)
    } else {
        point_at(sx, ey - (i - 2 * (w - 1) - (h - 1)))
    }
}

/// A dashed line paints step `i` of the outline exactly when `i` falls on a
/// dot of the repeating pattern of `dots` dots and `gaps` gaps.
pub open spec fn dash_painted(i: int, dots: u32, gaps: u32) -> bool {
    dots + gaps > 0 && i % (dots + gaps) < dots
}

/// The painted pixels among the first `n` steps of the outline, in order.
pub open spec fn dashed_points(r: Rectangle, dots: u32, gaps: u32, n: int) -> Seq<Point>
    decreases n,
{
    if n <= 0 {
        Seq::empty()
    } else if dash_painted(n - 1, dots, gaps) {
        dashed_points(r, dots, gaps, n - 1).push(perimeter_point(r, n - 1))
    } else {
        dashed_points(r, dots, gaps, n - 1)
    }
}

/// The `i`-th pixel of the outline of `r`.
pub fn outline_point(r: Rectangle, i: u64) -> (p: Point)
    requires
        i < perimeter_len(r),
    ensures
        p == perimeter_point(r, i as int),
{
    let w = r.size.width as i128;
    let h = r.size.height as i128;
    let sx = r.top_left.x as i128;
    let sy = r.top_left.y as i128;
    let ex = sx + w - 1;
    let ey = sy + h - 1;
    let i = i as i128;
    if i < w - 1 {
        Point { x: clamp_coord(sx + i), y: clamp_coord(sy) }
    } else if i < (w - 1) + (h - 1) {
        Point { x: clamp_coord(ex), y: clamp_coord(sy + (i - (w - 1))) }
    } else if i < 2 * (w - 1) + (h - 1) {
        Point { x: clamp_coord(ex - (i - (w - 1) - (h - 1))), y: clamp_coord(ey) }
    } else {
        Point { x: clamp_coord(sx), y: clamp_coord(ey - (i - 2 * (w - 1) - (h - 1))) }
    }
}

/// The pixels a dashed line paints around `position`: each step of the outline
/// whose index, counted continuously around the corners, falls on a dot.
pub fn dashed_outline(position: Rectangle, dot_count: u32, gap_count: u32) -> (r: Vec<Point>)
    ensures
        r@ == dashed_points(position, dot_count, gap_count, perimeter_len(position)),
{
    let len: u64 = if position.size.width == 0 || position.size.height == 0 {
        0
    } else {
        2 * (position.size.width as u64 - 1) + 2 * (position.size.height as u64 - 1)
    };
    let period: u64 = dot_count as u64 + gap_count as u64;
    let mut points: Vec<Point> = Vec::new();
    let mut i: u64 = 0;
    while i < len
        invariant
            i <= len == perimeter_len(position),
            period == dot_count + gap_count,
            points@ == dashed_points(position, dot_count, gap_count, i as int),
        decreases len - i,
    {
        if period > 0 && i % period < dot_count as u64 {
            points.push(outline_point(position, i));
        }
        i = i + 1;
    }
    points
}

/// Paints `points` in `color`.
fn paint<C: Copy, S: DrawSurface<C>>(target: &mut S, points: &Vec<Point>, color: C) -> (r: Result<
    (),
    S::Error,
>)
    ensures
        r is Ok ==> final(target).written() == old(target).written() + colored(points@, color),
        r matches Err(e) ==> final(target).failure() == Some(e),
        r is Err ==> wrote_prefix(old(target).written(), final(target).written(), colored(points@, color)),
{
    let mut pixels: Vec<Pixel<C>> = Vec::new();
    let mut i: usize = 0;
    while i < points.len()
        invariant
            i <= points.len(),
            pixels@.len() == i,
            forall|k: int|
                0 <= k < i ==> (#[trigger] pixels@[k]).point == points@[k] && pixels@[k].color
                    == color,
        decreases points.len() - i,
    {
        pixels.push(Pixel { point: points[i], color });
        i = i + 1;
    }
    assert(pixels@ =~= colored(points@, color));
    target.draw_pixels(&pixels)
}

/// A dashed border of width one.
pub struct DashedLine<C> {
    dot_count: u32,
    gap_count: u32,
    color: C,
}

impl<C> DashedLine<C> {
    pub closed spec fn spec_dot_count(&self) -> u32 {
        self.dot_count
    }

    pub closed spec fn spec_gap_count(&self) -> u32 {
        self.gap_count
    }

    pub closed spec fn spec_color(&self) -> C {
        self.color
    }

    /// A line of `dot_count` painted pixels followed by `gap_count` skipped
    /// ones, repeated.
    pub fn new(dot_count: u32, gap_count: u32, color: C) -> (r: Self)
        ensures
            r.spec_dot_count() == dot_count,
            r.spec_gap_count() == gap_count,
            r.spec_color() == color,
    {
        DashedLine { dot_count, gap_count, color }
    }

    /// The pixels this line paints around `position`.
    pub fn outline(&self, position: Rectangle) -> (r: Vec<Point>)
        ensures
            r@ == dashed_points(
                position,
                self.spec_dot_count(),
                self.spec_gap_count(),
                perimeter_len(position),
            ),
    {
        dashed_outline(position, self.dot_count, self.gap_count)
    }
}

impl<C: Copy> Decorator<C> for DashedLine<C> {
    open spec fn spec_width(&self) -> u32 {
        1
    }

    open spec fn spec_pixels(&self, position: Rectangle) -> Seq<Pixel<C>> {
        colored(
            dashed_points(
                position,
                self.spec_dot_count(),
                self.spec_gap_count(),
                perimeter_len(position),
            ),
            self.spec_color(),
        )
    }

    fn width(&self) -> (r: u32) {
        1
    }

    fn draw_placed<S: DrawSurface<C>>(&self, target: &mut S, position: Rectangle) -> (r: Result<
        (),
        S::Error,
    >) {
        let points = self.outline(position);
        paint(target, &points, self.color)
    }
}

/// `n` pixels starting at `(ax, ay)`, each one step of `(dx, dy)` after the
/// previous.
pub open spec fn run(ax: int, ay: int, dx: int, dy: int, n: int) -> Seq<Point> {
    Seq::new(if n < 0 { 0 } else { n as nat }, |k: int| point_at(ax + k * dx, ay + k * dy))
}

/// Appends `run(ax, ay, dx, dy, n)` to `out`.
fn push_run(out: &mut Vec<Point>, ax: i64, ay: i64, dx: i64, dy: i64, n: i64)
    requires
        -1 <= dx <= 1,
        -1 <= dy <= 1,
    ensures
        final(out)@ == old(out)@ + run(ax as int, ay as int, dx as int, dy as int, n as int),
{
    let ghost base = old(out)@;
    let mut k: i64 = 0;
    while k < n
        invariant
            0 <= k,
            n < 0 ==> k == 0,
            n >= 0 ==> k <= n,
            -1 <= dx <= 1,
            -1 <= dy <= 1,
            out@ == base + run(ax as int, ay as int, dx as int, dy as int, k as int),
        decreases n - k,
    {
        proof {
            assert(-(k as int) <= k * dx <= k) by (nonlinear_arith)
                requires
                    0 <= k,
                    -1 <= dx <= 1,
            ;
            assert(-(k as int) <= k * dy <= k) by (nonlinear_arith)
                requires
                    0 <= k,
                    -1 <= dy <= 1,
            ;
        }
        let x = clamp_coord(ax as i128 + (k as i128) * (dx as i128));
        let y = clamp_coord(ay as i128 + (k as i128) * (dy as i128));
        out.push(Point { x, y });
        proof {
            assert(out@ =~= base + run(ax as int, ay as int, dx as int, dy as int, k + 1));
        }
        k = k + 1;
    }
    assert(out@ =~= base + run(ax as int, ay as int, dx as int, dy as int, n as int));
}

/// The pixels of a rounded outline of `r`: the four edges stop two pixels
/// short of each corner, and one pixel set diagonally inward closes each
/// corner.
pub open spec fn rounded_points(r: Rectangle) -> Seq<Point> {
    let w = r.size.width as int;
    let h = r.size.height as int;
    let sx = r.top_left.x as int;
    let sy = r.top_left.y as int;
    let ex = sx + w - 1;
    let ey = sy + h - 1;
    run(sx + 2, sy, 1, 0, w - 4) + seq![point_at(ex - 1, sy + 1)] + run(ex, sy + 2, 0, 1, h - 4)
        + seq![point_at(ex - 1, ey - 1)] + run(ex - 2, ey, -1, 0, w - 4) + seq![
        point_at(sx + 1, ey - 1),
    ] + run(sx, ey - 2, 0, -1, h - 4) + seq![point_at(sx + 1, sy + 1)]
}

/// The pixels a rounded line paints around `position`.
pub fn rounded_outline(position: Rectangle) -> (r: Vec<Point>)
    ensures
        r@ == rounded_points(position),
{
    let w = position.size.width as i64;
    let h = position.size.height as i64;
    let sx = position.top_left.x as i64;
    let sy = position.top_left.y as i64;
    let ex = sx + w - 1;
    let ey = sy + h - 1;
    let mut points: Vec<Point> = Vec::new();
    push_run(&mut points, sx + 2, sy, 1, 0, w - 4);
    points.push(Point { x: clamp_coord(ex as i128 - 1), y: clamp_coord(sy as i128 + 1) });
    push_run(&mut points, ex, sy + 2, 0, 1, h - 4);
    points.push(Point { x: clamp_coord(ex as i128 - 1), y: clamp_coord(ey as i128 - 1) });
    push_run(&mut points, ex - 2, ey, -1, 0, w - 4);
    points.push(Point { x: clamp_coord(sx as i128 + 1), y: clamp_coord(ey as i128 - 1) });
    push_run(&mut points, sx, ey - 2, 0, -1, h - 4);
    points.push(Point { x: clamp_coord(sx as i128 + 1), y: clamp_coord(sy as i128 + 1) });
    proof {
        assert(points@ =~= rounded_points(position));
    }
    points
}

/// A border of width two with rounded corners.
pub struct RoundedLine<C> {
    color: C,
}

impl<C> RoundedLine<C> {
    pub closed spec fn spec_color(&self) -> C {
        self.color
    }

    /// A rounded line painted in `color`.
    pub fn new(color: C) -> (r: Self)
        ensures
            r.spec_color() == color,
    {
        RoundedLine { color }
    }
}

impl<C: Copy> Decorator<C> for RoundedLine<C> {
    open spec fn spec_width(&self) -> u32 {
        2
    }

    open spec fn spec_pixels(&self, position: Rectangle) -> Seq<Pixel<C>> {
        colored(rounded_points(position), self.spec_color())
    }

    fn width(&self) -> (r: u32) {
        2
    }

    fn draw_placed<S: DrawSurface<C>>(&self, target: &mut S, position: Rectangle) -> (r: Result<
        (),
        S::Error,
    >) {
        let points = rounded_outline(position);
        paint(target, &points, self.color)
    }
}

} // verus!
