//! A proportional scale: a row of 2x2 dots between two end marks, of which a
//! leading part is lit.
use vstd::prelude::*;

use crate::geometry::{clamp_coord, point_at, Point, Rectangle};
use crate::{ComponentSize, ValueRange};

verus! {

/// The size of a scale: at least eleven pixels wide and as wide as it is
/// offered, four pixels high.
pub fn scale_size() -> (r: ComponentSize)
    ensures
        r.width == (ValueRange { preferred_value: 11, min_value: 11, max_value: u32::MAX }),
        r.height == (ValueRange { preferred_value: 4, min_value: 4, max_value: 4 }),
{
    ComponentSize { width: ValueRange::fixed(11).expand_max(), height: ValueRange::fixed(4) }
}

/// The dots that fit beside the end marks: three pixels each, after five
/// pixels for the marks and their spacing.
pub open spec fn scale_dot_count(width: u32) -> int {
    if width < 5 {
        0
    } else {
        (width - 5) / 3
    }
}

/// How many dots fit into a scale `width` pixels wide.
pub fn scale_capacity(width: u32) -> (r: u32)
    ensures
        r == scale_dot_count(width),
{
    if width < 5 {
        0
    } else {
        (width - 5) / 3
    }
}

/// The space left of the first end mark, so that the marks and dots are centered.
pub open spec fn scale_margin(width: u32) -> int {
    let rest = width - 3 * scale_dot_count(width) - 4;
    if rest < 0 {
        0
    } else {
        rest / 2
    }
}

/// The columns painted, relative to the margin: the two end marks, then two
/// columns for each lit dot.
pub open spec fn scale_columns(dots: int, lit: int) -> Seq<int> {
    seq![1, 3 * dots + 3] + Seq::new((2 * lit) as nat, |k: int| 3 * (k / 2) + 3 + k % 2)
}

/// The pixels of a scale drawn into `position` with `lit` dots lit (at most
/// as many as fit): every painted column is two pixels high, one row below the
/// top of `position`.
pub open spec fn scale_points(position: Rectangle, lit: u32) -> Seq<Point> {
    let w = position.size.width;
    let dots = scale_dot_count(w);
    let shown = if lit < dots {
        lit as int
    } else {
        dots
    };
    let cols = scale_columns(dots, shown);
    let x0 = position.top_left.x + scale_margin(w);
    Seq::new(2 * cols.len(), |j: int| point_at(x0 + cols[j / 2], position.top_left.y + 1 + j % 2))
}

/// The pixels of a scale with `lit` dots lit, drawn into `position`.
pub fn scale_dots(position: Rectangle, lit: u32) -> (r: Vec<Point>)
    ensures
        r@ == scale_points(position, lit),
{
    let w = position.size.width;
    let dots = scale_capacity(w);
    let margin: u32 = if (w as u64) < 3 * dots as u64 + 4 {
        0
    } else {
        ((w as u64 - 3 * dots as u64 - 4) / 2) as u32
    };
    let shown: u32 = if lit < dots {
        lit
    } else {
        dots
    };
    let ghost cols_spec = scale_columns(dots as int, shown as int);
    let mut cols: Vec<i64> = Vec::new();
    cols.push(1);
    cols.push(3 * dots as i64 + 3);
    let mut d: u32 = 0;
    while d < shown
        invariant
            d <= shown <= dots,
            dots <= u32::MAX / 3,
            cols@.len() == 2 + 2 * d,
            forall|k: int| 0 <= k < cols@.len() ==> #[trigger] cols@[k] == cols_spec[k],
            cols_spec == scale_columns(dots as int, shown as int),
        decreases shown - d,
    {
        cols.push(3 * d as i64 + 3);
        cols.push(3 * d as i64 + 4);
        d = d + 1;
    }
    let x0 = position.top_left.x as i64 + margin as i64;
    let y = position.top_left.y as i64;
    let mut points: Vec<Point> = Vec::new();
    let mut c: usize = 0;
    while c < cols.len()
        invariant
            c <= cols.len() == cols_spec.len(),
            forall|k: int| 0 <= k < cols@.len() ==> #[trigger] cols@[k] == cols_spec[k],
            forall|k: int| 0 <= k < cols@.len() ==> 0 <= #[trigger] cols@[k] <= 3 * 0x1_0000_0000,
            x0 == position.top_left.x + margin,
            y == position.top_left.y,
            points@.len() == 2 * c,
            forall|j: int|
                0 <= j < points@.len() ==> #[trigger] points@[j] == point_at(
                    x0 + cols_spec[j / 2],
                    y + 1 + j % 2,
                ),
        decreases cols.len() - c,
    {
        let col = cols[c];
        points.push(Point { x: clamp_coord(x0 as i128 + col as i128), y: clamp_coord(y as i128 + 1) });
        points.push(Point { x: clamp_coord(x0 as i128 + col as i128), y: clamp_coord(y as i128 + 2) });
        c = c + 1;
    }
    proof {
        assert(margin == scale_margin(w));
        assert(points@ =~= scale_points(position, lit));
    }
    points
}

} // verus!
