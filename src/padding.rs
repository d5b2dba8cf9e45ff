//! Padding: extra space added to (or, with negative amounts, taken from) the
//! sides of an element.
use vstd::prelude::*;

use crate::geometry::{point_at, Pixel, Point, Rectangle, Size};
use crate::layoutable::{DrawSurface, Layoutable};
use crate::{sat, ComponentSize};

verus! {

/// Where the padded element goes inside `position`: moved by `left` and `top`,
/// and shrunk by the padding of both sides of each axis; the size stops at
/// zero.
pub open spec fn padded_rect(position: Rectangle, top: i32, right: i32, bottom: i32, left: i32) -> Rectangle {
    Rectangle {
        top_left: point_at(position.top_left.x + left, position.top_left.y + top),
        size: Size {
            width: sat(position.size.width - (left + right)),
            height: sat(position.size.height - (top + bottom)),
        },
    }
}

/// An element with padding around it.
pub struct Padding<L> {
    layoutable: L,
    top: i32,
    right: i32,
    bottom: i32,
    left: i32,
}

/// Adds `top`, `right`, `bottom` and `left` pixels around `layoutable`;
/// negative amounts take space away.
pub fn padding<L>(layoutable: L, top: i32, right: i32, bottom: i32, left: i32) -> (r: Padding<L>)
    ensures
        r.spec_child() == layoutable,
        r.spec_top() == top,
        r.spec_right() == right,
        r.spec_bottom() == bottom,
        r.spec_left() == left,
{
    Padding { layoutable, top, right, bottom, left }
}

impl<L> Padding<L> {
    pub closed spec fn spec_child(&self) -> L {
        self.layoutable
    }

    pub closed spec fn spec_top(&self) -> i32 {
        self.top
    }

    pub closed spec fn spec_right(&self) -> i32 {
        self.right
    }

    pub closed spec fn spec_bottom(&self) -> i32 {
        self.bottom
    }

    pub closed spec fn spec_left(&self) -> i32 {
        self.left
    }

    /// The rectangle the padded element is drawn into when the padding is
    /// given `position`.
    pub fn inner_position(&self, position: Rectangle) -> (r: Rectangle)
        ensures
            r == padded_rect(
                position,
                self.spec_top(),
                self.spec_right(),
                self.spec_bottom(),
                self.spec_left(),
            ),
    {
        let horizontal = self.left as i64 + self.right as i64;
        let vertical = self.top as i64 + self.bottom as i64;
        let width = position.size.width as i64 - horizontal;
        let height = position.size.height as i64 - vertical;
        Rectangle {
            top_left: position.top_left.offset(self.left as i64, self.top as i64),
            size: Size { width: clamp_extent(width), height: clamp_extent(height) },
        }
    }
}

/// `v` clamped into the range of `u32`.
fn clamp_extent(v: i64) -> (r: u32)
    ensures
        r == sat(v as int),
{
    if v < 0 {
        0
    } else if v > u32::MAX as i64 {
        u32::MAX
    } else {
        v as u32
    }
}

impl<C, L: Layoutable<C>> Layoutable<C> for Padding<L> {
    open spec fn spec_size(&self) -> ComponentSize {
        self.spec_child().spec_size().grown(
            self.spec_left() + self.spec_right(),
            self.spec_top() + self.spec_bottom(),
        )
    }

    /// The child drawn into the padded rectangle.
    open spec fn spec_pixels(&self, position: Rectangle) -> Seq<Pixel<C>> {
        self.spec_child().spec_pixels(
            padded_rect(
                position,
                self.spec_top(),
                self.spec_right(),
                self.spec_bottom(),
                self.spec_left(),
            ),
        )
    }

    fn size(&self) -> (r: ComponentSize) {
        let s = self.layoutable.size();
        ComponentSize {
            width: s.width.add_signed(self.left as i64 + self.right as i64),
            height: s.height.add_signed(self.top as i64 + self.bottom as i64),
        }
    }

    fn draw_placed<S: DrawSurface<C>>(&self, target: &mut S, position: Rectangle) -> Result<
        (),
        S::Error,
    > {
        let inner = self.inner_position(position);
        self.layoutable.draw_placed(target, inner)
    }
}

/// Drawing a padded element into `position` paints exactly the pixels that
/// drawing the element itself paints in `position` with its origin moved by
/// `(left, top)` and its size reduced by `(left + right, top + bottom)`,
/// whenever that reduced size is neither negative nor beyond `u32` (so that
/// such a rectangle exists) and the moved origin stays within the coordinate
/// range.
pub proof fn lemma_padding_composition<C, L: Layoutable<C>>(p: Padding<L>, position: Rectangle)
    requires
        0 <= position.size.width - (p.spec_left() + p.spec_right()) <= u32::MAX,
        0 <= position.size.height - (p.spec_top() + p.spec_bottom()) <= u32::MAX,
        i32::MIN <= position.top_left.x + p.spec_left() <= i32::MAX,
        i32::MIN <= position.top_left.y + p.spec_top() <= i32::MAX,
    ensures
        p.spec_pixels(position) == p.spec_child().spec_pixels(
            Rectangle {
                top_left: Point {
                    x: (position.top_left.x + p.spec_left()) as i32,
                    y: (position.top_left.y + p.spec_top()) as i32,
                },
                size: Size {
                    width: (position.size.width - (p.spec_left() + p.spec_right())) as u32,
                    height: (position.size.height - (p.spec_top() + p.spec_bottom())) as u32,
                },
            },
        ),
{
    let shrunk = Rectangle {
        top_left: Point {
            x: (position.top_left.x + p.spec_left()) as i32,
            y: (position.top_left.y + p.spec_top()) as i32,
        },
        size: Size {
            width: (position.size.width - (p.spec_left() + p.spec_right())) as u32,
            height: (position.size.height - (p.spec_top() + p.spec_bottom())) as u32,
        },
    };
    assert(padded_rect(position, p.spec_top(), p.spec_right(), p.spec_bottom(), p.spec_left())
        == shrunk);
}

} // verus!
