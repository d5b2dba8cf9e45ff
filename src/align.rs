//! Positioning one element inside a larger rectangle.
use vstd::prelude::*;

use crate::geometry::{clamp_i32, point_at, Pixel, Rectangle, Size};
use crate::layoutable::{DrawSurface, Layoutable};
use crate::{ComponentSize, ValueRange};

verus! {

/// The extent an element gets on an axis with `available` pixels: its maximum
/// when that is smaller than what is available, its minimum when that is
/// larger, and exactly what is available otherwise.
pub open spec fn aligned_extent(available: u32, target: ValueRange) -> u32 {
    if target.max_value < available {
        target.max_value
    } else if target.min_value > available {
        target.min_value
    } else {
        available
    }
}

/// A rule that positions an element on one axis.
pub trait Alignment {
    /// The offset of the element from the start of the available space.
    spec fn spec_offset(available: u32, target: ValueRange) -> i32;

    /// The offset and the extent of an element with range `target_range` in
    /// `available_range` pixels.
    fn place(available_range: u32, target_range: ValueRange) -> (r: (i32, u32))
        ensures
            r.0 == Self::spec_offset(available_range, target_range),
            r.1 == aligned_extent(available_range, target_range),
    ;
}

/// Centers the element; an element larger than the space overflows it equally
/// on both sides.
pub struct CenteredAlignment;

/// Puts the element at the start of the space.
pub struct StartAlignment;

/// Puts the element at the end of the space.
pub struct EndAlignment;

impl Alignment for CenteredAlignment {
    /// Half the space left over, rounded toward zero.
    open spec fn spec_offset(available: u32, target: ValueRange) -> i32 {
        if target.max_value < available {
            ((available - target.max_value) / 2) as i32
        } else if target.min_value > available {
            (-((target.min_value - available) / 2)) as i32
        } else {
            0
        }
    }

    fn place(available_range: u32, target_range: ValueRange) -> (r: (i32, u32)) {
        if target_range.max_value < available_range {
            (((available_range - target_range.max_value) / 2) as i32, target_range.max_value)
        } else if target_range.min_value > available_range {
            let half = ((target_range.min_value - available_range) / 2) as i32;
            (0 - half, target_range.min_value)
        } else {
            (0, available_range)
        }
    }
}

impl Alignment for StartAlignment {
    open spec fn spec_offset(available: u32, target: ValueRange) -> i32 {
        0
    }

    fn place(available_range: u32, target_range: ValueRange) -> (r: (i32, u32)) {
        if target_range.max_value < available_range {
            (0, target_range.max_value)
        } else if target_range.min_value > available_range {
            (0, target_range.min_value)
        } else {
            (0, available_range)
        }
    }
}

impl Alignment for EndAlignment {
    /// The space left over, clamped into the coordinate range.
    open spec fn spec_offset(available: u32, target: ValueRange) -> i32 {
        if target.max_value < available {
            clamp_i32(available - target.max_value)
        } else if target.min_value > available {
            clamp_i32(available - target.min_value)
        } else {
            0
        }
    }

    fn place(available_range: u32, target_range: ValueRange) -> (r: (i32, u32)) {
        if target_range.max_value < available_range {
            (
                crate::geometry::clamp_coord(
                    available_range as i128 - target_range.max_value as i128,
                ),
                target_range.max_value,
            )
        } else if target_range.min_value > available_range {
            (
                crate::geometry::clamp_coord(
                    available_range as i128 - target_range.min_value as i128,
                ),
                target_range.min_value,
            )
        } else {
            (0, available_range)
        }
    }
}

/// For a well ordered range the extent lies between its minimum and maximum,
/// and it is exactly the maximum whenever at least that much is available.
pub proof fn lemma_aligned_extent_within(available: u32, target: ValueRange)
    requires
        target.well_ordered(),
    ensures
        target.min_value <= aligned_extent(available, target) <= target.max_value,
        available >= target.max_value ==> aligned_extent(available, target) == target.max_value,
{
}

/// Where an element of size `size` goes inside `area` under the horizontal rule
/// `HA` and the vertical rule `VA`.
pub open spec fn aligned_rect<HA: Alignment, VA: Alignment>(
    size: ComponentSize,
    area: Rectangle,
) -> Rectangle {
    Rectangle {
        top_left: point_at(
            area.top_left.x + HA::spec_offset(area.size.width, size.width),
            area.top_left.y + VA::spec_offset(area.size.height, size.height),
        ),
        size: Size {
            width: aligned_extent(area.size.width, size.width),
            height: aligned_extent(area.size.height, size.height),
        },
    }
}

/// Draws an element at the place the two rules give it; its size is the
/// element's own.
pub struct AlignLayout<L, HA, VA> {
    layoutable: L,
    rules: std::marker::PhantomData<(HA, VA)>,
}

impl<L, HA: Alignment, VA: Alignment> AlignLayout<L, HA, VA> {
    pub closed spec fn spec_child(&self) -> L {
        self.layoutable
    }

    /// Places `layoutable` by the rules `HA` and `VA`.
    pub fn new(layoutable: L) -> (r: Self)
        ensures
            r.spec_child() == layoutable,
    {
        AlignLayout { layoutable, rules: std::marker::PhantomData }
    }

    /// The rectangle that an element of `component_size` gets in
    /// `available_area`.
    pub fn place(component_size: ComponentSize, available_area: Rectangle) -> (r: Rectangle)
        ensures
            r == aligned_rect::<HA, VA>(component_size, available_area),
    {
        let (x, width) = HA::place(available_area.size.width, component_size.width);
        let (y, height) = VA::place(available_area.size.height, component_size.height);
        Rectangle {
            top_left: available_area.top_left.offset(x as i64, y as i64),
            size: Size { width, height },
        }
    }
}

impl<C, L: Layoutable<C>, HA: Alignment, VA: Alignment> Layoutable<C> for AlignLayout<L, HA, VA> {
    open spec fn spec_size(&self) -> ComponentSize {
        self.spec_child().spec_size()
    }

    /// The child drawn at the place the rules give it.
    open spec fn spec_pixels(&self, position: Rectangle) -> Seq<Pixel<C>> {
        self.spec_child().spec_pixels(aligned_rect::<HA, VA>(self.spec_child().spec_size(), position))
    }

    fn size(&self) -> (r: ComponentSize) {
        self.layoutable.size()
    }

    fn draw_placed<S: DrawSurface<C>>(&self, target: &mut S, position: Rectangle) -> Result<
        (),
        S::Error,
    > {
        let place = Self::place(self.layoutable.size(), position);
        self.layoutable.draw_placed(target, place)
    }
}

/// Centers an element in its space.
pub fn center<L>(l: L) -> (r: AlignLayout<L, CenteredAlignment, CenteredAlignment>)
    ensures
        r.spec_child() == l,
{
    AlignLayout::new(l)
}

/// Puts an element at the left, vertically centered.
pub fn west<L>(l: L) -> (r: AlignLayout<L, StartAlignment, CenteredAlignment>)
    ensures
        r.spec_child() == l,
{
    AlignLayout::new(l)
}

/// Puts an element at the right, vertically centered.
pub fn east<L>(l: L) -> (r: AlignLayout<L, EndAlignment, CenteredAlignment>)
    ensures
        r.spec_child() == l,
{
    AlignLayout::new(l)
}

/// Puts an element at the top, horizontally centered.
pub fn north<L>(l: L) -> (r: AlignLayout<L, CenteredAlignment, StartAlignment>)
    ensures
        r.spec_child() == l,
{
    AlignLayout::new(l)
}

/// Puts an element at the bottom, horizontally centered.
pub fn south<L>(l: L) -> (r: AlignLayout<L, CenteredAlignment, EndAlignment>)
    ensures
        r.spec_child() == l,
{
    AlignLayout::new(l)
}

} // verus!
