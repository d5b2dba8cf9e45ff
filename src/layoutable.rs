//! The capability every composable element has: it reports its size and draws
//! itself into a rectangle of a drawing surface.
use vstd::prelude::*;

use crate::geometry::{Pixel, Rectangle, Size};
use crate::ComponentSize;

verus! {

/// Where elements are drawn: a raster that accepts colored pixels.
pub trait DrawSurface<C> {
    /// The error the surface reports when pixels cannot be written.
    type Error;

    /// The pixels written so far, in order. The surfaces of verified code
    /// define it; for one written outside verified code the default below is
    /// only a stand-in, and its `draw_pixels` is taken on trust.
    closed spec fn written(&self) -> Seq<Pixel<C>> {
        Seq::empty()
    }

    /// The error of the most recent write, or `None` when it succeeded. As
    /// with `written`, the default below is only a stand-in.
    closed spec fn failure(&self) -> Option<Self::Error> {
        None
    }

    /// The area the surface covers.
    fn bounding_box(&self) -> Rectangle;

    /// Writes the pixels in order. On success they follow what was written
    /// before; on failure the surface keeps the error, and at most a leading
    /// part of the pixels was written.
    fn draw_pixels(&mut self, pixels: &Vec<Pixel<C>>) -> (r: Result<(), Self::Error>)
        ensures
            r is Ok ==> final(self).written() == old(self).written() + pixels@,
            r is Ok ==> final(self).failure() == None::<Self::Error>,
            r matches Err(e) ==> final(self).failure() == Some(e),
            r is Err ==> wrote_prefix(old(self).written(), final(self).written(), pixels@),
    ;
}

/// `after` is `before` followed by a leading part of `planned`.
pub open spec fn wrote_prefix<C>(before: Seq<Pixel<C>>, after: Seq<Pixel<C>>, planned: Seq<Pixel<C>>) -> bool {
    let k = after.len() - before.len();
    &&& 0 <= k <= planned.len()
    &&& after == before + planned.take(k)
}

/// Writing all of `planned` after `before`, then a leading part of `more`,
/// leaves a leading part of `planned + more` after `before`.
pub proof fn lemma_prefix_after_full<C>(
    before: Seq<Pixel<C>>,
    planned: Seq<Pixel<C>>,
    more: Seq<Pixel<C>>,
    after: Seq<Pixel<C>>,
)
    requires
        wrote_prefix(before + planned, after, more),
    ensures
        wrote_prefix(before, after, planned + more),
{
    let k = after.len() - (before + planned).len();
    assert((planned + more).take(planned.len() + k) =~= planned + more.take(k));
    assert(after =~= before + (planned + more).take(planned.len() + k));
}

/// A leading part of `planned` is also a leading part of `planned + more`.
pub proof fn lemma_prefix_of_first<C>(
    before: Seq<Pixel<C>>,
    planned: Seq<Pixel<C>>,
    more: Seq<Pixel<C>>,
    after: Seq<Pixel<C>>,
)
    requires
        wrote_prefix(before, after, planned),
    ensures
        wrote_prefix(before, after, planned + more),
{
    let k = after.len() - before.len();
    assert((planned + more).take(k) =~= planned.take(k));
}

/// An element that can be laid out.
pub trait Layoutable<C> {
    /// The size this element asks for. Every element of this library defines
    /// it from its parts; for an element written outside verified code the
    /// default below is only a stand-in, and what its `size` returns is taken
    /// on trust.
    closed spec fn spec_size(&self) -> ComponentSize {
        ComponentSize::spec_zero()
    }

    /// The pixels this element paints when drawn into `position`, in order;
    /// for an element written outside verified code the default below is only
    /// a stand-in, and its drawing is taken on trust.
    closed spec fn spec_pixels(&self, position: Rectangle) -> Seq<Pixel<C>> {
        Seq::empty()
    }

    /// Returns the size constraints of this element. The answer depends on the
    /// element alone, so repeated calls agree.
    fn size(&self) -> (r: ComponentSize)
        ensures
            r == self.spec_size(),
    ;

    /// Draws this element into `position` on `target`. On success the
    /// element's pixels follow what the surface held. The first error of the
    /// surface is returned unchanged: it is the error of the last write, and
    /// nothing beyond a leading part of the element's pixels was written.
    fn draw_placed<S: DrawSurface<C>>(&self, target: &mut S, position: Rectangle) -> (r: Result<
        (),
        S::Error,
    >)
        ensures
            r is Ok ==> final(target).written() == old(target).written() + self.spec_pixels(
                position,
            ),
            r matches Err(e) ==> final(target).failure() == Some(e),
            r is Err ==> wrote_prefix(
                old(target).written(),
                final(target).written(),
                self.spec_pixels(position),
            ),
    ;
}

/// An absent element takes no space and draws nothing, so that optional
/// elements can be embedded without branching.
impl<C, L: Layoutable<C>> Layoutable<C> for Option<L> {
    open spec fn spec_size(&self) -> ComponentSize {
        match self {
            None => ComponentSize::spec_zero(),
            Some(l) => l.spec_size(),
        }
    }

    open spec fn spec_pixels(&self, position: Rectangle) -> Seq<Pixel<C>> {
        match self {
            None => Seq::empty(),
            Some(l) => l.spec_pixels(position),
        }
    }

    fn size(&self) -> (r: ComponentSize) {
        match self {
            None => ComponentSize::default(),
            Some(l) => l.size(),
        }
    }

    /// An absent element succeeds without touching the surface.
    fn draw_placed<S: DrawSurface<C>>(&self, target: &mut S, position: Rectangle) -> (r: Result<
        (),
        S::Error,
    >)
        ensures
            self is None ==> r is Ok && *final(target) == *old(target),
    {
        match self {
            None => {
                assert(target.written() + Seq::<Pixel<C>>::empty() =~= target.written());
                Ok(())
            },
            Some(l) => l.draw_placed(target, position),
        }
    }
}

/// Largest width and summed height of the given line boxes.
pub open spec fn lines_extent(lines: Seq<Size>) -> (int, int)
    decreases lines.len(),
{
    if lines.len() == 0 {
        (0, 0)
    } else {
        let (w, h) = lines_extent(lines.drop_last());
        let last = lines.last();
        (if w < last.width { last.width as int } else { w }, h + last.height)
    }
}

/// The fixed size of a block of text from the bounding boxes of its lines: the
/// widest line less one pixel, and the heights of all lines together, both
/// saturating.
pub fn text_block_size(lines: &Vec<Size>) -> (r: ComponentSize)
    ensures
        r.width.preferred_value == crate::sat(lines_extent(lines@).0 - 1),
        r.width.min_value == r.width.preferred_value,
        r.width.max_value == r.width.preferred_value,
        r.height.preferred_value == crate::sat(lines_extent(lines@).1),
        r.height.min_value == r.height.preferred_value,
        r.height.max_value == r.height.preferred_value,
{
    let mut max_line_length: u32 = 0;
    let mut total_height: u32 = 0;
    let mut i: usize = 0;
    while i < lines.len()
        invariant
            i <= lines.len(),
            max_line_length as int == lines_extent(lines@.take(i as int)).0,
            lines_extent(lines@.take(i as int)).1 >= 0,
            total_height == crate::sat(lines_extent(lines@.take(i as int)).1),
        decreases lines.len() - i,
    {
        proof {
            assert(lines@.take(i + 1).drop_last() =~= lines@.take(i as int));
        }
        let line = lines[i];
        if line.width > max_line_length {
            max_line_length = line.width;
        }
        total_height = total_height.saturating_add(line.height);
        i = i + 1;
    }
    proof {
        assert(lines@.take(lines.len() as int) =~= lines@);
    }
    ComponentSize::fixed_size(max_line_length.saturating_sub(1), total_height)
}

} // verus!
