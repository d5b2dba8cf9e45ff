//! Lifting the upper bound of an element's size, so that it takes all the
//! space it is offered.
use vstd::prelude::*;

use crate::geometry::{Pixel, Rectangle};
use crate::layoutable::{DrawSurface, Layoutable};
use crate::ComponentSize;

verus! {

/// Which axes lose their upper bound.
pub trait Expander {
    spec fn spec_expand(size: ComponentSize) -> ComponentSize;

    fn expand_size(size: ComponentSize) -> (r: ComponentSize)
        ensures
            r == Self::spec_expand(size),
    ;
}

/// Both axes.
pub struct AreaExpander;

/// The horizontal axis.
pub struct HorizontalExpander;

/// The vertical axis.
pub struct VerticalExpander;

impl Expander for AreaExpander {
    open spec fn spec_expand(size: ComponentSize) -> ComponentSize {
        ComponentSize { width: size.width.unbounded(), height: size.height.unbounded() }
    }

    fn expand_size(size: ComponentSize) -> (r: ComponentSize) {
        ComponentSize { width: size.width.expand_max(), height: size.height.expand_max() }
    }
}

impl Expander for HorizontalExpander {
    open spec fn spec_expand(size: ComponentSize) -> ComponentSize {
        ComponentSize { width: size.width.unbounded(), height: size.height }
    }

    fn expand_size(size: ComponentSize) -> (r: ComponentSize) {
        ComponentSize { width: size.width.expand_max(), height: size.height }
    }
}

impl Expander for VerticalExpander {
    open spec fn spec_expand(size: ComponentSize) -> ComponentSize {
        ComponentSize { width: size.width, height: size.height.unbounded() }
    }

    fn expand_size(size: ComponentSize) -> (r: ComponentSize) {
        ComponentSize { width: size.width, height: size.height.expand_max() }
    }
}

/// An element whose size has no upper bound on the axes of `E`; it is drawn
/// exactly as the element itself.
pub struct ExpandLayoutable<L, E> {
    layoutable: L,
    expander: std::marker::PhantomData<E>,
}

impl<L, E> ExpandLayoutable<L, E> {
    pub closed spec fn spec_child(&self) -> L {
        self.layoutable
    }
}

impl<C, L: Layoutable<C>, E: Expander> Layoutable<C> for ExpandLayoutable<L, E> {
    open spec fn spec_size(&self) -> ComponentSize {
        E::spec_expand(self.spec_child().spec_size())
    }

    open spec fn spec_pixels(&self, position: Rectangle) -> Seq<Pixel<C>> {
        self.spec_child().spec_pixels(position)
    }

    fn size(&self) -> (r: ComponentSize) {
        E::expand_size(self.layoutable.size())
    }

    fn draw_placed<S: DrawSurface<C>>(&self, target: &mut S, position: Rectangle) -> Result<
        (),
        S::Error,
    > {
        self.layoutable.draw_placed(target, position)
    }
}

/// Removes the upper bound of both axes.
pub fn expand<L>(input: L) -> (r: ExpandLayoutable<L, AreaExpander>)
    ensures
        r.spec_child() == input,
{
    ExpandLayoutable { layoutable: input, expander: std::marker::PhantomData }
}

/// Removes the upper bound of the horizontal axis.
pub fn expand_horizontal<L>(input: L) -> (r: ExpandLayoutable<L, HorizontalExpander>)
    ensures
        r.spec_child() == input,
{
    ExpandLayoutable { layoutable: input, expander: std::marker::PhantomData }
}

/// Removes the upper bound of the vertical axis.
pub fn expand_vertical<L>(input: L) -> (r: ExpandLayoutable<L, VerticalExpander>)
    ensures
        r.spec_child() == input,
{
    ExpandLayoutable { layoutable: input, expander: std::marker::PhantomData }
}

} // verus!
