//! Weighted children laid end to end along one axis.
use vstd::prelude::*;

use crate::distribute::{as_ints, resolve, resolve_extents};
use crate::geometry::{clamp_coord, clamp_i32, Pixel, Point, Rectangle, Size};
use crate::layoutable::{
    lemma_prefix_after_full, lemma_prefix_of_first, wrote_prefix, DrawSurface, Layoutable,
};
use crate::{ComponentSize, ValueRange};

verus! {

/// The range along the axis (`horizontal`: the width).
pub open spec fn along_range(horizontal: bool, s: ComponentSize) -> ValueRange {
    if horizontal {
        s.width
    } else {
        s.height
    }
}

/// The range across the axis.
pub open spec fn cross_range(horizontal: bool, s: ComponentSize) -> ValueRange {
    if horizontal {
        s.height
    } else {
        s.width
    }
}

/// The size with `along` on the axis and `cross` across it.
pub open spec fn compose_component_size(
    horizontal: bool,
    along: ValueRange,
    cross: ValueRange,
) -> ComponentSize {
    if horizontal {
        ComponentSize { width: along, height: cross }
    } else {
        ComponentSize { width: cross, height: along }
    }
}

/// The pixel extent with `along` on the axis and `cross` across it.
pub open spec fn compose_size(horizontal: bool, along: u32, cross: u32) -> Size {
    if horizontal {
        Size { width: along, height: cross }
    } else {
        Size { width: cross, height: along }
    }
}

/// The point with `along` on the axis and `cross` across it.
pub open spec fn compose_point(horizontal: bool, along: i32, cross: i32) -> Point {
    if horizontal {
        Point { x: along, y: cross }
    } else {
        Point { x: cross, y: along }
    }
}

/// Maps "along" and "across" onto the concrete axes, so that one algorithm
/// serves both directions.
pub trait Orientation {
    /// Whether the axis is the horizontal one.
    spec fn is_horizontal() -> bool;

    fn split_component_size(size: ComponentSize) -> (r: (ValueRange, ValueRange))
        ensures
            r.0 == along_range(Self::is_horizontal(), size),
            r.1 == cross_range(Self::is_horizontal(), size),
    ;

    fn split_size(size: Size) -> (r: (u32, u32))
        ensures
            compose_size(Self::is_horizontal(), r.0, r.1) == size,
    ;

    fn split_point(p: Point) -> (r: (i32, i32))
        ensures
            compose_point(Self::is_horizontal(), r.0, r.1) == p,
    ;

    fn create_component_size(along: ValueRange, cross: ValueRange) -> (r: ComponentSize)
        ensures
            r == compose_component_size(Self::is_horizontal(), along, cross),
    ;

    fn create_size(along: u32, across: u32) -> (r: Size)
        ensures
            r == compose_size(Self::is_horizontal(), along, across),
    ;

    fn create_point(along: i32, cross: i32) -> (r: Point)
        ensures
            r == compose_point(Self::is_horizontal(), along, cross),
    ;
}

/// Children side by side, from left to right.
pub struct Horizontal {}

impl Orientation for Horizontal {
    open spec fn is_horizontal() -> bool {
        true
    }

    fn split_component_size(size: ComponentSize) -> (r: (ValueRange, ValueRange)) {
        (size.width, size.height)
    }

    fn split_size(size: Size) -> (r: (u32, u32)) {
        (size.width, size.height)
    }

    fn split_point(p: Point) -> (r: (i32, i32)) {
        (p.x, p.y)
    }

    fn create_component_size(along: ValueRange, cross: ValueRange) -> (r: ComponentSize) {
        ComponentSize { width: along, height: cross }
    }

    fn create_size(along: u32, across: u32) -> (r: Size) {
        Size { width: along, height: across }
    }

    fn create_point(along: i32, cross: i32) -> (r: Point) {
        Point { x: along, y: cross }
    }
}

/// Children stacked from top to bottom.
pub struct Vertical {}

impl Orientation for Vertical {
    open spec fn is_horizontal() -> bool {
        false
    }

    fn split_component_size(size: ComponentSize) -> (r: (ValueRange, ValueRange)) {
        (size.height, size.width)
    }

    fn split_size(size: Size) -> (r: (u32, u32)) {
        (size.height, size.width)
    }

    fn split_point(p: Point) -> (r: (i32, i32)) {
        (p.y, p.x)
    }

    fn create_component_size(along: ValueRange, cross: ValueRange) -> (r: ComponentSize) {
        ComponentSize { width: cross, height: along }
    }

    fn create_size(along: u32, across: u32) -> (r: Size) {
        Size { width: across, height: along }
    }

    fn create_point(along: i32, cross: i32) -> (r: Point) {
        Point { x: cross, y: along }
    }
}

/// The range that asks for nothing.
pub open spec fn zero_range() -> ValueRange {
    ValueRange { preferred_value: 0, min_value: 0, max_value: 0 }
}

/// Saturating sum of the ranges along the axis.
pub open spec fn along_total(horizontal: bool, sizes: Seq<ComponentSize>) -> ValueRange
    decreases sizes.len(),
{
    if sizes.len() == 0 {
        zero_range()
    } else {
        along_total(horizontal, sizes.drop_last()).plus(along_range(horizontal, sizes.last()))
    }
}

/// Field-wise maximum of the ranges across the axis.
pub open spec fn cross_merge(horizontal: bool, sizes: Seq<ComponentSize>) -> ValueRange
    decreases sizes.len(),
{
    if sizes.len() == 0 {
        zero_range()
    } else {
        cross_merge(horizontal, sizes.drop_last()).merged(cross_range(horizontal, sizes.last()))
    }
}

/// The size of children laid end to end: their ranges along the axis added,
/// their ranges across it merged.
pub open spec fn linear_size(horizontal: bool, sizes: Seq<ComponentSize>) -> ComponentSize {
    compose_component_size(
        horizontal,
        along_total(horizontal, sizes),
        cross_merge(horizontal, sizes),
    )
}

/// The ranges of the children along the axis.
pub open spec fn along_ranges(horizontal: bool, sizes: Seq<ComponentSize>) -> Seq<ValueRange> {
    Seq::new(sizes.len(), |i: int| along_range(horizontal, sizes[i]))
}

/// Where slot `i` starts along the axis when the slots follow each other from
/// `start` with the given extents.
pub open spec fn offset_at(start: i32, extents: Seq<int>, i: int) -> i32
    decreases i,
{
    if i <= 0 {
        start
    } else {
        clamp_i32(offset_at(start, extents, i - 1) + extents[i - 1])
    }
}

/// The rectangle of slot `i` inside `position`: it starts where the slots
/// before it end, has its own extent along the axis and the whole extent of
/// `position` across it.
pub open spec fn slot_rect(horizontal: bool, position: Rectangle, extents: Seq<int>, i: int) -> Rectangle {
    let along_start = if horizontal {
        position.top_left.x
    } else {
        position.top_left.y
    };
    let cross_start = if horizontal {
        position.top_left.y
    } else {
        position.top_left.x
    };
    let cross_extent = if horizontal {
        position.size.height
    } else {
        position.size.width
    };
    Rectangle {
        top_left: compose_point(horizontal, offset_at(along_start, extents, i), cross_start),
        size: compose_size(horizontal, extents[i] as u32, cross_extent),
    }
}

/// The rectangles of the first `n` slots.
pub open spec fn slot_rects(horizontal: bool, position: Rectangle, extents: Seq<int>, n: nat) -> Seq<
    Rectangle,
> {
    Seq::new(n, |i: int| slot_rect(horizontal, position, extents, i))
}

/// The extent of `position` along the axis.
pub open spec fn along_extent(horizontal: bool, position: Rectangle) -> u32 {
    if horizontal {
        position.size.width
    } else {
        position.size.height
    }
}

/// Places slots of the given extents end to end inside `position`.
pub fn place_slots<O: Orientation>(position: Rectangle, extents: &Vec<u32>) -> (r: Vec<Rectangle>)
    ensures
        r@.len() == extents@.len(),
        forall|i: int|
            0 <= i < r@.len() ==> r@[i] == slot_rect(
                O::is_horizontal(),
                position,
                as_ints(extents@),
                i,
            ),
{
    let (along_size, cross_target) = O::split_size(position.size);
    let (along_start, cross_offset) = O::split_point(position.top_left);
    let ghost h = O::is_horizontal();
    let mut along_offset = along_start;
    let mut places: Vec<Rectangle> = Vec::new();
    let mut i: usize = 0;
    while i < extents.len()
        invariant
            i <= extents.len(),
            h == O::is_horizontal(),
            compose_size(h, along_size, cross_target) == position.size,
            compose_point(h, along_start, cross_offset) == position.top_left,
            along_offset == offset_at(along_start, as_ints(extents@), i as int),
            places@.len() == i,
            forall|k: int|
                0 <= k < i ==> places@[k] == slot_rect(h, position, as_ints(extents@), k),
        decreases extents.len() - i,
    {
        let extent = extents[i];
        let place = Rectangle {
            top_left: O::create_point(along_offset, cross_offset),
            size: O::create_size(extent, cross_target),
        };
        places.push(place);
        along_offset = clamp_coord(along_offset as i128 + extent as i128);
        i = i + 1;
    }
    places
}

/// A list of weighted children, built by appending.
pub trait LinearLayout<C> {
    /// The sizes of the children, in order.
    spec fn spec_sizes(&self) -> Seq<ComponentSize>;

    /// The weights of the children, in order.
    spec fn spec_weights(&self) -> Seq<u32>;

    /// There is one weight for each child.
    proof fn lemma_counts(&self)
        ensures
            self.spec_sizes().len() == self.spec_weights().len(),
    ;

    /// The pixels the children paint when child `i` is drawn into
    /// `places[i]`, in order.
    spec fn spec_pixels_at(&self, places: Seq<Rectangle>) -> Seq<Pixel<C>>;

    /// Appends the sizes of the children to `sizes`.
    fn fill_sizes(&self, sizes: &mut Vec<ComponentSize>)
        ensures
            final(sizes)@ == old(sizes)@ + self.spec_sizes(),
    ;

    /// Appends the weights of the children to `weights`.
    fn fill_weights(&self, weights: &mut Vec<u32>)
        ensures
            final(weights)@ == old(weights)@ + self.spec_weights(),
    ;

    /// Draws child `i` into `places[i]`, in order, stopping at the first
    /// error; `count` is the number of children.
    fn draw_placed_components<S: DrawSurface<C>>(
        &self,
        target: &mut S,
        places: &Vec<Rectangle>,
        count: usize,
    ) -> (r: Result<(), S::Error>)
        requires
            count == self.spec_sizes().len(),
            count <= places@.len(),
        ensures
            r is Ok ==> final(target).written() == old(target).written() + self.spec_pixels_at(
                places@,
            ),
            r matches Err(e) ==> final(target).failure() == Some(e),
            r is Err ==> wrote_prefix(
                old(target).written(),
                final(target).written(),
                self.spec_pixels_at(places@),
            ),
    ;
}

/// The first child of a linear layout.
pub struct SingleLinearLayout<L> {
    layout: L,
    weight: u32,
}

impl<L> SingleLinearLayout<L> {
    pub closed spec fn spec_layout(&self) -> L {
        self.layout
    }

    pub closed spec fn spec_weight(&self) -> u32 {
        self.weight
    }
}

impl<C, L: Layoutable<C>> Layoutable<C> for SingleLinearLayout<L> {
    open spec fn spec_size(&self) -> ComponentSize {
        self.spec_layout().spec_size()
    }

    open spec fn spec_pixels(&self, position: Rectangle) -> Seq<Pixel<C>> {
        self.spec_layout().spec_pixels(position)
    }

    fn size(&self) -> (r: ComponentSize) {
        self.layout.size()
    }

    fn draw_placed<S: DrawSurface<C>>(&self, target: &mut S, position: Rectangle) -> Result<
        (),
        S::Error,
    > {
        self.layout.draw_placed(target, position)
    }
}

impl<C, L: Layoutable<C>> LinearLayout<C> for SingleLinearLayout<L> {
    open spec fn spec_sizes(&self) -> Seq<ComponentSize> {
        seq![self.spec_layout().spec_size()]
    }

    open spec fn spec_weights(&self) -> Seq<u32> {
        seq![self.spec_weight()]
    }

    open spec fn spec_pixels_at(&self, places: Seq<Rectangle>) -> Seq<Pixel<C>> {
        self.spec_layout().spec_pixels(places[0])
    }

    proof fn lemma_counts(&self) {
    }

    fn fill_sizes(&self, sizes: &mut Vec<ComponentSize>) {
        sizes.push(self.layout.size());
        assert(sizes@ =~= old(sizes)@ + self.spec_sizes());
    }

    fn fill_weights(&self, weights: &mut Vec<u32>) {
        weights.push(self.weight);
        assert(weights@ =~= old(weights)@ + self.spec_weights());
    }

    fn draw_placed_components<S: DrawSurface<C>>(
        &self,
        target: &mut S,
        places: &Vec<Rectangle>,
        count: usize,
    ) -> Result<(), S::Error> {
        self.layout.draw_placed(target, places[0])
    }
}

/// A linear layout with one more child appended.
pub struct ChainingLinearLayout<LL, L> {
    base_layout: LL,
    layoutable: L,
    weight: u32,
}

impl<LL, L> ChainingLinearLayout<LL, L> {
    pub closed spec fn spec_base(&self) -> LL {
        self.base_layout
    }

    pub closed spec fn spec_layoutable(&self) -> L {
        self.layoutable
    }

    pub closed spec fn spec_weight(&self) -> u32 {
        self.weight
    }
}

impl<C, LL: LinearLayout<C>, L: Layoutable<C>> LinearLayout<C> for ChainingLinearLayout<LL, L> {
    open spec fn spec_sizes(&self) -> Seq<ComponentSize> {
        self.spec_base().spec_sizes().push(self.spec_layoutable().spec_size())
    }

    open spec fn spec_weights(&self) -> Seq<u32> {
        self.spec_base().spec_weights().push(self.spec_weight())
    }

    open spec fn spec_pixels_at(&self, places: Seq<Rectangle>) -> Seq<Pixel<C>> {
        self.spec_base().spec_pixels_at(places) + self.spec_layoutable().spec_pixels(
            places[self.spec_base().spec_sizes().len() as int],
        )
    }

    proof fn lemma_counts(&self) {
        self.spec_base().lemma_counts();
    }

    fn fill_sizes(&self, sizes: &mut Vec<ComponentSize>) {
        self.base_layout.fill_sizes(sizes);
        sizes.push(self.layoutable.size());
        assert(sizes@ =~= old(sizes)@ + self.spec_sizes());
    }

    fn fill_weights(&self, weights: &mut Vec<u32>) {
        self.base_layout.fill_weights(weights);
        weights.push(self.weight);
        assert(weights@ =~= old(weights)@ + self.spec_weights());
    }

    fn draw_placed_components<S: DrawSurface<C>>(
        &self,
        target: &mut S,
        places: &Vec<Rectangle>,
        count: usize,
    ) -> Result<(), S::Error> {
        let ghost before = target.written();
        let idx = count - 1;
        let ghost first = self.spec_base().spec_pixels_at(places@);
        let ghost last = self.spec_layoutable().spec_pixels(places@[idx as int]);
        match self.base_layout.draw_placed_components(target, places, idx) {
            Ok(()) => {
                let r = self.layoutable.draw_placed(target, places[idx]);
                proof {
                    if r is Ok {
                        assert(target.written() =~= before + self.spec_pixels_at(places@));
                    } else {
                        lemma_prefix_after_full(before, first, last, target.written());
                    }
                }
                r
            },
            Err(e) => {
                proof {
                    lemma_prefix_of_first(before, first, last, target.written());
                }
                Err(e)
            },
        }
    }
}

/// Weighted children laid end to end along the axis of `O`.
pub struct LayoutableLinearLayout<C, O, LL> {
    layout: LL,
    marker: std::marker::PhantomData<(C, O)>,
}

impl<C, O: Orientation, LL> LayoutableLinearLayout<C, O, LL> {
    pub closed spec fn spec_layout(&self) -> LL {
        self.layout
    }

    /// The children and their weights.
    pub fn children(&self) -> (r: &LL)
        ensures
            *r == self.spec_layout(),
    {
        &self.layout
    }

    /// Appends `element` with `weight` after the present children.
    pub fn append<L: Layoutable<C>>(self, element: L, weight: u32) -> (r: LayoutableLinearLayout<
        C,
        O,
        ChainingLinearLayout<LL, L>,
    >)
        where
            LL: LinearLayout<C>,
        ensures
            r.spec_layout().spec_base() == self.spec_layout(),
            r.spec_layout().spec_layoutable() == element,
            r.spec_layout().spec_weight() == weight,
            r.spec_layout().spec_sizes() == self.spec_layout().spec_sizes().push(element.spec_size()),
            r.spec_layout().spec_weights() == self.spec_layout().spec_weights().push(weight),
    {
        LayoutableLinearLayout {
            layout: ChainingLinearLayout { base_layout: self.layout, layoutable: element, weight },
            marker: std::marker::PhantomData,
        }
    }
}

impl<C, O: Orientation, LL: LinearLayout<C>> LayoutableLinearLayout<C, O, LL> {
    /// The extent each child gets along the axis when the layout is given
    /// `position`.
    pub open spec fn spec_extents(&self, position: Rectangle) -> Seq<int> {
        resolve(
            along_ranges(O::is_horizontal(), self.spec_layout().spec_sizes()),
            self.spec_layout().spec_weights(),
            along_extent(O::is_horizontal(), position) as int,
        )
    }

    /// The rectangle of each child when the layout is drawn into `position`:
    /// the children follow each other along the axis from the origin of
    /// `position`, each with its resolved extent and the full extent across.
    pub fn placements(&self, position: Rectangle) -> (r: Vec<Rectangle>)
        ensures
            r@.len() == self.spec_layout().spec_sizes().len(),
            forall|i: int|
                0 <= i < r@.len() ==> r@[i] == slot_rect(
                    O::is_horizontal(),
                    position,
                    self.spec_extents(position),
                    i,
                ),
    {
        let ghost h = O::is_horizontal();
        let mut sizes: Vec<ComponentSize> = Vec::new();
        self.layout.fill_sizes(&mut sizes);
        let mut weights: Vec<u32> = Vec::new();
        self.layout.fill_weights(&mut weights);
        proof {
            self.spec_layout().lemma_counts();
            assert(sizes@ =~= self.spec_layout().spec_sizes());
            assert(weights@ =~= self.spec_layout().spec_weights());
        }
        let mut ranges: Vec<ValueRange> = Vec::new();
        let mut i: usize = 0;
        while i < sizes.len()
            invariant
                i <= sizes.len(),
                h == O::is_horizontal(),
                ranges@.len() == i,
                forall|k: int| 0 <= k < i ==> ranges@[k] == along_range(h, sizes@[k]),
            decreases sizes.len() - i,
        {
            let (along, _cross) = O::split_component_size(sizes[i]);
            ranges.push(along);
            i = i + 1;
        }
        assert(ranges@ =~= along_ranges(h, sizes@));
        let (along_target, _cross_target) = O::split_size(position.size);
        let extents = resolve_extents(&ranges, &weights, along_target);
        proof {
            assert(along_target == along_extent(h, position));
        }
        place_slots::<O>(position, &extents)
    }
}

impl<C, O: Orientation, LL: LinearLayout<C>> Layoutable<C> for LayoutableLinearLayout<C, O, LL> {
    open spec fn spec_size(&self) -> ComponentSize {
        linear_size(O::is_horizontal(), self.spec_layout().spec_sizes())
    }

    /// Each child drawn, in order, into its slot.
    open spec fn spec_pixels(&self, position: Rectangle) -> Seq<Pixel<C>> {
        self.spec_layout().spec_pixels_at(
            slot_rects(
                O::is_horizontal(),
                position,
                self.spec_extents(position),
                self.spec_layout().spec_sizes().len(),
            ),
        )
    }

    fn size(&self) -> (r: ComponentSize) {
        let ghost h = O::is_horizontal();
        let mut sizes: Vec<ComponentSize> = Vec::new();
        self.layout.fill_sizes(&mut sizes);
        assert(sizes@ =~= self.spec_layout().spec_sizes());
        let mut total_along = ValueRange::fixed(0);
        let mut total_cross = ValueRange::fixed(0);
        let mut i: usize = 0;
        while i < sizes.len()
            invariant
                i <= sizes.len(),
                h == O::is_horizontal(),
                total_along == along_total(h, sizes@.take(i as int)),
                total_cross == cross_merge(h, sizes@.take(i as int)),
            decreases sizes.len() - i,
        {
            proof {
                assert(sizes@.take(i + 1).drop_last() =~= sizes@.take(i as int));
            }
            let (along, cross) = O::split_component_size(sizes[i]);
            total_along.add_assign(&along);
            total_cross.expand(&cross);
            i = i + 1;
        }
        assert(sizes@.take(sizes.len() as int) =~= sizes@);
        O::create_component_size(total_along, total_cross)
    }

    fn draw_placed<S: DrawSurface<C>>(&self, target: &mut S, position: Rectangle) -> Result<
        (),
        S::Error,
    > {
        let places = self.placements(position);
        let count = places.len();
        assert(places@ =~= slot_rects(
            O::is_horizontal(),
            position,
            self.spec_extents(position),
            self.spec_layout().spec_sizes().len(),
        ));
        self.layout.draw_placed_components(target, &places, count)
    }
}

/// Starts a layout that stacks its children from top to bottom.
pub fn vertical_layout<C, L: Layoutable<C>>(first_child: L, first_child_weight: u32) -> (r:
    LayoutableLinearLayout<C, Vertical, SingleLinearLayout<L>>)
    ensures
        r.spec_layout().spec_layout() == first_child,
        r.spec_layout().spec_weight() == first_child_weight,
{
    LayoutableLinearLayout {
        layout: SingleLinearLayout { layout: first_child, weight: first_child_weight },
        marker: std::marker::PhantomData,
    }
}

/// Starts a layout that puts its children side by side from left to right.
pub fn horizontal_layout<C, L: Layoutable<C>>(first_child: L, first_child_weight: u32) -> (r:
    LayoutableLinearLayout<C, Horizontal, SingleLinearLayout<L>>)
    ensures
        r.spec_layout().spec_layout() == first_child,
        r.spec_layout().spec_weight() == first_child_weight,
{
    LayoutableLinearLayout {
        layout: SingleLinearLayout { layout: first_child, weight: first_child_weight },
        marker: std::marker::PhantomData,
    }
}

} // verus!
