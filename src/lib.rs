//! A small layout engine for raster displays.
//!
//! Every element reports, per axis, the extent it would like to have together
//! with the smallest and largest extent it accepts. Containers negotiate how an
//! actually available rectangle is split among their children and then draw
//! each child into the rectangle it was given.
use vstd::prelude::*;

pub mod align;
pub mod border;
pub mod distribute;
pub mod expand;
pub mod geometry;
pub mod layoutable;
pub mod linear;
pub mod padding;
pub mod prelude;
pub mod scale;

verus! {

/// Clamps a mathematical integer into the range of `u32`; every operation on
/// ranges saturates in this way instead of wrapping.
pub open spec fn sat(v: int) -> u32 {
    if v < 0 {
        0
    } else if v > u32::MAX {
        u32::MAX
    } else {
        v as u32
    }
}

/// The sizing constraint of one axis: the preferred extent and the smallest
/// and largest extent an element accepts.
#[derive(Copy, Clone, Eq, PartialEq, Structural, Ord, PartialOrd, Hash, Debug)]
pub struct ValueRange {
    pub preferred_value: u32,
    pub min_value: u32,
    pub max_value: u32,
}

impl ValueRange {
    /// All three values moved by `k`, each clamped to the `u32` range.
    pub open spec fn shifted(self, k: int) -> ValueRange {
        ValueRange {
            preferred_value: sat(self.preferred_value + k),
            min_value: sat(self.min_value + k),
            max_value: sat(self.max_value + k),
        }
    }

    /// Field-wise saturating sum of two ranges.
    pub open spec fn plus(self, o: ValueRange) -> ValueRange {
        ValueRange {
            preferred_value: sat(self.preferred_value + o.preferred_value),
            min_value: sat(self.min_value + o.min_value),
            max_value: sat(self.max_value + o.max_value),
        }
    }

    /// Field-wise maximum of two ranges.
    pub open spec fn merged(self, o: ValueRange) -> ValueRange {
        ValueRange {
            preferred_value: if self.preferred_value < o.preferred_value {
                o.preferred_value
            } else {
                self.preferred_value
            },
            min_value: if self.min_value < o.min_value {
                o.min_value
            } else {
                self.min_value
            },
            max_value: if self.max_value < o.max_value {
                o.max_value
            } else {
                self.max_value
            },
        }
    }

    /// The range with no upper bound.
    pub open spec fn unbounded(self) -> ValueRange {
        ValueRange { max_value: u32::MAX, ..self }
    }

    /// `min <= preferred <= max`.
    pub open spec fn well_ordered(self) -> bool {
        self.min_value <= self.preferred_value <= self.max_value
    }

    /// The range that accepts exactly `value`.
    pub fn fixed(value: u32) -> (r: ValueRange)
        ensures
            r.preferred_value == value,
            r.min_value == value,
            r.max_value == value,
    {
        ValueRange { preferred_value: value, min_value: value, max_value: value }
    }

    /// A range from its three values.
    pub fn new(preferred_value: u32, min_value: u32, max_value: u32) -> (r: ValueRange)
        ensures
            r.preferred_value == preferred_value,
            r.min_value == min_value,
            r.max_value == max_value,
    {
        ValueRange { preferred_value, min_value, max_value }
    }

    /// Adds `rhs` to all three values, saturating at `u32::MAX`.
    pub fn add_value(self, rhs: u32) -> (r: ValueRange)
        ensures
            r == self.shifted(rhs as int),
    {
        ValueRange {
            preferred_value: self.preferred_value.saturating_add(rhs),
            min_value: self.min_value.saturating_add(rhs),
            max_value: self.max_value.saturating_add(rhs),
        }
    }

    /// Subtracts `rhs` from all three values, saturating at zero.
    pub fn sub_value(self, rhs: u32) -> (r: ValueRange)
        ensures
            r == self.shifted(-(rhs as int)),
    {
        ValueRange {
            preferred_value: self.preferred_value.saturating_sub(rhs),
            min_value: self.min_value.saturating_sub(rhs),
            max_value: self.max_value.saturating_sub(rhs),
        }
    }

    /// Moves all three values by a signed amount, saturating at both ends.
    pub fn add_signed(self, rhs: i64) -> (r: ValueRange)
        ensures
            r == self.shifted(rhs as int),
    {
        if rhs < 0 {
            let magnitude: u64 = (0i128 - rhs as i128) as u64;
            if magnitude > u32::MAX as u64 {
                ValueRange { preferred_value: 0, min_value: 0, max_value: 0 }
            } else {
                self.sub_value(magnitude as u32)
            }
        } else if rhs as u64 > u32::MAX as u64 {
            ValueRange { preferred_value: u32::MAX, min_value: u32::MAX, max_value: u32::MAX }
        } else {
            self.add_value(rhs as u32)
        }
    }

    /// Adds `rhs` field by field, saturating at `u32::MAX`.
    pub fn add_assign(&mut self, rhs: &ValueRange)
        ensures
            *final(self) == old(self).plus(*rhs),
    {
        self.preferred_value = self.preferred_value.saturating_add(rhs.preferred_value);
        self.min_value = self.min_value.saturating_add(rhs.min_value);
        self.max_value = self.max_value.saturating_add(rhs.max_value);
    }

    /// Raises each value to the corresponding value of `rhs` where that is larger.
    pub fn expand(&mut self, rhs: &ValueRange)
        ensures
            *final(self) == old(self).merged(*rhs),
    {
        if self.preferred_value < rhs.preferred_value {
            self.preferred_value = rhs.preferred_value;
        }
        if self.min_value < rhs.min_value {
            self.min_value = rhs.min_value;
        }
        if self.max_value < rhs.max_value {
            self.max_value = rhs.max_value;
        }
    }

    /// The same range without an upper bound.
    pub fn expand_max(&self) -> (r: ValueRange)
        ensures
            r == self.unbounded(),
    {
        ValueRange {
            preferred_value: self.preferred_value,
            min_value: self.min_value,
            max_value: u32::MAX,
        }
    }
}

/// The sizing constraints of an element on both axes.
#[derive(Copy, Clone, Eq, PartialEq, Structural, Ord, PartialOrd, Hash, Debug)]
pub struct ComponentSize {
    pub width: ValueRange,
    pub height: ValueRange,
}

impl ComponentSize {
    /// The size that only accepts `width` x `height`.
    pub fn fixed_size(width: u32, height: u32) -> (r: ComponentSize)
        ensures
            r.width == (ValueRange { preferred_value: width, min_value: width, max_value: width }),
            r.height == (ValueRange {
                preferred_value: height,
                min_value: height,
                max_value: height,
            }),
    {
        ComponentSize { width: ValueRange::fixed(width), height: ValueRange::fixed(height) }
    }

    /// A size from preferred extents and the accepted range of each axis; the
    /// start of a range is the minimum and its end the maximum.
    pub fn new(
        preferred_width: u32,
        preferred_height: u32,
        width_range: std::ops::Range<u32>,
        height_range: std::ops::Range<u32>,
    ) -> (r: ComponentSize)
        ensures
            r.width == (ValueRange {
                preferred_value: preferred_width,
                min_value: width_range.start,
                max_value: width_range.end,
            }),
            r.height == (ValueRange {
                preferred_value: preferred_height,
                min_value: height_range.start,
                max_value: height_range.end,
            }),
    {
        ComponentSize {
            width: ValueRange {
                preferred_value: preferred_width,
                min_value: width_range.start,
                max_value: width_range.end,
            },
            height: ValueRange {
                preferred_value: preferred_height,
                min_value: height_range.start,
                max_value: height_range.end,
            },
        }
    }

    /// The size that asks for nothing: zero on every value.
    pub open spec fn spec_zero() -> ComponentSize {
        ComponentSize {
            width: ValueRange { preferred_value: 0, min_value: 0, max_value: 0 },
            height: ValueRange { preferred_value: 0, min_value: 0, max_value: 0 },
        }
    }

    /// Both axes moved by `dw` and `dh`, saturating.
    pub open spec fn grown(self, dw: int, dh: int) -> ComponentSize {
        ComponentSize { width: self.width.shifted(dw), height: self.height.shifted(dh) }
    }
}

impl Default for ComponentSize {
    fn default() -> (r: ComponentSize)
        ensures
            r == ComponentSize::spec_zero(),
    {
        ComponentSize { width: ValueRange::fixed(0), height: ValueRange::fixed(0) }
    }
}

} // verus!
