//! The names most layouts are built from.
pub use crate::align::{center, east, north, south, west};
pub use crate::border::{bordered, DashedLine, Decorator, RoundedLine};
pub use crate::expand::{expand, expand_horizontal, expand_vertical};
pub use crate::geometry::{Pixel, Point, Rectangle, Size};
pub use crate::layoutable::{DrawSurface, Layoutable};
pub use crate::linear::{horizontal_layout, vertical_layout};
pub use crate::padding::padding;
pub use crate::{ComponentSize, ValueRange};
