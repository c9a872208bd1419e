//! Rectangles, sizes and points, and their projection on the flex axes.

use crate::number::Number;
use crate::scalar::Scalar;
use crate::style::FlexDirection;
use vstd::prelude::*;

verus! {

/// Four edges of a box.
#[derive(Debug, Copy, Clone, PartialEq, Eq, Structural)]
pub struct Rect<T> {
    pub start: T,
    pub end: T,
    pub top: T,
    pub bottom: T,
}

/// A width and a height.
#[derive(Debug, Copy, Clone, PartialEq, Eq, Structural)]
pub struct Size<T> {
    pub width: T,
    pub height: T,
}

/// A position.
#[derive(Debug, Copy, Clone, PartialEq, Eq, Structural)]
pub struct Point<T> {
    pub x: T,
    pub y: T,
}

impl<T> Rect<T> {
    /// Applies `f` to each edge.
    pub fn map<R, F>(self, f: F) -> (r: Rect<R>) where F: Fn(T) -> R
        requires
            call_requires(f, (self.start,)),
            call_requires(f, (self.end,)),
            call_requires(f, (self.top,)),
            call_requires(f, (self.bottom,)),
        ensures
            call_ensures(f, (self.start,), r.start),
            call_ensures(f, (self.end,), r.end),
            call_ensures(f, (self.top,), r.top),
            call_ensures(f, (self.bottom,), r.bottom),
    {
        Rect { start: f(self.start), end: f(self.end), top: f(self.top), bottom: f(self.bottom) }
    }
}

impl<T: Copy> Rect<T> {
    pub open spec fn spec_main_start(&self, direction: FlexDirection) -> T {
        if direction.is_row() {
            self.start
        } else {
            self.top
        }
    }

    /// The edge where the main axis begins.
    #[verifier::when_used_as_spec(spec_main_start)]
    pub fn main_start(&self, direction: FlexDirection) -> (r: T)
        ensures
            r == self.spec_main_start(direction),
    {
        match direction {
            FlexDirection::Row | FlexDirection::RowReverse => self.start,
            FlexDirection::Column | FlexDirection::ColumnReverse => self.top,
        }
    }

    pub open spec fn spec_main_end(&self, direction: FlexDirection) -> T {
        if direction.is_row() {
            self.end
        } else {
            self.bottom
        }
    }

    /// The edge where the main axis ends.
    #[verifier::when_used_as_spec(spec_main_end)]
    pub fn main_end(&self, direction: FlexDirection) -> (r: T)
        ensures
            r == self.spec_main_end(direction),
    {
        match direction {
            FlexDirection::Row | FlexDirection::RowReverse => self.end,
            FlexDirection::Column | FlexDirection::ColumnReverse => self.bottom,
        }
    }

    pub open spec fn spec_cross_start(&self, direction: FlexDirection) -> T {
        if direction.is_row() {
            self.top
        } else {
            self.start
        }
    }

    /// The edge where the cross axis begins.
    #[verifier::when_used_as_spec(spec_cross_start)]
    pub fn cross_start(&self, direction: FlexDirection) -> (r: T)
        ensures
            r == self.spec_cross_start(direction),
    {
        match direction {
            FlexDirection::Row | FlexDirection::RowReverse => self.top,
            FlexDirection::Column | FlexDirection::ColumnReverse => self.start,
        }
    }

    pub open spec fn spec_cross_end(&self, direction: FlexDirection) -> T {
        if direction.is_row() {
            self.bottom
        } else {
            self.end
        }
    }

    /// The edge where the cross axis ends.
    #[verifier::when_used_as_spec(spec_cross_end)]
    pub fn cross_end(&self, direction: FlexDirection) -> (r: T)
        ensures
            r == self.spec_cross_end(direction),
    {
        match direction {
            FlexDirection::Row | FlexDirection::RowReverse => self.bottom,
            FlexDirection::Column | FlexDirection::ColumnReverse => self.end,
        }
    }
}

impl Rect<Scalar> {
    pub open spec fn spec_horizontal(&self) -> Scalar {
        self.start.add(self.end)
    }

    /// Sum of the start and end edges.
    #[verifier::when_used_as_spec(spec_horizontal)]
    pub fn horizontal(&self) -> (r: Scalar)
        ensures
            r == self.spec_horizontal(),
    {
        self.start.add(self.end)
    }

    pub open spec fn spec_vertical(&self) -> Scalar {
        self.top.add(self.bottom)
    }

    /// Sum of the top and bottom edges.
    #[verifier::when_used_as_spec(spec_vertical)]
    pub fn vertical(&self) -> (r: Scalar)
        ensures
            r == self.spec_vertical(),
    {
        self.top.add(self.bottom)
    }

    pub open spec fn spec_main(&self, direction: FlexDirection) -> Scalar {
        if direction.is_row() {
            self.horizontal()
        } else {
            self.vertical()
        }
    }

    /// Sum of the two edges along the main axis.
    #[verifier::when_used_as_spec(spec_main)]
    pub fn main(&self, direction: FlexDirection) -> (r: Scalar)
        ensures
            r == self.spec_main(direction),
    {
        match direction {
            FlexDirection::Row | FlexDirection::RowReverse => self.start.add(self.end),
            FlexDirection::Column | FlexDirection::ColumnReverse => self.top.add(self.bottom),
        }
    }

    pub open spec fn spec_cross(&self, direction: FlexDirection) -> Scalar {
        if direction.is_row() {
            self.vertical()
        } else {
            self.horizontal()
        }
    }

    /// Sum of the two edges along the cross axis.
    #[verifier::when_used_as_spec(spec_cross)]
    pub fn cross(&self, direction: FlexDirection) -> (r: Scalar)
        ensures
            r == self.spec_cross(direction),
    {
        match direction {
            FlexDirection::Row | FlexDirection::RowReverse => self.top.add(self.bottom),
            FlexDirection::Column | FlexDirection::ColumnReverse => self.start.add(self.end),
        }
    }
}

impl Size<()> {
    pub open spec fn spec_undefined() -> Size<Number> {
        Size { width: Number::Undefined, height: Number::Undefined }
    }

    /// The size with both axes undefined.
    #[verifier::when_used_as_spec(spec_undefined)]
    pub fn undefined() -> (r: Size<Number>)
        ensures
            r == Self::spec_undefined(),
    {
        Size { width: Number::Undefined, height: Number::Undefined }
    }
}

impl<T> Size<T> {
    /// Applies `f` to the width and to the height.
    pub fn map<R, F>(self, f: F) -> (r: Size<R>) where F: Fn(T) -> R
        requires
            call_requires(f, (self.width,)),
            call_requires(f, (self.height,)),
        ensures
            call_ensures(f, (self.width,), r.width),
            call_ensures(f, (self.height,), r.height),
    {
        Size { width: f(self.width), height: f(self.height) }
    }
}

impl<T: Copy> Size<T> {
    pub open spec fn spec_with_main(self, direction: FlexDirection, value: T) -> Size<T> {
        if direction.is_row() {
            Size { width: value, height: self.height }
        } else {
            Size { width: self.width, height: value }
        }
    }

    /// The size with `value` along the main axis.
    #[verifier::when_used_as_spec(spec_with_main)]
    pub fn with_main(self, direction: FlexDirection, value: T) -> (r: Size<T>)
        ensures
            r == self.spec_with_main(direction, value),
    {
        match direction {
            FlexDirection::Row | FlexDirection::RowReverse => Size { width: value, height: self.height },
            FlexDirection::Column | FlexDirection::ColumnReverse => Size {
                width: self.width,
                height: value,
            },
        }
    }

    pub open spec fn spec_with_cross(self, direction: FlexDirection, value: T) -> Size<T> {
        if direction.is_row() {
            Size { width: self.width, height: value }
        } else {
            Size { width: value, height: self.height }
        }
    }

    /// The size with `value` along the cross axis.
    #[verifier::when_used_as_spec(spec_with_cross)]
    pub fn with_cross(self, direction: FlexDirection, value: T) -> (r: Size<T>)
        ensures
            r == self.spec_with_cross(direction, value),
    {
        match direction {
            FlexDirection::Row | FlexDirection::RowReverse => Size { width: self.width, height: value },
            FlexDirection::Column | FlexDirection::ColumnReverse => Size {
                width: value,
                height: self.height,
            },
        }
    }

    /// Writes `value` along the main axis.
    pub fn set_main(&mut self, direction: FlexDirection, value: T)
        ensures
            *final(self) == old(self).with_main(direction, value),
    {
        match direction {
            FlexDirection::Row | FlexDirection::RowReverse => self.width = value,
            FlexDirection::Column | FlexDirection::ColumnReverse => self.height = value,
        }
    }

    /// Writes `value` along the cross axis.
    pub fn set_cross(&mut self, direction: FlexDirection, value: T)
        ensures
            *final(self) == old(self).with_cross(direction, value),
    {
        match direction {
            FlexDirection::Row | FlexDirection::RowReverse => self.height = value,
            FlexDirection::Column | FlexDirection::ColumnReverse => self.width = value,
        }
    }

    pub open spec fn spec_main(self, direction: FlexDirection) -> T {
        if direction.is_row() {
            self.width
        } else {
            self.height
        }
    }

    /// The extent along the main axis.
    #[verifier::when_used_as_spec(spec_main)]
    pub fn main(self, direction: FlexDirection) -> (r: T)
        ensures
            r == self.spec_main(direction),
    {
        match direction {
            FlexDirection::Row | FlexDirection::RowReverse => self.width,
            FlexDirection::Column | FlexDirection::ColumnReverse => self.height,
        }
    }

    pub open spec fn spec_cross(self, direction: FlexDirection) -> T {
        if direction.is_row() {
            self.height
        } else {
            self.width
        }
    }

    /// The extent along the cross axis.
    #[verifier::when_used_as_spec(spec_cross)]
    pub fn cross(self, direction: FlexDirection) -> (r: T)
        ensures
            r == self.spec_cross(direction),
    {
        match direction {
            FlexDirection::Row | FlexDirection::RowReverse => self.height,
            FlexDirection::Column | FlexDirection::ColumnReverse => self.width,
        }
    }
}

impl Size<Scalar> {
    pub open spec fn spec_zero() -> Size<Scalar> {
        Size { width: Scalar::zero(), height: Scalar::zero() }
    }

    /// The empty size.
    #[verifier::when_used_as_spec(spec_zero)]
    pub fn zero() -> (r: Size<Scalar>)
        ensures
            r == Self::spec_zero(),
    {
        Size { width: Scalar::zero(), height: Scalar::zero() }
    }

    pub open spec fn spec_to_number(self) -> Size<Number> {
        Size { width: Number::Defined(self.width), height: Number::Defined(self.height) }
    }

    /// The size with both axes defined.
    #[verifier::when_used_as_spec(spec_to_number)]
    pub fn to_number(self) -> (r: Size<Number>)
        ensures
            r == self.spec_to_number(),
    {
        Size { width: Number::Defined(self.width), height: Number::Defined(self.height) }
    }
}

impl Point<Scalar> {
    pub open spec fn spec_zero() -> Point<Scalar> {
        Point { x: Scalar::zero(), y: Scalar::zero() }
    }

    /// The origin.
    #[verifier::when_used_as_spec(spec_zero)]
    pub fn zero() -> (r: Point<Scalar>)
        ensures
            r == Self::spec_zero(),
    {
        Point { x: Scalar::zero(), y: Scalar::zero() }
    }
}

} // verus!
