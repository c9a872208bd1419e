//! Style properties of a node.

use crate::geometry::{Rect, Size};
use crate::number::{MinMax, Number};
use crate::scalar::Scalar;
use vstd::prelude::*;

verus! {

/// An index that names no variant.
#[derive(Clone, Copy, Debug, PartialEq, Eq, Structural)]
pub struct InvalidIndex {
    pub index: i32,
}

/// How a container aligns its items on the cross axis.
#[derive(Clone, Copy, Debug, PartialEq, Eq, Structural, Hash)]
pub enum AlignItems {
    FlexStart,
    FlexEnd,
    Center,
    Baseline,
    Stretch,
}

impl Default for AlignItems {
    fn default() -> (r: AlignItems)
        ensures
            r == AlignItems::Stretch,
    {
        AlignItems::Stretch
    }
}

impl AlignItems {
    /// Position of the variant in the declaration.
    pub open spec fn index(self) -> int {
        match self {
            AlignItems::FlexStart => 0,
            AlignItems::FlexEnd => 1,
            AlignItems::Center => 2,
            AlignItems::Baseline => 3,
            AlignItems::Stretch => 4,
        }
    }

    /// The variant at position `index`.
    pub fn from_index(index: i32) -> (r: Result<AlignItems, InvalidIndex>)
        ensures
            0 <= index < 5 <==> r is Ok,
            r matches Ok(v) ==> v.index() == index,
            r matches Err(e) ==> e.index == index,
    {
        match index {
            0 => Ok(AlignItems::FlexStart),
            1 => Ok(AlignItems::FlexEnd),
            2 => Ok(AlignItems::Center),
            3 => Ok(AlignItems::Baseline),
            4 => Ok(AlignItems::Stretch),
            n => Err(InvalidIndex { index: n }),
        }
    }
}

/// How one item is aligned on the cross axis.
#[derive(Clone, Copy, Debug, PartialEq, Eq, Structural, Hash)]
pub enum AlignSelf {
    Auto,
    FlexStart,
    FlexEnd,
    Center,
    Baseline,
    Stretch,
}

impl Default for AlignSelf {
    fn default() -> (r: AlignSelf)
        ensures
            r == AlignSelf::Auto,
    {
        AlignSelf::Auto
    }
}

impl AlignSelf {
    /// Position of the variant in the declaration.
    pub open spec fn index(self) -> int {
        match self {
            AlignSelf::Auto => 0,
            AlignSelf::FlexStart => 1,
            AlignSelf::FlexEnd => 2,
            AlignSelf::Center => 3,
            AlignSelf::Baseline => 4,
            AlignSelf::Stretch => 5,
        }
    }

    /// The variant at position `index`.
    pub fn from_index(index: i32) -> (r: Result<AlignSelf, InvalidIndex>)
        ensures
            0 <= index < 6 <==> r is Ok,
            r matches Ok(v) ==> v.index() == index,
            r matches Err(e) ==> e.index == index,
    {
        match index {
            0 => Ok(AlignSelf::Auto),
            1 => Ok(AlignSelf::FlexStart),
            2 => Ok(AlignSelf::FlexEnd),
            3 => Ok(AlignSelf::Center),
            4 => Ok(AlignSelf::Baseline),
            5 => Ok(AlignSelf::Stretch),
            n => Err(InvalidIndex { index: n }),
        }
    }
}

/// How the lines of a container share its cross axis.
#[derive(Clone, Copy, Debug, PartialEq, Eq, Structural, Hash)]
pub enum AlignContent {
    FlexStart,
    FlexEnd,
    Center,
    Stretch,
    SpaceBetween,
    SpaceAround,
}

impl Default for AlignContent {
    fn default() -> (r: AlignContent)
        ensures
            r == AlignContent::Stretch,
    {
        AlignContent::Stretch
    }
}

impl AlignContent {
    /// Position of the variant in the declaration.
    pub open spec fn index(self) -> int {
        match self {
            AlignContent::FlexStart => 0,
            AlignContent::FlexEnd => 1,
            AlignContent::Center => 2,
            AlignContent::Stretch => 3,
            AlignContent::SpaceBetween => 4,
            AlignContent::SpaceAround => 5,
        }
    }

    /// The variant at position `index`.
    pub fn from_index(index: i32) -> (r: Result<AlignContent, InvalidIndex>)
        ensures
            0 <= index < 6 <==> r is Ok,
            r matches Ok(v) ==> v.index() == index,
            r matches Err(e) ==> e.index == index,
    {
        match index {
            0 => Ok(AlignContent::FlexStart),
            1 => Ok(AlignContent::FlexEnd),
            2 => Ok(AlignContent::Center),
            3 => Ok(AlignContent::Stretch),
            4 => Ok(AlignContent::SpaceBetween),
            5 => Ok(AlignContent::SpaceAround),
            n => Err(InvalidIndex { index: n }),
        }
    }
}

/// Inline direction.
#[derive(Clone, Copy, Debug, PartialEq, Eq, Structural, Hash)]
pub enum Direction {
    Inherit,
    LTR,
    RTL,
}

impl Default for Direction {
    fn default() -> (r: Direction)
        ensures
            r == Direction::Inherit,
    {
        Direction::Inherit
    }
}

impl Direction {
    /// Position of the variant in the declaration.
    pub open spec fn index(self) -> int {
        match self {
            Direction::Inherit => 0,
            Direction::LTR => 1,
            Direction::RTL => 2,
        }
    }

    /// The variant at position `index`.
    pub fn from_index(index: i32) -> (r: Result<Direction, InvalidIndex>)
        ensures
            0 <= index < 3 <==> r is Ok,
            r matches Ok(v) ==> v.index() == index,
            r matches Err(e) ==> e.index == index,
    {
        match index {
            0 => Ok(Direction::Inherit),
            1 => Ok(Direction::LTR),
            2 => Ok(Direction::RTL),
            n => Err(InvalidIndex { index: n }),
        }
    }
}

/// Whether a node takes part in layout.
#[derive(Clone, Copy, Debug, PartialEq, Eq, Structural, Hash)]
pub enum Display {
    Flex,
    Hidden,
}

impl Default for Display {
    fn default() -> (r: Display)
        ensures
            r == Display::Flex,
    {
        Display::Flex
    }
}

impl Display {
    /// Position of the variant in the declaration.
    pub open spec fn index(self) -> int {
        match self {
            Display::Flex => 0,
            Display::Hidden => 1,
        }
    }

    /// The variant at position `index`.
    pub fn from_index(index: i32) -> (r: Result<Display, InvalidIndex>)
        ensures
            0 <= index < 2 <==> r is Ok,
            r matches Ok(v) ==> v.index() == index,
            r matches Err(e) ==> e.index == index,
    {
        match index {
            0 => Ok(Display::Flex),
            1 => Ok(Display::Hidden),
            n => Err(InvalidIndex { index: n }),
        }
    }
}

/// Direction of the main axis.
#[derive(Clone, Copy, Debug, PartialEq, Eq, Structural, Hash)]
pub enum FlexDirection {
    Row,
    Column,
    RowReverse,
    ColumnReverse,
}

impl Default for FlexDirection {
    fn default() -> (r: FlexDirection)
        ensures
            r == FlexDirection::Row,
    {
        FlexDirection::Row
    }
}

impl FlexDirection {
    /// Position of the variant in the declaration.
    pub open spec fn index(self) -> int {
        match self {
            FlexDirection::Row => 0,
            FlexDirection::Column => 1,
            FlexDirection::RowReverse => 2,
            FlexDirection::ColumnReverse => 3,
        }
    }

    /// The variant at position `index`.
    pub fn from_index(index: i32) -> (r: Result<FlexDirection, InvalidIndex>)
        ensures
            0 <= index < 4 <==> r is Ok,
            r matches Ok(v) ==> v.index() == index,
            r matches Err(e) ==> e.index == index,
    {
        match index {
            0 => Ok(FlexDirection::Row),
            1 => Ok(FlexDirection::Column),
            2 => Ok(FlexDirection::RowReverse),
            3 => Ok(FlexDirection::ColumnReverse),
            n => Err(InvalidIndex { index: n }),
        }
    }
}

/// How the items of a line share the main axis.
#[derive(Clone, Copy, Debug, PartialEq, Eq, Structural, Hash)]
pub enum JustifyContent {
    FlexStart,
    FlexEnd,
    Center,
    SpaceBetween,
    SpaceAround,
    SpaceEvenly,
}

impl Default for JustifyContent {
    fn default() -> (r: JustifyContent)
        ensures
            r == JustifyContent::FlexStart,
    {
        JustifyContent::FlexStart
    }
}

impl JustifyContent {
    /// Position of the variant in the declaration.
    pub open spec fn index(self) -> int {
        match self {
            JustifyContent::FlexStart => 0,
            JustifyContent::FlexEnd => 1,
            JustifyContent::Center => 2,
            JustifyContent::SpaceBetween => 3,
            JustifyContent::SpaceAround => 4,
            JustifyContent::SpaceEvenly => 5,
        }
    }

    /// The variant at position `index`.
    pub fn from_index(index: i32) -> (r: Result<JustifyContent, InvalidIndex>)
        ensures
            0 <= index < 6 <==> r is Ok,
            r matches Ok(v) ==> v.index() == index,
            r matches Err(e) ==> e.index == index,
    {
        match index {
            0 => Ok(JustifyContent::FlexStart),
            1 => Ok(JustifyContent::FlexEnd),
            2 => Ok(JustifyContent::Center),
            3 => Ok(JustifyContent::SpaceBetween),
            4 => Ok(JustifyContent::SpaceAround),
            5 => Ok(JustifyContent::SpaceEvenly),
            n => Err(InvalidIndex { index: n }),
        }
    }
}

/// Treatment of content that leaves its box.
#[derive(Clone, Copy, Debug, PartialEq, Eq, Structural, Hash)]
pub enum Overflow {
    Visible,
    Hidden,
    Scroll,
}

impl Default for Overflow {
    fn default() -> (r: Overflow)
        ensures
            r == Overflow::Visible,
    {
        Overflow::Visible
    }
}

impl Overflow {
    /// Position of the variant in the declaration.
    pub open spec fn index(self) -> int {
        match self {
            Overflow::Visible => 0,
            Overflow::Hidden => 1,
            Overflow::Scroll => 2,
        }
    }

    /// The variant at position `index`.
    pub fn from_index(index: i32) -> (r: Result<Overflow, InvalidIndex>)
        ensures
            0 <= index < 3 <==> r is Ok,
            r matches Ok(v) ==> v.index() == index,
            r matches Err(e) ==> e.index == index,
    {
        match index {
            0 => Ok(Overflow::Visible),
            1 => Ok(Overflow::Hidden),
            2 => Ok(Overflow::Scroll),
            n => Err(InvalidIndex { index: n }),
        }
    }
}

/// Whether a node is placed in flow or against its container.
#[derive(Clone, Copy, Debug, PartialEq, Eq, Structural, Hash)]
pub enum PositionType {
    Relative,
    Absolute,
}

impl Default for PositionType {
    fn default() -> (r: PositionType)
        ensures
            r == PositionType::Relative,
    {
        PositionType::Relative
    }
}

impl PositionType {
    /// Position of the variant in the declaration.
    pub open spec fn index(self) -> int {
        match self {
            PositionType::Relative => 0,
            PositionType::Absolute => 1,
        }
    }

    /// The variant at position `index`.
    pub fn from_index(index: i32) -> (r: Result<PositionType, InvalidIndex>)
        ensures
            0 <= index < 2 <==> r is Ok,
            r matches Ok(v) ==> v.index() == index,
            r matches Err(e) ==> e.index == index,
    {
        match index {
            0 => Ok(PositionType::Relative),
            1 => Ok(PositionType::Absolute),
            n => Err(InvalidIndex { index: n }),
        }
    }
}

/// Whether items wrap onto several lines.
#[derive(Clone, Copy, Debug, PartialEq, Eq, Structural, Hash)]
pub enum FlexWrap {
    NoWrap,
    Wrap,
    WrapReverse,
}

impl Default for FlexWrap {
    fn default() -> (r: FlexWrap)
        ensures
            r == FlexWrap::NoWrap,
    {
        FlexWrap::NoWrap
    }
}

impl FlexWrap {
    /// Position of the variant in the declaration.
    pub open spec fn index(self) -> int {
        match self {
            FlexWrap::NoWrap => 0,
            FlexWrap::Wrap => 1,
            FlexWrap::WrapReverse => 2,
        }
    }

    /// The variant at position `index`.
    pub fn from_index(index: i32) -> (r: Result<FlexWrap, InvalidIndex>)
        ensures
            0 <= index < 3 <==> r is Ok,
            r matches Ok(v) ==> v.index() == index,
            r matches Err(e) ==> e.index == index,
    {
        match index {
            0 => Ok(FlexWrap::NoWrap),
            1 => Ok(FlexWrap::Wrap),
            2 => Ok(FlexWrap::WrapReverse),
            n => Err(InvalidIndex { index: n }),
        }
    }
}

impl FlexDirection {
    pub open spec fn spec_is_row(self) -> bool {
        self == FlexDirection::Row || self == FlexDirection::RowReverse
    }

    /// Whether the main axis is horizontal.
    #[verifier::when_used_as_spec(spec_is_row)]
    pub fn is_row(self) -> (r: bool)
        ensures
            r == self.spec_is_row(),
    {
        match self {
            FlexDirection::Row | FlexDirection::RowReverse => true,
            FlexDirection::Column | FlexDirection::ColumnReverse => false,
        }
    }

    pub open spec fn spec_is_column(self) -> bool {
        self == FlexDirection::Column || self == FlexDirection::ColumnReverse
    }

    /// Whether the main axis is vertical.
    #[verifier::when_used_as_spec(spec_is_column)]
    pub fn is_column(self) -> (r: bool)
        ensures
            r == self.spec_is_column(),
    {
        match self {
            FlexDirection::Row | FlexDirection::RowReverse => false,
            FlexDirection::Column | FlexDirection::ColumnReverse => true,
        }
    }

    pub open spec fn spec_is_reverse(self) -> bool {
        self == FlexDirection::RowReverse || self == FlexDirection::ColumnReverse
    }

    /// Whether items run against the axis.
    #[verifier::when_used_as_spec(spec_is_reverse)]
    pub fn is_reverse(self) -> (r: bool)
        ensures
            r == self.spec_is_reverse(),
    {
        match self {
            FlexDirection::Row | FlexDirection::Column => false,
            FlexDirection::RowReverse | FlexDirection::ColumnReverse => true,
        }
    }
}

/// A length as a style states it.
#[derive(Clone, Copy, Debug, PartialEq, Eq, Structural, Hash)]
pub enum Dimension {
    Undefined,
    Auto,
    Points(Scalar),
    Percent(Scalar),
}

impl Default for Dimension {
    fn default() -> (r: Dimension)
        ensures
            r == Dimension::Undefined,
    {
        Dimension::Undefined
    }
}

impl Dimension {
    pub open spec fn spec_resolve(self, parent: Number) -> Number {
        match self {
            Dimension::Points(points) => Number::Defined(points),
            Dimension::Percent(percent) => parent.mul_scalar(percent),
            _ => Number::Undefined,
        }
    }

    /// The length against the parent's extent: points as they are, a percentage
    /// of a defined extent, and nothing otherwise.
    #[verifier::when_used_as_spec(spec_resolve)]
    pub fn resolve(self, parent: Number) -> (r: Number)
        ensures
            r == self.spec_resolve(parent),
    {
        match self {
            Dimension::Points(points) => Number::Defined(points),
            Dimension::Percent(percent) => parent.mul_scalar(percent),
            _ => Number::Undefined,
        }
    }

    pub open spec fn spec_is_defined(self) -> bool {
        self is Points || self is Percent
    }

    /// Whether the dimension states a length.
    #[verifier::when_used_as_spec(spec_is_defined)]
    pub fn is_defined(self) -> (r: bool)
        ensures
            r == self.spec_is_defined(),
    {
        match self {
            Dimension::Points(_) => true,
            Dimension::Percent(_) => true,
            _ => false,
        }
    }

    pub open spec fn spec_is_auto(self) -> bool {
        self is Auto
    }

    /// Whether the dimension is `Auto`.
    #[verifier::when_used_as_spec(spec_is_auto)]
    pub fn is_auto(self) -> (r: bool)
        ensures
            r == self.spec_is_auto(),
    {
        match self {
            Dimension::Auto => true,
            _ => false,
        }
    }

    /// The dimension that a kind index and a value denote: 0 for points, 1 for
    /// a percentage, 2 for `Auto`, 3 for `Undefined`.
    pub open spec fn of_kind(kind: i32, value: Scalar) -> Dimension {
        if kind == 0 {
            Dimension::Points(value)
        } else if kind == 1 {
            Dimension::Percent(value)
        } else if kind == 2 {
            Dimension::Auto
        } else {
            Dimension::Undefined
        }
    }

    /// Builds a dimension from its kind index and value.
    pub fn from_kind(kind: i32, value: Scalar) -> (r: Result<Dimension, InvalidIndex>)
        ensures
            0 <= kind < 4 <==> r is Ok,
            r matches Ok(d) ==> d == Self::of_kind(kind, value),
            r matches Err(e) ==> e.index == kind,
    {
        match kind {
            0 => Ok(Dimension::Points(value)),
            1 => Ok(Dimension::Percent(value)),
            2 => Ok(Dimension::Auto),
            3 => Ok(Dimension::Undefined),
            n => Err(InvalidIndex { index: n }),
        }
    }
}

impl Default for Rect<Dimension> {
    fn default() -> (r: Rect<Dimension>)
        ensures
            r == Rect::<Dimension>::undefined(),
    {
        Rect::<Dimension>::undefined()
    }
}

impl Default for Size<Dimension> {
    fn default() -> (r: Size<Dimension>)
        ensures
            r == Size::<Dimension>::auto(),
    {
        Size::<Dimension>::auto()
    }
}

impl Rect<Dimension> {
    pub open spec fn spec_undefined() -> Rect<Dimension> {
        Rect {
            start: Dimension::Undefined,
            end: Dimension::Undefined,
            top: Dimension::Undefined,
            bottom: Dimension::Undefined,
        }
    }

    /// The rectangle with no edge stated.
    #[verifier::when_used_as_spec(spec_undefined)]
    pub fn undefined() -> (r: Rect<Dimension>)
        ensures
            r == Self::spec_undefined(),
    {
        Rect {
            start: Dimension::Undefined,
            end: Dimension::Undefined,
            top: Dimension::Undefined,
            bottom: Dimension::Undefined,
        }
    }

    pub open spec fn spec_resolve(self, parent: Number) -> Rect<Number> {
        Rect {
            start: self.start.resolve(parent),
            end: self.end.resolve(parent),
            top: self.top.resolve(parent),
            bottom: self.bottom.resolve(parent),
        }
    }

    /// Every edge resolved against the same extent.
    #[verifier::when_used_as_spec(spec_resolve)]
    pub fn resolve(self, parent: Number) -> (r: Rect<Number>)
        ensures
            r == self.spec_resolve(parent),
    {
        Rect {
            start: self.start.resolve(parent),
            end: self.end.resolve(parent),
            top: self.top.resolve(parent),
            bottom: self.bottom.resolve(parent),
        }
    }

    pub open spec fn spec_resolve_or_zero(self, parent: Number) -> Rect<Scalar> {
        Rect {
            start: crate::number::OrElse::<Scalar>::or_else_spec(self.start.resolve(parent), Scalar::zero()),
            end: crate::number::OrElse::<Scalar>::or_else_spec(self.end.resolve(parent), Scalar::zero()),
            top: crate::number::OrElse::<Scalar>::or_else_spec(self.top.resolve(parent), Scalar::zero()),
            bottom: crate::number::OrElse::<Scalar>::or_else_spec(self.bottom.resolve(parent), Scalar::zero()),
        }
    }

    /// Every edge resolved against the same extent, zero where undefined.
    #[verifier::when_used_as_spec(spec_resolve_or_zero)]
    pub fn resolve_or_zero(self, parent: Number) -> (r: Rect<Scalar>)
        ensures
            r == self.spec_resolve_or_zero(parent),
    {
        Rect {
            start: crate::number::OrElse::<Scalar>::or_else(self.start.resolve(parent), Scalar::zero()),
            end: crate::number::OrElse::<Scalar>::or_else(self.end.resolve(parent), Scalar::zero()),
            top: crate::number::OrElse::<Scalar>::or_else(self.top.resolve(parent), Scalar::zero()),
            bottom: crate::number::OrElse::<Scalar>::or_else(self.bottom.resolve(parent), Scalar::zero()),
        }
    }
}

impl Size<Dimension> {
    pub open spec fn spec_auto() -> Size<Dimension> {
        Size { width: Dimension::Auto, height: Dimension::Auto }
    }

    /// The size with both axes `Auto`.
    #[verifier::when_used_as_spec(spec_auto)]
    pub fn auto() -> (r: Size<Dimension>)
        ensures
            r == Self::spec_auto(),
    {
        Size { width: Dimension::Auto, height: Dimension::Auto }
    }

    pub open spec fn spec_resolve(self, parent: Size<Number>) -> Size<Number> {
        Size { width: self.width.resolve(parent.width), height: self.height.resolve(parent.height) }
    }

    /// Each axis resolved against the same axis of `parent`.
    #[verifier::when_used_as_spec(spec_resolve)]
    pub fn resolve(self, parent: Size<Number>) -> (r: Size<Number>)
        ensures
            r == self.spec_resolve(parent),
    {
        Size { width: self.width.resolve(parent.width), height: self.height.resolve(parent.height) }
    }
}

/// The flex properties of one node.
#[derive(Clone, Copy, Debug, PartialEq, Eq, Structural)]
pub struct Style {
    pub display: Display,
    pub position_type: PositionType,
    pub direction: Direction,
    pub flex_direction: FlexDirection,
    pub flex_wrap: FlexWrap,
    pub overflow: Overflow,
    pub align_items: AlignItems,
    pub align_self: AlignSelf,
    pub align_content: AlignContent,
    pub justify_content: JustifyContent,
    pub position: Rect<Dimension>,
    pub margin: Rect<Dimension>,
    pub padding: Rect<Dimension>,
    pub border: Rect<Dimension>,
    pub flex_grow: Scalar,
    pub flex_shrink: Scalar,
    pub flex_basis: Dimension,
    pub size: Size<Dimension>,
    pub min_size: Size<Dimension>,
    pub max_size: Size<Dimension>,
    pub aspect_ratio: Number,
}

impl Default for Style {
    fn default() -> (r: Style)
        ensures
            r == Style::initial(),
    {
        Style {
            display: Display::Flex,
            position_type: PositionType::Relative,
            direction: Direction::Inherit,
            flex_direction: FlexDirection::Row,
            flex_wrap: FlexWrap::NoWrap,
            overflow: Overflow::Visible,
            align_items: AlignItems::Stretch,
            align_self: AlignSelf::Auto,
            align_content: AlignContent::Stretch,
            justify_content: JustifyContent::FlexStart,
            position: Rect::<Dimension>::undefined(),
            margin: Rect::<Dimension>::undefined(),
            padding: Rect::<Dimension>::undefined(),
            border: Rect::<Dimension>::undefined(),
            flex_grow: Scalar::zero(),
            flex_shrink: Scalar::one(),
            flex_basis: Dimension::Auto,
            size: Size::<Dimension>::auto(),
            min_size: Size::<Dimension>::auto(),
            max_size: Size::<Dimension>::auto(),
            aspect_ratio: Number::Undefined,
        }
    }
}

impl AlignItems {
    /// The alignment that an item with `align_self: Auto` takes from a
    /// container with this `align_items`.
    pub open spec fn spec_inherited(self) -> AlignSelf {
        match self {
            AlignItems::FlexStart => AlignSelf::FlexStart,
            AlignItems::FlexEnd => AlignSelf::FlexEnd,
            AlignItems::Center => AlignSelf::Center,
            AlignItems::Baseline => AlignSelf::Baseline,
            AlignItems::Stretch => AlignSelf::Stretch,
        }
    }

    #[verifier::when_used_as_spec(spec_inherited)]
    pub fn inherited(self) -> (r: AlignSelf)
        ensures
            r == self.spec_inherited(),
    {
        match self {
            AlignItems::FlexStart => AlignSelf::FlexStart,
            AlignItems::FlexEnd => AlignSelf::FlexEnd,
            AlignItems::Center => AlignSelf::Center,
            AlignItems::Baseline => AlignSelf::Baseline,
            AlignItems::Stretch => AlignSelf::Stretch,
        }
    }
}

impl Style {
    /// The style in which every property has its initial value.
    pub open spec fn initial() -> Style {
        Style {
            display: Display::Flex,
            position_type: PositionType::Relative,
            direction: Direction::Inherit,
            flex_direction: FlexDirection::Row,
            flex_wrap: FlexWrap::NoWrap,
            overflow: Overflow::Visible,
            align_items: AlignItems::Stretch,
            align_self: AlignSelf::Auto,
            align_content: AlignContent::Stretch,
            justify_content: JustifyContent::FlexStart,
            position: Rect::<Dimension>::undefined(),
            margin: Rect::<Dimension>::undefined(),
            padding: Rect::<Dimension>::undefined(),
            border: Rect::<Dimension>::undefined(),
            flex_grow: Scalar::zero(),
            flex_shrink: Scalar::one(),
            flex_basis: Dimension::Auto,
            size: Size::<Dimension>::auto(),
            min_size: Size::<Dimension>::auto(),
            max_size: Size::<Dimension>::auto(),
            aspect_ratio: Number::Undefined,
        }
    }

    pub open spec fn spec_min_main_size(&self, direction: FlexDirection) -> Dimension {
        self.min_size.main(direction)
    }

    /// The least size along the main axis.
    #[verifier::when_used_as_spec(spec_min_main_size)]
    pub fn min_main_size(&self, direction: FlexDirection) -> (r: Dimension)
        ensures
            r == self.spec_min_main_size(direction),
    {
        self.min_size.main(direction)
    }

    pub open spec fn spec_max_main_size(&self, direction: FlexDirection) -> Dimension {
        self.max_size.main(direction)
    }

    /// The greatest size along the main axis.
    #[verifier::when_used_as_spec(spec_max_main_size)]
    pub fn max_main_size(&self, direction: FlexDirection) -> (r: Dimension)
        ensures
            r == self.spec_max_main_size(direction),
    {
        self.max_size.main(direction)
    }

    pub open spec fn spec_main_margin_start(&self, direction: FlexDirection) -> Dimension {
        self.margin.main_start(direction)
    }

    /// The margin where the main axis begins.
    #[verifier::when_used_as_spec(spec_main_margin_start)]
    pub fn main_margin_start(&self, direction: FlexDirection) -> (r: Dimension)
        ensures
            r == self.spec_main_margin_start(direction),
    {
        self.margin.main_start(direction)
    }

    pub open spec fn spec_main_margin_end(&self, direction: FlexDirection) -> Dimension {
        self.margin.main_end(direction)
    }

    /// The margin where the main axis ends.
    #[verifier::when_used_as_spec(spec_main_margin_end)]
    pub fn main_margin_end(&self, direction: FlexDirection) -> (r: Dimension)
        ensures
            r == self.spec_main_margin_end(direction),
    {
        self.margin.main_end(direction)
    }

    pub open spec fn spec_cross_size(&self, direction: FlexDirection) -> Dimension {
        self.size.cross(direction)
    }

    /// The size along the cross axis.
    #[verifier::when_used_as_spec(spec_cross_size)]
    pub fn cross_size(&self, direction: FlexDirection) -> (r: Dimension)
        ensures
            r == self.spec_cross_size(direction),
    {
        self.size.cross(direction)
    }

    pub open spec fn spec_min_cross_size(&self, direction: FlexDirection) -> Dimension {
        self.min_size.cross(direction)
    }

    /// The least size along the cross axis.
    #[verifier::when_used_as_spec(spec_min_cross_size)]
    pub fn min_cross_size(&self, direction: FlexDirection) -> (r: Dimension)
        ensures
            r == self.spec_min_cross_size(direction),
    {
        self.min_size.cross(direction)
    }

    pub open spec fn spec_max_cross_size(&self, direction: FlexDirection) -> Dimension {
        self.max_size.cross(direction)
    }

    /// The greatest size along the cross axis.
    #[verifier::when_used_as_spec(spec_max_cross_size)]
    pub fn max_cross_size(&self, direction: FlexDirection) -> (r: Dimension)
        ensures
            r == self.spec_max_cross_size(direction),
    {
        self.max_size.cross(direction)
    }

    pub open spec fn spec_cross_margin_start(&self, direction: FlexDirection) -> Dimension {
        self.margin.cross_start(direction)
    }

    /// The margin where the cross axis begins.
    #[verifier::when_used_as_spec(spec_cross_margin_start)]
    pub fn cross_margin_start(&self, direction: FlexDirection) -> (r: Dimension)
        ensures
            r == self.spec_cross_margin_start(direction),
    {
        self.margin.cross_start(direction)
    }

    pub open spec fn spec_cross_margin_end(&self, direction: FlexDirection) -> Dimension {
        self.margin.cross_end(direction)
    }

    /// The margin where the cross axis ends.
    #[verifier::when_used_as_spec(spec_cross_margin_end)]
    pub fn cross_margin_end(&self, direction: FlexDirection) -> (r: Dimension)
        ensures
            r == self.spec_cross_margin_end(direction),
    {
        self.margin.cross_end(direction)
    }

    pub open spec fn spec_align_self(&self, parent: &Style) -> AlignSelf {
        if self.align_self == AlignSelf::Auto {
            parent.align_items.inherited()
        } else {
            self.align_self
        }
    }

    /// The item's own alignment, or the container's where the item says `Auto`.
    #[verifier::when_used_as_spec(spec_align_self)]
    pub fn align_self(&self, parent: &Style) -> (r: AlignSelf)
        ensures
            r == self.spec_align_self(parent),
    {
        match self.align_self {
            AlignSelf::Auto => parent.align_items.inherited(),
            other => other,
        }
    }

    pub open spec fn spec_has_min_max(&self) -> bool {
        self.min_size.width.is_defined() || self.min_size.height.is_defined()
            || self.max_size.width.is_defined() || self.max_size.height.is_defined()
    }

    /// Whether any least or greatest size is stated.
    #[verifier::when_used_as_spec(spec_has_min_max)]
    pub fn has_min_max(&self) -> (r: bool)
        ensures
            r == self.spec_has_min_max(),
    {
        self.min_size.width.is_defined() || self.min_size.height.is_defined()
            || self.max_size.width.is_defined() || self.max_size.height.is_defined()
    }
}

/// The properties of a style that are chosen from a list, each by the
/// position of the choice in its list.
#[derive(Clone, Copy, Debug, PartialEq, Eq, Structural)]
pub struct StyleIndices {
    pub display: i32,
    pub position_type: i32,
    pub direction: i32,
    pub flex_direction: i32,
    pub flex_wrap: i32,
    pub overflow: i32,
    pub align_items: i32,
    pub align_self: i32,
    pub align_content: i32,
    pub justify_content: i32,
}

impl StyleIndices {
    /// Whether every index names a choice.
    pub open spec fn valid(self) -> bool {
        &&& 0 <= self.display < 2
        &&& 0 <= self.position_type < 2
        &&& 0 <= self.direction < 3
        &&& 0 <= self.flex_direction < 4
        &&& 0 <= self.flex_wrap < 3
        &&& 0 <= self.overflow < 3
        &&& 0 <= self.align_items < 5
        &&& 0 <= self.align_self < 6
        &&& 0 <= self.align_content < 6
        &&& 0 <= self.justify_content < 6
    }

    /// The first index, in the order of the fields, that names no choice.
    pub open spec fn first_invalid(self) -> i32 {
        if !(0 <= self.display < 2) {
            self.display
        } else         if !(0 <= self.position_type < 2) {
            self.position_type
        } else         if !(0 <= self.direction < 3) {
            self.direction
        } else         if !(0 <= self.flex_direction < 4) {
            self.flex_direction
        } else         if !(0 <= self.flex_wrap < 3) {
            self.flex_wrap
        } else         if !(0 <= self.overflow < 3) {
            self.overflow
        } else         if !(0 <= self.align_items < 5) {
            self.align_items
        } else         if !(0 <= self.align_self < 6) {
            self.align_self
        } else         if !(0 <= self.align_content < 6) {
            self.align_content
        } else {
            self.justify_content
        }
    }
}

impl Style {
    /// Whether the listed properties are the choices that `indices` names.
    pub open spec fn chosen_by(self, indices: StyleIndices) -> bool {
        &&& self.display.index() == indices.display
        &&& self.position_type.index() == indices.position_type
        &&& self.direction.index() == indices.direction
        &&& self.flex_direction.index() == indices.flex_direction
        &&& self.flex_wrap.index() == indices.flex_wrap
        &&& self.overflow.index() == indices.overflow
        &&& self.align_items.index() == indices.align_items
        &&& self.align_self.index() == indices.align_self
        &&& self.align_content.index() == indices.align_content
        &&& self.justify_content.index() == indices.justify_content
    }

    /// Whether the properties that are not chosen from a list are those of
    /// `other`.
    pub open spec fn same_measures(self, other: Style) -> bool {
        &&& self.position == other.position
        &&& self.margin == other.margin
        &&& self.padding == other.padding
        &&& self.border == other.border
        &&& self.flex_grow == other.flex_grow
        &&& self.flex_shrink == other.flex_shrink
        &&& self.flex_basis == other.flex_basis
        &&& self.size == other.size
        &&& self.min_size == other.min_size
        &&& self.max_size == other.max_size
        &&& self.aspect_ratio == other.aspect_ratio
    }

    /// The style `rest` with every listed property replaced by the choice that
    /// `indices` names. The first index that names no choice is refused.
    pub fn with_indices(rest: Style, indices: StyleIndices) -> (r: Result<Style, InvalidIndex>)
        ensures
            r is Ok <==> indices.valid(),
            r matches Ok(style) ==> style.chosen_by(indices) && style.same_measures(rest),
            r matches Err(e) ==> e.index == indices.first_invalid(),
    {
        let display = match Display::from_index(indices.display) {
            Ok(v) => v,
            Err(e) => {
                return Err(e);
            },
        };
        let position_type = match PositionType::from_index(indices.position_type) {
            Ok(v) => v,
            Err(e) => {
                return Err(e);
            },
        };
        let direction = match Direction::from_index(indices.direction) {
            Ok(v) => v,
            Err(e) => {
                return Err(e);
            },
        };
        let flex_direction = match FlexDirection::from_index(indices.flex_direction) {
            Ok(v) => v,
            Err(e) => {
                return Err(e);
            },
        };
        let flex_wrap = match FlexWrap::from_index(indices.flex_wrap) {
            Ok(v) => v,
            Err(e) => {
                return Err(e);
            },
        };
        let overflow = match Overflow::from_index(indices.overflow) {
            Ok(v) => v,
            Err(e) => {
                return Err(e);
            },
        };
        let align_items = match AlignItems::from_index(indices.align_items) {
            Ok(v) => v,
            Err(e) => {
                return Err(e);
            },
        };
        let align_self = match AlignSelf::from_index(indices.align_self) {
            Ok(v) => v,
            Err(e) => {
                return Err(e);
            },
        };
        let align_content = match AlignContent::from_index(indices.align_content) {
            Ok(v) => v,
            Err(e) => {
                return Err(e);
            },
        };
        let justify_content = match JustifyContent::from_index(indices.justify_content) {
            Ok(v) => v,
            Err(e) => {
                return Err(e);
            },
        };
        Ok(
            Style {
                display,
                position_type,
                direction,
                flex_direction,
                flex_wrap,
                overflow,
                align_items,
                align_self,
                align_content,
                justify_content,
                ..rest
            },
        )
    }
}

/// Whether a style gives a root a definite size on both axes in the space
/// `available`, and that size lies within the least and greatest sizes of
/// the style.
pub open spec fn root_size_is_definite(style: Style, available: Size<Number>) -> bool {
    let size = style.size.resolve(available);
    &&& size.width matches Number::Defined(width) && width.maybe_max_spec(
        style.min_size.width.resolve(available.width),
    ).maybe_min_spec(style.max_size.width.resolve(available.width)) == width
    &&& size.height matches Number::Defined(height) && height.maybe_max_spec(
        style.min_size.height.resolve(available.height),
    ).maybe_min_spec(style.max_size.height.resolve(available.height)) == height
}

} // verus!
