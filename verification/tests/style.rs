use stretch::geometry::{Rect, Size};
use stretch::number::Number;
use stretch::scalar::Scalar;
use stretch::style::{
    AlignContent, AlignItems, AlignSelf, Dimension, Direction, Display, FlexDirection, FlexWrap,
    InvalidIndex, JustifyContent, Overflow, PositionType, Style, StyleIndices,
};

fn s(v: f64) -> Scalar {
    Scalar::from_raw((v * 1_000_000.0).round() as i64)
}

#[test]
fn enums_are_found_by_index() {
    assert_eq!(AlignItems::from_index(0), Ok(AlignItems::FlexStart));
    assert_eq!(AlignItems::from_index(1), Ok(AlignItems::FlexEnd));
    assert_eq!(AlignItems::from_index(2), Ok(AlignItems::Center));
    assert_eq!(AlignItems::from_index(3), Ok(AlignItems::Baseline));
    assert_eq!(AlignItems::from_index(4), Ok(AlignItems::Stretch));
    assert_eq!(AlignSelf::from_index(0), Ok(AlignSelf::Auto));
    assert_eq!(AlignSelf::from_index(1), Ok(AlignSelf::FlexStart));
    assert_eq!(AlignSelf::from_index(2), Ok(AlignSelf::FlexEnd));
    assert_eq!(AlignSelf::from_index(3), Ok(AlignSelf::Center));
    assert_eq!(AlignSelf::from_index(4), Ok(AlignSelf::Baseline));
    assert_eq!(AlignSelf::from_index(5), Ok(AlignSelf::Stretch));
    assert_eq!(AlignContent::from_index(0), Ok(AlignContent::FlexStart));
    assert_eq!(AlignContent::from_index(1), Ok(AlignContent::FlexEnd));
    assert_eq!(AlignContent::from_index(2), Ok(AlignContent::Center));
    assert_eq!(AlignContent::from_index(3), Ok(AlignContent::Stretch));
    assert_eq!(AlignContent::from_index(4), Ok(AlignContent::SpaceBetween));
    assert_eq!(AlignContent::from_index(5), Ok(AlignContent::SpaceAround));
    assert_eq!(Direction::from_index(0), Ok(Direction::Inherit));
    assert_eq!(Direction::from_index(1), Ok(Direction::LTR));
    assert_eq!(Direction::from_index(2), Ok(Direction::RTL));
    assert_eq!(Display::from_index(0), Ok(Display::Flex));
    assert_eq!(Display::from_index(1), Ok(Display::Hidden));
    assert_eq!(FlexDirection::from_index(0), Ok(FlexDirection::Row));
    assert_eq!(FlexDirection::from_index(1), Ok(FlexDirection::Column));
    assert_eq!(FlexDirection::from_index(2), Ok(FlexDirection::RowReverse));
    assert_eq!(FlexDirection::from_index(3), Ok(FlexDirection::ColumnReverse));
    assert_eq!(JustifyContent::from_index(0), Ok(JustifyContent::FlexStart));
    assert_eq!(JustifyContent::from_index(1), Ok(JustifyContent::FlexEnd));
    assert_eq!(JustifyContent::from_index(2), Ok(JustifyContent::Center));
    assert_eq!(JustifyContent::from_index(3), Ok(JustifyContent::SpaceBetween));
    assert_eq!(JustifyContent::from_index(4), Ok(JustifyContent::SpaceAround));
    assert_eq!(JustifyContent::from_index(5), Ok(JustifyContent::SpaceEvenly));
    assert_eq!(Overflow::from_index(0), Ok(Overflow::Visible));
    assert_eq!(Overflow::from_index(1), Ok(Overflow::Hidden));
    assert_eq!(Overflow::from_index(2), Ok(Overflow::Scroll));
    assert_eq!(PositionType::from_index(0), Ok(PositionType::Relative));
    assert_eq!(PositionType::from_index(1), Ok(PositionType::Absolute));
    assert_eq!(FlexWrap::from_index(0), Ok(FlexWrap::NoWrap));
    assert_eq!(FlexWrap::from_index(1), Ok(FlexWrap::Wrap));
    assert_eq!(FlexWrap::from_index(2), Ok(FlexWrap::WrapReverse));
}

#[test]
fn indices_out_of_range_are_refused() {
    assert_eq!(AlignItems::from_index(5), Err(InvalidIndex { index: 5 }));
    assert_eq!(AlignItems::from_index(-1), Err(InvalidIndex { index: -1 }));
    assert_eq!(AlignSelf::from_index(6), Err(InvalidIndex { index: 6 }));
    assert_eq!(AlignContent::from_index(6), Err(InvalidIndex { index: 6 }));
    assert_eq!(Direction::from_index(3), Err(InvalidIndex { index: 3 }));
    assert_eq!(Display::from_index(2), Err(InvalidIndex { index: 2 }));
    assert_eq!(FlexDirection::from_index(4), Err(InvalidIndex { index: 4 }));
    assert_eq!(JustifyContent::from_index(6), Err(InvalidIndex { index: 6 }));
    assert_eq!(Overflow::from_index(3), Err(InvalidIndex { index: 3 }));
    assert_eq!(PositionType::from_index(2), Err(InvalidIndex { index: 2 }));
    assert_eq!(FlexWrap::from_index(i32::MIN), Err(InvalidIndex { index: i32::MIN }));
}

#[test]
fn dimensions_are_built_from_kind_and_value() {
    assert_eq!(Dimension::from_kind(0, s(3.0)), Ok(Dimension::Points(s(3.0))));
    assert_eq!(Dimension::from_kind(1, s(0.5)), Ok(Dimension::Percent(s(0.5))));
    assert_eq!(Dimension::from_kind(2, s(3.0)), Ok(Dimension::Auto));
    assert_eq!(Dimension::from_kind(3, s(3.0)), Ok(Dimension::Undefined));
    assert_eq!(Dimension::from_kind(4, s(3.0)), Err(InvalidIndex { index: 4 }));
    assert_eq!(Dimension::from_kind(-2, s(3.0)), Err(InvalidIndex { index: -2 }));
}

#[test]
fn dimensions_resolve_against_the_parent() {
    let parent = Number::Defined(s(200.0));
    assert_eq!(Dimension::Points(s(30.0)).resolve(parent), Number::Defined(s(30.0)));
    assert_eq!(Dimension::Points(s(30.0)).resolve(Number::Undefined), Number::Defined(s(30.0)));
    assert_eq!(Dimension::Percent(s(0.5)).resolve(parent), Number::Defined(s(100.0)));
    assert_eq!(Dimension::Percent(s(0.5)).resolve(Number::Undefined), Number::Undefined);
    assert_eq!(Dimension::Auto.resolve(parent), Number::Undefined);
    assert_eq!(Dimension::Undefined.resolve(parent), Number::Undefined);
    assert!(Dimension::Points(s(1.0)).is_defined());
    assert!(Dimension::Percent(s(1.0)).is_defined());
    assert!(!Dimension::Auto.is_defined());
    assert!(!Dimension::Undefined.is_defined());
    assert!(Dimension::Auto.is_auto());
    assert!(!Dimension::Undefined.is_auto());
    assert_eq!(Dimension::default(), Dimension::Undefined);
}

#[test]
fn rects_and_sizes_resolve_edge_by_edge() {
    let rect = Rect {
        start: Dimension::Points(s(1.0)),
        end: Dimension::Percent(s(0.1)),
        top: Dimension::Auto,
        bottom: Dimension::Undefined,
    };
    let parent = Number::Defined(s(50.0));
    assert_eq!(
        rect.resolve(parent),
        Rect {
            start: Number::Defined(s(1.0)),
            end: Number::Defined(s(5.0)),
            top: Number::Undefined,
            bottom: Number::Undefined,
        }
    );
    assert_eq!(
        rect.resolve_or_zero(parent),
        Rect { start: s(1.0), end: s(5.0), top: s(0.0), bottom: s(0.0) }
    );
    let size = Size { width: Dimension::Percent(s(0.5)), height: Dimension::Percent(s(0.5)) };
    assert_eq!(
        size.resolve(Size { width: Number::Defined(s(10.0)), height: Number::Defined(s(30.0)) }),
        Size { width: Number::Defined(s(5.0)), height: Number::Defined(s(15.0)) }
    );
}

#[test]
fn style_starts_from_the_initial_values() {
    let style = Style::default();
    assert_eq!(style.display, Display::Flex);
    assert_eq!(style.position_type, PositionType::Relative);
    assert_eq!(style.direction, Direction::Inherit);
    assert_eq!(style.flex_direction, FlexDirection::Row);
    assert_eq!(style.flex_wrap, FlexWrap::NoWrap);
    assert_eq!(style.overflow, Overflow::Visible);
    assert_eq!(style.align_items, AlignItems::Stretch);
    assert_eq!(style.align_self, AlignSelf::Auto);
    assert_eq!(style.align_content, AlignContent::Stretch);
    assert_eq!(style.justify_content, JustifyContent::FlexStart);
    let open = Rect {
        start: Dimension::Undefined,
        end: Dimension::Undefined,
        top: Dimension::Undefined,
        bottom: Dimension::Undefined,
    };
    assert_eq!(style.position, open);
    assert_eq!(style.margin, open);
    assert_eq!(style.padding, open);
    assert_eq!(style.border, open);
    assert_eq!(style.flex_grow, s(0.0));
    assert_eq!(style.flex_shrink, s(1.0));
    assert_eq!(style.flex_basis, Dimension::Auto);
    let auto = Size { width: Dimension::Auto, height: Dimension::Auto };
    assert_eq!(style.size, auto);
    assert_eq!(style.min_size, auto);
    assert_eq!(style.max_size, auto);
    assert_eq!(style.aspect_ratio, Number::Undefined);
    assert_eq!(Rect::<Dimension>::default(), open);
    assert_eq!(Size::<Dimension>::default(), auto);
    assert_eq!(AlignItems::default(), AlignItems::Stretch);
    assert_eq!(AlignSelf::default(), AlignSelf::Auto);
    assert_eq!(AlignContent::default(), AlignContent::Stretch);
    assert_eq!(Direction::default(), Direction::Inherit);
    assert_eq!(Display::default(), Display::Flex);
    assert_eq!(FlexDirection::default(), FlexDirection::Row);
    assert_eq!(JustifyContent::default(), JustifyContent::FlexStart);
    assert_eq!(Overflow::default(), Overflow::Visible);
    assert_eq!(PositionType::default(), PositionType::Relative);
    assert_eq!(FlexWrap::default(), FlexWrap::NoWrap);
}

#[test]
fn style_projects_on_the_axes() {
    let style = Style {
        size: Size { width: Dimension::Points(s(1.0)), height: Dimension::Points(s(2.0)) },
        min_size: Size { width: Dimension::Points(s(3.0)), height: Dimension::Points(s(4.0)) },
        max_size: Size { width: Dimension::Points(s(5.0)), height: Dimension::Points(s(6.0)) },
        margin: Rect {
            start: Dimension::Points(s(7.0)),
            end: Dimension::Points(s(8.0)),
            top: Dimension::Points(s(9.0)),
            bottom: Dimension::Auto,
        },
        ..Default::default()
    };
    let row = FlexDirection::Row;
    let column = FlexDirection::Column;
    assert_eq!(style.min_main_size(row), Dimension::Points(s(3.0)));
    assert_eq!(style.min_main_size(column), Dimension::Points(s(4.0)));
    assert_eq!(style.max_main_size(row), Dimension::Points(s(5.0)));
    assert_eq!(style.max_main_size(column), Dimension::Points(s(6.0)));
    assert_eq!(style.cross_size(row), Dimension::Points(s(2.0)));
    assert_eq!(style.cross_size(column), Dimension::Points(s(1.0)));
    assert_eq!(style.min_cross_size(row), Dimension::Points(s(4.0)));
    assert_eq!(style.max_cross_size(column), Dimension::Points(s(5.0)));
    assert_eq!(style.main_margin_start(row), Dimension::Points(s(7.0)));
    assert_eq!(style.main_margin_end(row), Dimension::Points(s(8.0)));
    assert_eq!(style.main_margin_start(column), Dimension::Points(s(9.0)));
    assert_eq!(style.main_margin_end(column), Dimension::Auto);
    assert_eq!(style.cross_margin_start(row), Dimension::Points(s(9.0)));
    assert_eq!(style.cross_margin_end(row), Dimension::Auto);
    assert_eq!(style.cross_margin_start(column), Dimension::Points(s(7.0)));
    assert_eq!(style.cross_margin_end(column), Dimension::Points(s(8.0)));
    assert!(style.has_min_max());
    assert!(!Style::default().has_min_max());
}

#[test]
fn align_self_falls_back_to_the_container() {
    let parent = Style { align_items: AlignItems::Center, ..Default::default() };
    assert_eq!(Style::default().align_self(&parent), AlignSelf::Center);
    let own = Style { align_self: AlignSelf::FlexEnd, ..Default::default() };
    assert_eq!(own.align_self(&parent), AlignSelf::FlexEnd);
    assert_eq!(AlignItems::FlexStart.inherited(), AlignSelf::FlexStart);
    assert_eq!(AlignItems::FlexEnd.inherited(), AlignSelf::FlexEnd);
    assert_eq!(AlignItems::Baseline.inherited(), AlignSelf::Baseline);
    assert_eq!(AlignItems::Stretch.inherited(), AlignSelf::Stretch);
}

#[test]
fn directions_know_their_axis() {
    assert!(FlexDirection::Row.is_row() && !FlexDirection::Row.is_column());
    assert!(FlexDirection::RowReverse.is_row() && FlexDirection::RowReverse.is_reverse());
    assert!(FlexDirection::Column.is_column() && !FlexDirection::Column.is_reverse());
    assert!(FlexDirection::ColumnReverse.is_column() && FlexDirection::ColumnReverse.is_reverse());
    assert!(!FlexDirection::Row.is_reverse());
}

#[test]
fn style_takes_its_choices_from_indices() {
    let base = Style { flex_grow: s(2.0), flex_basis: Dimension::Points(s(5.0)), ..Default::default() };
    let indices = StyleIndices {
        display: 1,
        position_type: 1,
        direction: 2,
        flex_direction: 3,
        flex_wrap: 2,
        overflow: 1,
        align_items: 0,
        align_self: 5,
        align_content: 4,
        justify_content: 5,
    };
    let style = Style::with_indices(base, indices).unwrap();
    assert_eq!(style.display, Display::Hidden);
    assert_eq!(style.position_type, PositionType::Absolute);
    assert_eq!(style.direction, Direction::RTL);
    assert_eq!(style.flex_direction, FlexDirection::ColumnReverse);
    assert_eq!(style.flex_wrap, FlexWrap::WrapReverse);
    assert_eq!(style.overflow, Overflow::Hidden);
    assert_eq!(style.align_items, AlignItems::FlexStart);
    assert_eq!(style.align_self, AlignSelf::Stretch);
    assert_eq!(style.align_content, AlignContent::SpaceBetween);
    assert_eq!(style.justify_content, JustifyContent::SpaceEvenly);
    assert_eq!(style.flex_grow, s(2.0));
    assert_eq!(style.flex_basis, Dimension::Points(s(5.0)));
    assert_eq!(style.size, base.size);

    let zeros = StyleIndices {
        display: 0,
        position_type: 0,
        direction: 0,
        flex_direction: 0,
        flex_wrap: 0,
        overflow: 0,
        align_items: 4,
        align_self: 0,
        align_content: 3,
        justify_content: 0,
    };
    assert_eq!(Style::with_indices(Style::default(), zeros), Ok(Style::default()));
}

#[test]
fn style_refuses_the_first_index_out_of_range() {
    let good = StyleIndices {
        display: 0,
        position_type: 0,
        direction: 0,
        flex_direction: 0,
        flex_wrap: 0,
        overflow: 0,
        align_items: 0,
        align_self: 0,
        align_content: 0,
        justify_content: 0,
    };
    let bad = StyleIndices { flex_wrap: 7, align_self: -1, justify_content: 9, ..good };
    assert_eq!(Style::with_indices(Style::default(), bad), Err(InvalidIndex { index: 7 }));
    let bad = StyleIndices { align_self: -1, justify_content: 9, ..good };
    assert_eq!(Style::with_indices(Style::default(), bad), Err(InvalidIndex { index: -1 }));
    let bad = StyleIndices { justify_content: 6, ..good };
    assert_eq!(Style::with_indices(Style::default(), bad), Err(InvalidIndex { index: 6 }));
    let bad = StyleIndices { display: 2, ..good };
    assert_eq!(Style::with_indices(Style::default(), bad), Err(InvalidIndex { index: 2 }));
}
