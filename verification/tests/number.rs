use stretch::geometry::{Point, Rect, Size};
use stretch::number::{MinMax, Number, OrElse, ToNumber};
use stretch::scalar::Scalar;
use stretch::style::FlexDirection;

fn s(v: f64) -> Scalar {
    Scalar::from_raw((v * 1_000_000.0).round() as i64)
}

const UNDEFINED: Number = Number::Undefined;

fn d(v: f64) -> Number {
    Number::Defined(s(v))
}

#[test]
fn scalar_constants() {
    assert_eq!(Scalar::zero().raw, 0);
    assert_eq!(Scalar::one().raw, 1_000_000);
    assert_eq!(Scalar::epsilon().raw, 1);
    assert_eq!(Scalar::lowest().raw, i64::MIN);
    assert_eq!(Scalar::from_int(-3).raw, -3_000_000);
    assert_eq!(Scalar::from_count(7).raw, 7_000_000);
    assert_eq!(Scalar::from_int(i64::MAX).raw, i64::MAX);
    assert_eq!(Scalar::from_int(i64::MIN).raw, i64::MIN);
    assert_eq!(Scalar::from_count(usize::MAX).raw, i64::MAX);
}

#[test]
fn scalar_sum_and_difference_saturate() {
    assert_eq!(s(1.5).add(s(2.25)), s(3.75));
    assert_eq!(s(1.5).sub(s(2.25)), s(-0.75));
    assert_eq!(Scalar::from_raw(i64::MAX).add(s(1.0)).raw, i64::MAX);
    assert_eq!(Scalar::from_raw(i64::MIN).sub(s(1.0)).raw, i64::MIN);
    assert_eq!(Scalar::from_raw(i64::MIN).add(Scalar::from_raw(i64::MAX)).raw, -1);
}

#[test]
fn scalar_product_truncates_toward_zero() {
    assert_eq!(s(0.6).mul(s(400.0)), s(240.0));
    assert_eq!(s(-0.5).mul(s(3.0)), s(-1.5));
    assert_eq!(Scalar::from_raw(3).mul(Scalar::from_raw(500_000)).raw, 1);
    assert_eq!(Scalar::from_raw(-3).mul(Scalar::from_raw(500_000)).raw, -1);
    assert_eq!(Scalar::from_raw(i64::MAX).mul(s(2.0)).raw, i64::MAX);
    assert_eq!(Scalar::from_raw(i64::MAX).mul(s(-2.0)).raw, i64::MIN);
    assert_eq!(Scalar::from_raw(i64::MIN).mul(Scalar::from_raw(i64::MIN)).raw, i64::MAX);
}

#[test]
fn scalar_quotient_truncates_toward_zero() {
    assert_eq!(s(1.0).div(s(3.0)).raw, 333_333);
    assert_eq!(s(-1.0).div(s(3.0)).raw, -333_333);
    assert_eq!(s(1.0).div(s(-3.0)).raw, -333_333);
    assert_eq!(s(-1.0).div(s(-3.0)).raw, 333_333);
    assert_eq!(s(100.0).div(s(4.0)), s(25.0));
    assert_eq!(s(1.0).div(Scalar::from_raw(1)).raw, 1_000_000_000_000);
    assert_eq!(Scalar::from_raw(i64::MAX).div(Scalar::from_raw(1)).raw, i64::MAX);
}

#[test]
fn scalar_quotient_by_zero_is_a_bound() {
    assert_eq!(s(5.0).div(Scalar::zero()).raw, i64::MAX);
    assert_eq!(s(-5.0).div(Scalar::zero()).raw, i64::MIN);
    assert_eq!(Scalar::zero().div(Scalar::zero()).raw, 0);
}

#[test]
fn scalar_rounds_halves_away_from_zero() {
    assert_eq!(s(2.4).round(), s(2.0));
    assert_eq!(s(2.5).round(), s(3.0));
    assert_eq!(s(2.499999).round(), s(2.0));
    assert_eq!(s(-2.4).round(), s(-2.0));
    assert_eq!(s(-2.5).round(), s(-3.0));
    assert_eq!(s(0.0).round(), s(0.0));
    assert_eq!(s(7.0).round(), s(7.0));
    assert_eq!(Scalar::from_raw(i64::MAX).round().raw, i64::MAX);
    assert_eq!(Scalar::from_raw(i64::MIN).round().raw, i64::MIN);
    assert_eq!(s(2.5).round().round(), s(2.5).round());
}

#[test]
fn scalar_order_and_magnitude() {
    assert_eq!(s(1.0).min(s(2.0)), s(1.0));
    assert_eq!(s(1.0).max(s(2.0)), s(2.0));
    assert_eq!(s(-3.0).abs(), s(3.0));
    assert_eq!(s(3.0).abs(), s(3.0));
    assert_eq!(Scalar::from_raw(i64::MIN).abs().raw, i64::MAX);
    assert!(s(1.0).lt(s(2.0)));
    assert!(!s(2.0).lt(s(2.0)));
    assert!(s(3.0).gt(s(2.0)));
    assert!(!s(2.0).gt(s(2.0)));
    assert!(s(0.000001).is_normal());
    assert!(!Scalar::zero().is_normal());
}

#[test]
fn undefined_absorbs_in_arithmetic() {
    for a in [d(3.0), d(0.0), d(-1.5), UNDEFINED] {
        assert_eq!(a.add(UNDEFINED), UNDEFINED);
        assert_eq!(UNDEFINED.add(a), UNDEFINED);
        assert_eq!(a.sub(UNDEFINED), UNDEFINED);
        assert_eq!(UNDEFINED.sub(a), UNDEFINED);
        assert_eq!(a.mul(UNDEFINED), UNDEFINED);
        assert_eq!(UNDEFINED.mul(a), UNDEFINED);
        assert_eq!(a.div(UNDEFINED), UNDEFINED);
        assert_eq!(UNDEFINED.div(a), UNDEFINED);
    }
    assert_eq!(UNDEFINED.add_scalar(s(1.0)), UNDEFINED);
    assert_eq!(UNDEFINED.sub_scalar(s(1.0)), UNDEFINED);
    assert_eq!(UNDEFINED.mul_scalar(s(1.0)), UNDEFINED);
    assert_eq!(UNDEFINED.div_scalar(s(1.0)), UNDEFINED);
}

#[test]
fn defined_numbers_follow_the_scalars() {
    assert_eq!(d(1.5).add(d(2.0)), d(3.5));
    assert_eq!(d(1.5).sub(d(2.0)), d(-0.5));
    assert_eq!(d(1.5).mul(d(2.0)), d(3.0));
    assert_eq!(d(1.5).div(d(2.0)), d(0.75));
    assert_eq!(d(1.5).add_scalar(s(2.0)), d(3.5));
    assert_eq!(d(1.5).sub_scalar(s(2.0)), d(-0.5));
    assert_eq!(d(1.5).mul_scalar(s(2.0)), d(3.0));
    assert_eq!(d(1.5).div_scalar(s(2.0)), d(0.75));
}

#[test]
fn or_else_falls_back_only_when_undefined() {
    assert_eq!(d(4.0).or_else(d(9.0)), d(4.0));
    assert_eq!(UNDEFINED.or_else(d(9.0)), d(9.0));
    assert_eq!(UNDEFINED.or_else(UNDEFINED), UNDEFINED);
    assert_eq!(d(4.0).or_else(s(9.0)), s(4.0));
    assert_eq!(UNDEFINED.or_else(s(9.0)), s(9.0));
}

#[test]
fn bounds_apply_only_where_defined() {
    assert_eq!(d(4.0).maybe_min(d(3.0)), d(3.0));
    assert_eq!(d(4.0).maybe_min(d(5.0)), d(4.0));
    assert_eq!(d(4.0).maybe_max(d(5.0)), d(5.0));
    assert_eq!(d(4.0).maybe_max(d(3.0)), d(4.0));
    assert_eq!(d(4.0).maybe_min(UNDEFINED), d(4.0));
    assert_eq!(d(4.0).maybe_max(UNDEFINED), d(4.0));
    assert_eq!(UNDEFINED.maybe_min(d(3.0)), UNDEFINED);
    assert_eq!(UNDEFINED.maybe_max(d(3.0)), UNDEFINED);

    assert_eq!(d(4.0).maybe_min(s(3.0)), d(3.0));
    assert_eq!(d(4.0).maybe_max(s(5.0)), d(5.0));
    assert_eq!(UNDEFINED.maybe_min(s(3.0)), UNDEFINED);
    assert_eq!(UNDEFINED.maybe_max(s(3.0)), UNDEFINED);

    assert_eq!(s(4.0).maybe_min(d(3.0)), s(3.0));
    assert_eq!(s(4.0).maybe_max(d(5.0)), s(5.0));
    assert_eq!(s(4.0).maybe_min(UNDEFINED), s(4.0));
    assert_eq!(s(4.0).maybe_max(UNDEFINED), s(4.0));
}

#[test]
fn number_tells_whether_it_is_defined() {
    assert!(d(0.0).is_defined());
    assert!(!d(0.0).is_undefined());
    assert!(UNDEFINED.is_undefined());
    assert!(!UNDEFINED.is_defined());
    assert_eq!(Number::default(), UNDEFINED);
    assert_eq!(s(2.0).to_number(), d(2.0));
}

#[test]
fn rect_projects_on_the_axes() {
    let r = Rect { start: s(1.0), end: s(2.0), top: s(4.0), bottom: s(8.0) };
    assert_eq!(r.horizontal(), s(3.0));
    assert_eq!(r.vertical(), s(12.0));
    for row in [FlexDirection::Row, FlexDirection::RowReverse] {
        assert_eq!(r.main(row), s(3.0));
        assert_eq!(r.cross(row), s(12.0));
        assert_eq!(r.main_start(row), s(1.0));
        assert_eq!(r.main_end(row), s(2.0));
        assert_eq!(r.cross_start(row), s(4.0));
        assert_eq!(r.cross_end(row), s(8.0));
    }
    for column in [FlexDirection::Column, FlexDirection::ColumnReverse] {
        assert_eq!(r.main(column), s(12.0));
        assert_eq!(r.cross(column), s(3.0));
        assert_eq!(r.main_start(column), s(4.0));
        assert_eq!(r.main_end(column), s(8.0));
        assert_eq!(r.cross_start(column), s(1.0));
        assert_eq!(r.cross_end(column), s(2.0));
    }
    assert_eq!(
        r.map(|v| v.add(Scalar::one())),
        Rect { start: s(2.0), end: s(3.0), top: s(5.0), bottom: s(9.0) }
    );
}

#[test]
fn size_projects_on_the_axes() {
    let mut size = Size { width: 3, height: 5 };
    assert_eq!(size.main(FlexDirection::Row), 3);
    assert_eq!(size.cross(FlexDirection::Row), 5);
    assert_eq!(size.main(FlexDirection::ColumnReverse), 5);
    assert_eq!(size.cross(FlexDirection::ColumnReverse), 3);
    size.set_main(FlexDirection::RowReverse, 7);
    assert_eq!(size, Size { width: 7, height: 5 });
    size.set_main(FlexDirection::Column, 9);
    assert_eq!(size, Size { width: 7, height: 9 });
    size.set_cross(FlexDirection::Row, 11);
    assert_eq!(size, Size { width: 7, height: 11 });
    size.set_cross(FlexDirection::Column, 13);
    assert_eq!(size, Size { width: 13, height: 11 });
    assert_eq!(size.with_main(FlexDirection::Row, 1), Size { width: 1, height: 11 });
    assert_eq!(size.with_cross(FlexDirection::Row, 1), Size { width: 13, height: 1 });
    assert_eq!(size.map(|v| v * 2), Size { width: 26, height: 22 });
}

#[test]
fn zero_and_undefined_values() {
    assert_eq!(Size::<Scalar>::zero(), Size { width: Scalar::zero(), height: Scalar::zero() });
    assert_eq!(Point::<Scalar>::zero(), Point { x: Scalar::zero(), y: Scalar::zero() });
    assert_eq!(Size::undefined(), Size { width: UNDEFINED, height: UNDEFINED });
    assert_eq!(Size { width: s(1.0), height: s(2.0) }.to_number(), Size { width: d(1.0), height: d(2.0) });
}

#[test]
fn shares_are_cut_once() {
    assert_eq!(s(120.0).mul_div(s(1.0), s(3.0)), s(40.0));
    assert_eq!(s(120.0).mul_div(s(2.0), s(3.0)), s(80.0));
    assert_eq!(s(4.5).mul_div(s(1.0), s(3.0)), s(1.5));
    assert_eq!(s(120.0).mul(s(1.0).div(s(3.0))).raw, 39_999_960);
    assert_eq!(s(1.0).mul_div(s(1.0), s(3.0)).raw, 333_333);
    assert_eq!(s(-1.0).mul_div(s(1.0), s(3.0)).raw, -333_333);
    assert_eq!(s(1.0).mul_div(s(-2.0), s(-3.0)).raw, 666_666);
    assert_eq!(s(5.0).mul_div(s(2.0), Scalar::zero()).raw, i64::MAX);
    assert_eq!(s(-5.0).mul_div(s(2.0), Scalar::zero()).raw, i64::MIN);
    assert_eq!(s(0.0).mul_div(s(2.0), Scalar::zero()).raw, 0);
    assert_eq!(Scalar::from_raw(i64::MAX).mul_div(Scalar::from_raw(i64::MAX), s(1.0)).raw, i64::MAX);
    assert_eq!(
        Scalar::from_raw(i64::MAX).mul_div(Scalar::from_raw(i64::MAX), Scalar::from_raw(i64::MAX)).raw,
        i64::MAX
    );
}
