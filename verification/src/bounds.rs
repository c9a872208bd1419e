//! Signs and bounds of what placement computes.
//!
//! Positions are sums of offsets that justification and alignment take from
//! free space, of margins, and of relative offsets. As long as none of these
//! is negative, no position is; an item ends before the next begins; and an
//! item that stretches fits its line.

use crate::flex::{
    advance_main, align_offset, cross_target_apply, item_location, justify_offset, line_offset, rounded,
    spec_advance_main, spec_align_offset, spec_cross_target_apply, spec_item_location,
    spec_justify_offset, spec_line_offset, spec_rounded, stretches, ChildInfo, Container, FlexItem,
};
use crate::geometry::Size;
use crate::number::{Number, OrElse};
use crate::result::Layout;
use crate::scalar::Scalar;
use crate::style::{AlignContent, AlignSelf, JustifyContent};
use vstd::prelude::*;

verus! {

/// The offset of `position` on the main axis: forward by its start, back by
/// its end, each taken as zero where it is undefined.
pub open spec fn main_shift(item: FlexItem, cx: Container) -> Scalar {
    item.position.main_start(cx.dir).or_else_spec(Scalar::zero()).sub(
        item.position.main_end(cx.dir).or_else_spec(Scalar::zero()),
    )
}

/// The offset of `position` on the cross axis.
pub open spec fn cross_shift(item: FlexItem, cx: Container) -> Scalar {
    item.position.cross_start(cx.dir).or_else_spec(Scalar::zero()).sub(
        item.position.cross_end(cx.dir).or_else_spec(Scalar::zero()),
    )
}

/// Justification puts no negative space before an item where the free space
/// is not negative.
pub proof fn lemma_justify_offset_nonnegative(
    justify: JustifyContent,
    reverse: bool,
    is_first: bool,
    free_space: Scalar,
    count: usize,
)
    requires
        free_space.raw >= 0,
    ensures
        justify_offset(justify, reverse, is_first, free_space, count).raw >= 0,
{
    reveal(spec_justify_offset);
    lemma_share_nonnegative(free_space, Scalar::from_int(2));
    lemma_share_nonnegative(free_space, Scalar::from_count(count));
    lemma_share_nonnegative(free_space.div(Scalar::from_count(count)), Scalar::from_int(2));
    if count > 0 {
        lemma_share_nonnegative(free_space, Scalar::from_count((count - 1) as usize));
    }
    if count < usize::MAX {
        lemma_share_nonnegative(free_space, Scalar::from_count((count + 1) as usize));
    }
}

/// Alignment of lines puts no negative space before a line where the free
/// space is not negative.
pub proof fn lemma_line_offset_nonnegative(
    align: AlignContent,
    wrap_reverse: bool,
    is_first: bool,
    free_space: Scalar,
    count: usize,
)
    requires
        free_space.raw >= 0,
    ensures
        line_offset(align, wrap_reverse, is_first, free_space, count).raw >= 0,
{
    reveal(spec_line_offset);
    lemma_share_nonnegative(free_space, Scalar::from_int(2));
    lemma_share_nonnegative(free_space, Scalar::from_count(count));
    lemma_share_nonnegative(free_space.div(Scalar::from_count(count)), Scalar::from_int(2));
    if count > 0 {
        lemma_share_nonnegative(free_space, Scalar::from_count((count - 1) as usize));
    }
}

/// Alignment offsets an item by nothing negative where the free space of its
/// line is not negative and its baseline is not below the line's.
pub proof fn lemma_align_offset_nonnegative(
    align: AlignSelf,
    cx: Container,
    free_space: Scalar,
    max_baseline: Scalar,
    baseline: Scalar,
)
    requires
        free_space.raw >= 0,
        baseline.raw <= max_baseline.raw,
    ensures
        align_offset(align, cx, free_space, max_baseline, baseline).raw >= 0,
{
    reveal(spec_align_offset);
    lemma_share_nonnegative(free_space, Scalar::from_int(2));
}

/// A share of something not negative, by a divisor not negative, is not
/// negative.
pub proof fn lemma_share_nonnegative(whole: Scalar, parts: Scalar)
    requires
        whole.raw >= 0,
        parts.raw >= 0,
    ensures
        whole.div(parts).raw >= 0,
{
    if parts.raw > 0 {
        let n = whole.raw * 1_000_000;
        assert(crate::scalar::UNIT == 1_000_000);
        assert(n >= 0);
        assert(n / (parts.raw as int) >= 0) by (nonlinear_arith)
            requires
                n >= 0,
                parts.raw > 0,
        ;
    }
}

/// An item lies at no negative position where the running offsets, the
/// item's own offsets, its margins at the start of each axis and its relative
/// offsets are not negative.
pub proof fn lemma_item_location_nonnegative(
    item: FlexItem,
    cx: Container,
    line_offset_cross: Scalar,
    total_main: Scalar,
    total_cross: Scalar,
)
    requires
        total_main.raw >= 0,
        total_cross.raw >= 0,
        line_offset_cross.raw >= 0,
        item.offset_main.raw >= 0,
        item.offset_cross.raw >= 0,
        item.margin.main_start(cx.dir).raw >= 0,
        item.margin.cross_start(cx.dir).raw >= 0,
        main_shift(item, cx).raw >= 0,
        cross_shift(item, cx).raw >= 0,
    ensures
        item_location(item, cx, line_offset_cross, total_main, total_cross).x.raw >= 0,
        item_location(item, cx, line_offset_cross, total_main, total_cross).y.raw >= 0,
{
    reveal(spec_item_location);
}

/// The running offset on the main axis does not fall where the item's
/// offset, margins and size are not negative.
pub proof fn lemma_advance_main_grows(
    item: FlexItem,
    cx: Container,
    total_main: Scalar,
    size: Size<Scalar>,
)
    requires
        item.offset_main.raw >= 0,
        item.margin.main_start(cx.dir).raw >= 0,
        item.margin.main_end(cx.dir).raw >= 0,
        size.main(cx.dir).raw >= 0,
    ensures
        advance_main(item, cx, total_main, size).raw >= total_main.raw,
{
    reveal(spec_advance_main);
}

/// An item that is not moved by relative offsets ends, on the main axis,
/// before the running offset at which the next item is placed, where its
/// margin at the end is not negative and all values are of moderate
/// magnitude.
pub proof fn lemma_item_ends_before_next(
    item: FlexItem,
    cx: Container,
    line_offset_cross: Scalar,
    total_main: Scalar,
    total_cross: Scalar,
    size: Size<Scalar>,
)
    requires
        main_shift(item, cx).raw == 0,
        item.margin.main_end(cx.dir).raw >= 0,
        total_main.is_moderate(),
        item.offset_main.is_moderate(),
        item.margin.main_start(cx.dir).is_moderate(),
        item.margin.main_end(cx.dir).is_moderate(),
        size.main(cx.dir).is_moderate(),
    ensures
        ({
            let at = item_location(item, cx, line_offset_cross, total_main, total_cross);
            let start = if cx.dir.is_row() {
                at.x
            } else {
                at.y
            };
            start.raw + size.main(cx.dir).raw <= advance_main(item, cx, total_main, size).raw
        }),
{
    reveal(spec_item_location);
    reveal(spec_advance_main);
}

/// Rounding moves no position below zero.
pub proof fn lemma_rounded_nonnegative(layout: Layout, abs_x: Scalar, abs_y: Scalar)
    requires
        layout.location.x.raw >= 0,
        layout.location.y.raw >= 0,
    ensures
        rounded(layout, abs_x, abs_y).location.x.raw >= 0,
        rounded(layout, abs_x, abs_y).location.y.raw >= 0,
{
    reveal(spec_rounded);
    assert(crate::scalar::UNIT == 1_000_000 && crate::scalar::HALF_UNIT == 500_000);
}

/// An item that stretches fits the cross size of its line with its margins,
/// where its least cross size does not ask for more and all values are of
/// moderate magnitude.
pub proof fn lemma_stretched_item_fits_line(
    item: FlexItem,
    info: ChildInfo,
    cx: Container,
    line_cross: Scalar,
)
    requires
        stretches(info, cx),
        line_cross.is_moderate(),
        item.margin.cross_start(cx.dir).is_moderate(),
        item.margin.cross_end(cx.dir).is_moderate(),
        item.min_size.cross(cx.dir) matches Number::Defined(least) ==> least.raw <= line_cross.raw
            - item.margin.cross(cx.dir).raw,
    ensures
        cross_target_apply(item, info, cx, line_cross).outer_target_size.cross(cx.dir).raw
            <= line_cross.raw,
{
    reveal(spec_cross_target_apply);
}

} // verus!
