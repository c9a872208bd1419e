//! Why the rounds of flexing come to an end: every round freezes an item.

use crate::flex::{
    spec_clamp_apply, spec_distribute_apply, spec_freeze_apply, spec_gather_step, spec_step_apply,
    step_apply, Container, FlexItem, FlexLine, Gather, Pass,
};
use crate::forest::MeasureFunc;
use crate::model::{
    apply_pass, child_info, count_unfrozen, gather, round_shares, run_pass, LayoutState, Tree,
};
use crate::scalar::Scalar;
use vstd::prelude::*;

verus! {

/// A pass that asks for no measurement changes each item from `lo` up to
/// `hi` as the pass says, and no other.
pub proof fn lemma_apply_pass_each<M: MeasureFunc>(
    t: Tree<M>,
    items: Seq<FlexItem>,
    pass: Pass,
    cx: Container,
    lo: int,
    hi: int,
)
    requires
        0 <= lo <= hi <= items.len(),
        hi <= usize::MAX,
    ensures
        apply_pass(t, items, pass, cx, lo, hi).len() == items.len(),
        forall|j: int|
            lo <= j < hi ==> #[trigger] apply_pass(t, items, pass, cx, lo, hi)[j] == step_apply(
                pass,
                items[j],
                child_info(t, items[j].node),
                cx,
                j as usize,
                None,
                Scalar::zero(),
            ),
        forall|j: int|
            0 <= j < items.len() && !(lo <= j < hi) ==> #[trigger] apply_pass(t, items, pass, cx, lo, hi)[j]
                == items[j],
    decreases hi - lo,
{
    if lo < hi {
        let next = items.update(
            lo,
            step_apply(pass, items[lo], child_info(t, items[lo].node), cx, lo as usize, None, Scalar::zero()),
        );
        lemma_apply_pass_each(t, next, pass, cx, lo + 1, hi);
        assert forall|j: int| lo <= j < hi implies #[trigger] apply_pass(t, items, pass, cx, lo, hi)[j]
            == step_apply(
            pass,
            items[j],
            child_info(t, items[j].node),
            cx,
            j as usize,
            None,
            Scalar::zero(),
        ) by {
            if j > lo {
                assert(next[j] == items[j]);
            }
        }
    }
}

/// A pass that measures leaves every item as frozen as it was, where the
/// pass is the clamping of targets.
pub proof fn lemma_clamp_keeps_frozen<M: MeasureFunc>(
    t: Tree<M>,
    st: LayoutState,
    items: Seq<FlexItem>,
    cx: Container,
    lo: int,
    hi: int,
)
    requires
        0 <= lo <= hi <= items.len(),
    ensures
        run_pass(t, st, items, Pass::Clamp, cx, lo, hi) matches Some((_, after)) ==> after.len()
            == items.len() && forall|j: int|
            0 <= j < items.len() ==> (#[trigger] after[j]).frozen == items[j].frozen,
    decreases hi - lo,
{
    reveal(spec_step_apply);
    reveal(spec_clamp_apply);
    if lo < hi {
        if run_pass(t, st, items, Pass::Clamp, cx, lo, hi) is Some {
            let found = run_pass(t, st, items, Pass::Clamp, cx, lo, hi)->0;
            let after = found.1;
            let item = items[lo];
            let info = child_info(t, item.node);
            match crate::flex::step_request(Pass::Clamp, item, info, cx) {
                None => {
                    let next = items.update(
                        lo,
                        step_apply(Pass::Clamp, item, info, cx, lo as usize, None, Scalar::zero()),
                    );
                    lemma_clamp_keeps_frozen(t, st, next, cx, lo + 1, hi);
                    assert forall|j: int| 0 <= j < items.len() implies (#[trigger] after[j]).frozen
                        == items[j].frozen by {
                        assert(next[j].frozen == items[j].frozen);
                    }
                },
                Some(call) => {
                    let (st1, size) = crate::model::visit_child(t, st, cx.node, item.node, call)->0;
                    let next = items.update(
                        lo,
                        step_apply(
                            Pass::Clamp,
                            item,
                            info,
                            cx,
                            lo as usize,
                            Some(size),
                            crate::model::calc_baseline(t, st1, item.node, size),
                        ),
                    );
                    lemma_clamp_keeps_frozen(t, st1, next, cx, lo + 1, hi);
                    assert forall|j: int| 0 <= j < items.len() implies (#[trigger] after[j]).frozen
                        == items[j].frozen by {
                        assert(next[j].frozen == items[j].frozen);
                    }
                },
            }
        }
    }
}

/// Where every item from `lo` up to `hi` that was frozen in `a` is frozen in
/// `b`, no more are unfrozen in `b` than in `a`; and fewer, where one item
/// has become frozen.
pub proof fn lemma_fewer_unfrozen(a: Seq<FlexItem>, b: Seq<FlexItem>, lo: int, hi: int)
    requires
        0 <= lo <= hi <= a.len(),
        a.len() == b.len(),
        forall|j: int| lo <= j < hi && (#[trigger] a[j]).frozen ==> b[j].frozen,
    ensures
        count_unfrozen(b, lo, hi) <= count_unfrozen(a, lo, hi),
        (exists|j: int| lo <= j < hi && !(#[trigger] a[j]).frozen && b[j].frozen) ==> count_unfrozen(
            b,
            lo,
            hi,
        ) < count_unfrozen(a, lo, hi),
    decreases hi - lo,
{
    if lo < hi {
        lemma_fewer_unfrozen(a, b, lo + 1, hi);
        if exists|j: int| lo <= j < hi && !(#[trigger] a[j]).frozen && b[j].frozen {
            let j = choose|j: int| lo <= j < hi && !(#[trigger] a[j]).frozen && b[j].frozen;
            if j > lo {
                assert(lo + 1 <= j < hi && !a[j].frozen && b[j].frozen);
            }
        }
    }
}

/// Items that are as frozen as before leave as many unfrozen.
pub proof fn lemma_same_unfrozen(a: Seq<FlexItem>, b: Seq<FlexItem>, lo: int, hi: int)
    requires
        0 <= lo <= hi <= a.len(),
        a.len() == b.len(),
        forall|j: int| lo <= j < hi ==> (#[trigger] a[j]).frozen == b[j].frozen,
    ensures
        count_unfrozen(b, lo, hi) == count_unfrozen(a, lo, hi),
    decreases hi - lo,
{
    if lo < hi {
        lemma_same_unfrozen(a, b, lo + 1, hi);
    }
}

/// Where all items from `lo` up to `hi` are frozen, none is unfrozen.
pub proof fn lemma_none_unfrozen(a: Seq<FlexItem>, lo: int, hi: int)
    requires
        0 <= lo <= hi <= a.len(),
        forall|j: int| lo <= j < hi ==> (#[trigger] a[j]).frozen,
    ensures
        count_unfrozen(a, lo, hi) == 0,
    decreases hi - lo,
{
    if lo < hi {
        lemma_none_unfrozen(a, lo + 1, hi);
    }
}

/// A positive total violation comes with an unfrozen item of positive
/// violation.
pub proof fn lemma_positive_violation<M: MeasureFunc>(
    t: Tree<M>,
    items: Seq<FlexItem>,
    lo: int,
    hi: int,
    cx: Container,
    acc: Scalar,
) -> (j: int)
    requires
        0 <= lo <= hi <= items.len(),
        acc.raw <= 0,
        gather(t, items, lo, hi, Gather::Violation, cx, acc).raw > 0,
    ensures
        lo <= j < hi,
        !items[j].frozen,
        items[j].violation.raw > 0,
    decreases hi - lo,
{
    reveal(spec_gather_step);
    if !items[lo].frozen && items[lo].violation.raw > 0 {
        lo
    } else {
        let next = crate::flex::gather_step(
            Gather::Violation,
            acc,
            items[lo],
            child_info(t, items[lo].node),
            cx,
        );
        lemma_positive_violation(t, items, lo + 1, hi, cx, next)
    }
}

/// A negative total violation comes with an unfrozen item of negative
/// violation.
pub proof fn lemma_negative_violation<M: MeasureFunc>(
    t: Tree<M>,
    items: Seq<FlexItem>,
    lo: int,
    hi: int,
    cx: Container,
    acc: Scalar,
) -> (j: int)
    requires
        0 <= lo <= hi <= items.len(),
        acc.raw >= 0,
        gather(t, items, lo, hi, Gather::Violation, cx, acc).raw < 0,
    ensures
        lo <= j < hi,
        !items[j].frozen,
        items[j].violation.raw < 0,
    decreases hi - lo,
{
    reveal(spec_gather_step);
    if !items[lo].frozen && items[lo].violation.raw < 0 {
        lo
    } else {
        let next = crate::flex::gather_step(
            Gather::Violation,
            acc,
            items[lo],
            child_info(t, items[lo].node),
            cx,
        );
        lemma_negative_violation(t, items, lo + 1, hi, cx, next)
    }
}

/// Freezing by the total violation leaves fewer items unfrozen, where any
/// was.
pub proof fn lemma_freeze_makes_progress<M: MeasureFunc>(
    t: Tree<M>,
    items: Seq<FlexItem>,
    cx: Container,
    lo: int,
    hi: int,
)
    requires
        0 <= lo <= hi <= items.len(),
        hi <= usize::MAX,
        count_unfrozen(items, lo, hi) > 0,
    ensures
        count_unfrozen(
            apply_pass(
                t,
                items,
                Pass::Freeze {
                    total_violation: gather(t, items, lo, hi, Gather::Violation, cx, Scalar::zero()),
                },
                cx,
                lo,
                hi,
            ),
            lo,
            hi,
        ) < count_unfrozen(items, lo, hi),
{
    reveal(spec_step_apply);
    reveal(spec_freeze_apply);
    let total = gather(t, items, lo, hi, Gather::Violation, cx, Scalar::zero());
    let pass = Pass::Freeze { total_violation: total };
    let after = apply_pass(t, items, pass, cx, lo, hi);
    lemma_apply_pass_each(t, items, pass, cx, lo, hi);
    assert forall|j: int| lo <= j < hi && (#[trigger] items[j]).frozen implies after[j].frozen by {}
    if total.raw > 0 {
        let j = lemma_positive_violation(t, items, lo, hi, cx, Scalar::zero());
        assert(!items[j].frozen && after[j].frozen);
        lemma_fewer_unfrozen(items, after, lo, hi);
    } else if total.raw < 0 {
        let j = lemma_negative_violation(t, items, lo, hi, cx, Scalar::zero());
        assert(!items[j].frozen && after[j].frozen);
        lemma_fewer_unfrozen(items, after, lo, hi);
    } else {
        assert forall|j: int| lo <= j < hi implies (#[trigger] after[j]).frozen by {}
        lemma_none_unfrozen(after, lo, hi);
    }
}

/// Every round of flexing freezes an item: after free space was distributed
/// over a line with unfrozen items and their targets were clamped, freezing
/// by the total violation leaves fewer items unfrozen than the round began
/// with.
pub proof fn lemma_round_makes_progress<M: MeasureFunc>(
    t: Tree<M>,
    st: LayoutState,
    items: Seq<FlexItem>,
    line: FlexLine,
    cx: Container,
    growing: bool,
    initial_free_space: Scalar,
)
    requires
        line.start <= line.end <= items.len(),
        count_unfrozen(items, line.start as int, line.end as int) > 0,
    ensures
        ({
            let lo = line.start as int;
            let hi = line.end as int;
            let share = round_shares(t, items, line, cx, growing, initial_free_space);
            let shared = apply_pass(t, items, Pass::Distribute { share }, cx, lo, hi);
            run_pass(t, st, shared, Pass::Clamp, cx, lo, hi) matches Some((_, clamped)) ==> count_unfrozen(
                apply_pass(
                    t,
                    clamped,
                    Pass::Freeze {
                        total_violation: gather(t, clamped, lo, hi, Gather::Violation, cx, Scalar::zero()),
                    },
                    cx,
                    lo,
                    hi,
                ),
                lo,
                hi,
            ) < count_unfrozen(items, lo, hi)
        }),
{
    let lo = line.start as int;
    let hi = line.end as int;
    let share = round_shares(t, items, line, cx, growing, initial_free_space);
    let shared = apply_pass(t, items, Pass::Distribute { share }, cx, lo, hi);
    lemma_apply_pass_each(t, items, Pass::Distribute { share }, cx, lo, hi);
    assert forall|j: int| lo <= j < hi implies (#[trigger] items[j]).frozen == shared[j].frozen by {
        reveal(spec_step_apply);
        reveal(spec_distribute_apply);
    }
    lemma_same_unfrozen(items, shared, lo, hi);
    if run_pass(t, st, shared, Pass::Clamp, cx, lo, hi) is Some {
        let found = run_pass(t, st, shared, Pass::Clamp, cx, lo, hi)->0;
        let clamped = found.1;
        lemma_clamp_keeps_frozen(t, st, shared, cx, lo, hi);
        lemma_same_unfrozen(shared, clamped, lo, hi);
        lemma_freeze_makes_progress(t, clamped, cx, lo, hi);
    }
}

} // verus!
