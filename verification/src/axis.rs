//! The layout solver for one axis.
//!
//! An axis (a run of columns, or of rows) is a sequence of cells, each with a
//! source-pixel extent and a growth rule. Solving the axis against a target
//! extent serves fixed and percent cells first, then splits the remaining
//! space over the stretch cells in proportion to their weights. Division
//! remainders are carried forward so that the shares of the stretch cells sum
//! to the remaining space exactly.

use vstd::arithmetic::div_mod::{
    lemma_div_by_multiple, lemma_div_is_ordered, lemma_div_pos_is_pos,
};
use vstd::prelude::*;

use crate::cell::GrowthRule;

verus! {

/// One cell's sizing data along a single axis.
#[derive(Clone, Copy, PartialEq, Eq, Structural, Debug)]
pub struct AxisSpec {
    /// The cell's extent along this axis in source-texture pixels.
    pub size: u32,
    /// The cell's growth rule along this axis.
    pub rule: GrowthRule,
}

/// The stretch weight a cell contributes on this axis; cells that are not
/// `StretchRatio` contribute none.
pub open spec fn weight_of(a: AxisSpec) -> int {
    match a.rule {
        GrowthRule::StretchRatio(w) => w as int,
        _ => 0,
    }
}

/// Sum of the stretch weights over an axis.
pub open spec fn weight_sum(s: Seq<AxisSpec>) -> int
    decreases s.len(),
{
    if s.len() == 0 {
        0
    } else {
        weight_sum(s.drop_last()) + weight_of(s.last())
    }
}

/// Sum of the source-pixel extents over an axis.
pub open spec fn size_sum(s: Seq<AxisSpec>) -> int
    decreases s.len(),
{
    if s.len() == 0 {
        0
    } else {
        size_sum(s.drop_last()) + s.last().size
    }
}

/// The space a cell claims before the stretch cells are served: its full
/// source extent for `Fixed`, its fraction of the target for `Percent`,
/// nothing for `StretchRatio`.
pub open spec fn base_size(a: AxisSpec, target: int) -> int {
    match a.rule {
        GrowthRule::Fixed => a.size as int,
        GrowthRule::Percent(p) => target * (p as int) / 100,
        GrowthRule::StretchRatio(_) => 0,
    }
}

/// Total space reserved by the fixed and percent cells of an axis.
pub open spec fn reserved_sum(s: Seq<AxisSpec>, target: int) -> int
    decreases s.len(),
{
    if s.len() == 0 {
        0
    } else {
        reserved_sum(s.drop_last(), target) + base_size(s.last(), target)
    }
}

/// The space left over for stretch cells, clamped at zero when the target is
/// smaller than the reservations (an under-sized target is not an error: the
/// fixed parts are rendered overlapping).
pub open spec fn remaining_space(s: Seq<AxisSpec>, target: int) -> int {
    if reserved_sum(s, target) <= target {
        target - reserved_sum(s, target)
    } else {
        0
    }
}

/// Stretch weight accumulated by the cells before index `i`.
pub open spec fn prefix_weight(s: Seq<AxisSpec>, i: int) -> int {
    weight_sum(s.take(i))
}

/// How much of the remaining space `rem` has been handed out once `w` of the
/// `wsum` total stretch weight is served. A stretch cell's share is the
/// difference of two such cuts, so division remainders fall to later cells
/// and the shares sum to `rem` exactly. With no stretch weight at all the
/// remaining space is simply not filled.
pub open spec fn stretch_cut(rem: int, w: int, wsum: int) -> int {
    if wsum > 0 {
        rem * w / wsum
    } else {
        0
    }
}

/// The resolved extent of cell `i` when the axis is solved against `target`.
pub open spec fn resolved_size(s: Seq<AxisSpec>, target: int, i: int) -> int {
    match s[i].rule {
        GrowthRule::StretchRatio(w) => stretch_cut(
            remaining_space(s, target),
            prefix_weight(s, i) + w as int,
            weight_sum(s),
        ) - stretch_cut(remaining_space(s, target), prefix_weight(s, i), weight_sum(s)),
        _ => base_size(s[i], target),
    }
}

/// Sum of the resolved extents of the first `i` cells.
pub open spec fn resolved_total_upto(s: Seq<AxisSpec>, target: int, i: int) -> int
    decreases i,
{
    if i <= 0 {
        0
    } else {
        resolved_total_upto(s, target, i - 1) + resolved_size(s, target, i - 1)
    }
}

/// Sum of the resolved extents of the whole axis.
pub open spec fn resolved_total(s: Seq<AxisSpec>, target: int) -> int {
    resolved_total_upto(s, target, s.len() as int)
}

/// Every percent fraction lies in `0 ..= 100`.
pub open spec fn percents_bounded(s: Seq<AxisSpec>) -> bool {
    forall|i: int|
        0 <= i < s.len() ==> match (#[trigger] s[i]).rule {
            GrowthRule::Percent(p) => p <= 100,
            _ => true,
        }
}

/// Machine bounds under which the axis solver is exact: the cell count,
/// total stretch weight and total source extent each fit in `u32`, and
/// percent fractions are within `0 ..= 100`.
pub open spec fn axis_wf(s: Seq<AxisSpec>) -> bool {
    &&& s.len() <= u32::MAX
    &&& weight_sum(s) <= u32::MAX
    &&& size_sum(s) <= u32::MAX
    &&& percents_bounded(s)
}

pub proof fn lemma_weight_sum_nonneg(s: Seq<AxisSpec>)
    ensures
        weight_sum(s) >= 0,
    decreases s.len(),
{
    if s.len() > 0 {
        lemma_weight_sum_nonneg(s.drop_last());
    }
}

pub proof fn lemma_size_sum_nonneg(s: Seq<AxisSpec>)
    ensures
        size_sum(s) >= 0,
    decreases s.len(),
{
    if s.len() > 0 {
        lemma_size_sum_nonneg(s.drop_last());
    }
}

/// A single cell's base size is nonnegative and bounded by the larger of its
/// source extent and the target.
pub proof fn lemma_base_size_bounds(a: AxisSpec, target: int)
    requires
        0 <= target,
        (a.rule matches GrowthRule::Percent(p) ==> p <= 100),
    ensures
        0 <= base_size(a, target),
        base_size(a, target) <= if a.size as int >= target {
            a.size as int
        } else {
            target
        },
{
    match a.rule {
        GrowthRule::Percent(p) => {
            assert(target * (p as int) >= 0) by (nonlinear_arith)
                requires 0 <= target && 0 <= p;
            lemma_div_pos_is_pos(target * (p as int), 100);
            assert(target * (p as int) <= target * 100) by (nonlinear_arith)
                requires 0 <= target && p <= 100;
            lemma_div_is_ordered(target * (p as int), target * 100, 100);
            lemma_div_by_multiple(target, 100);
        },
        _ => {},
    }
}

pub proof fn lemma_reserved_sum_nonneg(s: Seq<AxisSpec>, target: int)
    requires
        0 <= target,
        percents_bounded(s),
    ensures
        reserved_sum(s, target) >= 0,
    decreases s.len(),
{
    if s.len() > 0 {
        assert(percents_bounded(s.drop_last())) by {
            assert(forall|i: int|
                0 <= i < s.len() - 1 ==> #[trigger] s.drop_last()[i] == s[i]);
        }
        lemma_reserved_sum_nonneg(s.drop_last(), target);
        assert(s.last() == s[s.len() - 1]);
        lemma_base_size_bounds(s.last(), target);
    }
}

/// Appending the next cell to a prefix extends the prefix sums by that
/// cell's contribution.
pub proof fn lemma_take_succ(s: Seq<AxisSpec>, target: int, i: int)
    requires
        0 <= i < s.len(),
    ensures
        weight_sum(s.take(i + 1)) == weight_sum(s.take(i)) + weight_of(s[i]),
        size_sum(s.take(i + 1)) == size_sum(s.take(i)) + s[i].size,
        reserved_sum(s.take(i + 1), target) == reserved_sum(s.take(i), target) + base_size(
            s[i],
            target,
        ),
{
    assert(s.take(i + 1).drop_last() =~= s.take(i));
    assert(s.take(i + 1).last() == s[i]);
}

/// A prefix of the axis never carries more stretch weight than the whole.
pub proof fn lemma_prefix_weight_bounds(s: Seq<AxisSpec>, i: int)
    requires
        0 <= i <= s.len(),
    ensures
        0 <= prefix_weight(s, i) <= weight_sum(s),
    decreases s.len() - i,
{
    lemma_weight_sum_nonneg(s.take(i));
    if i == s.len() {
        assert(s.take(i) =~= s);
    } else {
        lemma_take_succ(s, 0, i);
        lemma_prefix_weight_bounds(s, i + 1);
    }
}

/// A prefix of the axis never exceeds the whole axis's source extent.
pub proof fn lemma_prefix_size_bounds(s: Seq<AxisSpec>, i: int)
    requires
        0 <= i <= s.len(),
    ensures
        0 <= size_sum(s.take(i)) <= size_sum(s),
    decreases s.len() - i,
{
    lemma_size_sum_nonneg(s.take(i));
    if i == s.len() {
        assert(s.take(i) =~= s);
    } else {
        lemma_take_succ(s, 0, i);
        lemma_prefix_size_bounds(s, i + 1);
    }
}

/// A cut is monotone in the weight served.
pub proof fn lemma_stretch_cut_mono(rem: int, w1: int, w2: int, wsum: int)
    requires
        0 <= rem,
        0 <= w1 <= w2,
    ensures
        stretch_cut(rem, w1, wsum) <= stretch_cut(rem, w2, wsum),
{
    if wsum > 0 {
        assert(rem * w1 <= rem * w2) by (nonlinear_arith)
            requires 0 <= rem && w1 <= w2;
        lemma_div_is_ordered(rem * w1, rem * w2, wsum);
    }
}

/// A cut is between zero and the remaining space.
pub proof fn lemma_stretch_cut_bounds(rem: int, w: int, wsum: int)
    requires
        0 <= rem,
        0 <= w <= wsum,
    ensures
        0 <= stretch_cut(rem, w, wsum) <= rem,
{
    if wsum > 0 {
        assert(rem * w >= 0) by (nonlinear_arith)
            requires 0 <= rem && 0 <= w;
        lemma_div_pos_is_pos(rem * w, wsum);
        assert(rem * w <= rem * wsum) by (nonlinear_arith)
            requires 0 <= rem && w <= wsum;
        lemma_div_is_ordered(rem * w, rem * wsum, wsum);
        lemma_div_by_multiple(rem, wsum);
    }
}

/// The sum of the first `i` resolved extents decomposes into the prefix's
/// fixed/percent reservations plus the cut of remaining space served to the
/// prefix's stretch weight.
pub proof fn lemma_resolved_total_decomposed(s: Seq<AxisSpec>, target: int, i: int)
    requires
        0 <= i <= s.len(),
    ensures
        resolved_total_upto(s, target, i) == reserved_sum(s.take(i), target) + stretch_cut(
            remaining_space(s, target),
            prefix_weight(s, i),
            weight_sum(s),
        ),
    decreases i,
{
    if i == 0 {
        assert(s.take(0) =~= Seq::<AxisSpec>::empty());
        if weight_sum(s) > 0 {
            assert(remaining_space(s, target) * 0 == 0);
            assert(0int / weight_sum(s) == 0) by (nonlinear_arith)
                requires weight_sum(s) > 0;
        }
    } else {
        lemma_resolved_total_decomposed(s, target, i - 1);
        lemma_take_succ(s, target, i - 1);
        match s[i - 1].rule {
            GrowthRule::StretchRatio(w) => {
                assert(base_size(s[i - 1], target) == 0);
            },
            _ => {
                assert(weight_of(s[i - 1]) == 0);
            },
        }
    }
}

/// Space conservation, the heart of the solver: whenever the target leaves
/// room for the reservations and some stretch weight exists to soak up the
/// rest (or there is no rest), the resolved extents sum to the target
/// exactly - no gaps, no overlap.
pub proof fn lemma_solver_conservation(s: Seq<AxisSpec>, target: int)
    requires
        0 <= target,
        percents_bounded(s),
        reserved_sum(s, target) <= target,
        weight_sum(s) > 0 || reserved_sum(s, target) == target,
    ensures
        resolved_total(s, target) == target,
{
    lemma_resolved_total_decomposed(s, target, s.len() as int);
    assert(s.take(s.len() as int) =~= s);
    let wsum = weight_sum(s);
    let rem = remaining_space(s, target);
    if wsum > 0 {
        lemma_div_by_multiple(rem, wsum);
        assert(rem * wsum / wsum == rem);
    }
}

/// A stretch cell of weight zero always resolves to extent zero, so it never
/// exceeds its source extent, whatever the target.
pub proof fn lemma_zero_weight_stability(s: Seq<AxisSpec>, target: int, i: int)
    requires
        0 <= i < s.len(),
        s[i].rule == GrowthRule::StretchRatio(0u32),
    ensures
        resolved_size(s, target, i) == 0,
        resolved_size(s, target, i) <= s[i].size as int,
{
    assert(prefix_weight(s, i) + 0 == prefix_weight(s, i));
}

/// Every resolved extent is nonnegative and fits in `u32`.
pub proof fn lemma_resolved_size_bounds(s: Seq<AxisSpec>, target: int, i: int)
    requires
        axis_wf(s),
        0 <= target <= u32::MAX,
        0 <= i < s.len(),
    ensures
        0 <= resolved_size(s, target, i) <= u32::MAX,
{
    let rem = remaining_space(s, target);
    lemma_reserved_sum_nonneg(s, target);
    assert(0 <= rem <= target);
    match s[i].rule {
        GrowthRule::StretchRatio(w) => {
            let wsum = weight_sum(s);
            let pw = prefix_weight(s, i);
            lemma_prefix_weight_bounds(s, i);
            lemma_take_succ(s, target, i);
            lemma_prefix_weight_bounds(s, i + 1);
            assert(pw + w as int == prefix_weight(s, i + 1));
            lemma_stretch_cut_bounds(rem, pw, wsum);
            lemma_stretch_cut_bounds(rem, pw + w as int, wsum);
            lemma_stretch_cut_mono(rem, pw, pw + w as int, wsum);
        },
        _ => {
            lemma_base_size_bounds(s[i], target);
        },
    }
}

/// The sums of a three-cell axis, written out term by term.
pub proof fn lemma_axis3_sums(a0: AxisSpec, a1: AxisSpec, a2: AxisSpec)
    ensures
        weight_sum(seq![a0, a1, a2]) == weight_of(a0) + weight_of(a1) + weight_of(a2),
        size_sum(seq![a0, a1, a2]) == a0.size + a1.size + a2.size,
{
    assert(seq![a0, a1, a2].drop_last() =~= seq![a0, a1]);
    assert(seq![a0, a1].drop_last() =~= seq![a0]);
    assert(seq![a0].drop_last() =~= Seq::<AxisSpec>::empty());
    assert(weight_sum(Seq::<AxisSpec>::empty()) == 0);
    assert(weight_sum(seq![a0]) == weight_of(a0));
    assert(weight_sum(seq![a0, a1]) == weight_of(a0) + weight_of(a1));
    assert(size_sum(Seq::<AxisSpec>::empty()) == 0);
    assert(size_sum(seq![a0]) == a0.size);
    assert(size_sum(seq![a0, a1]) == a0.size + a1.size);
}

/// Solve one axis: the resolved extent of every cell, in order.
///
/// The result is exactly the mathematical resolution described by
/// [`resolved_size`]: fixed cells keep their source extent, percent cells
/// take their fraction of the target, and stretch cells split the remaining
/// space by weight with remainders carried to later cells.
pub fn solve_axis(specs: &Vec<AxisSpec>, target: u32) -> (out: Vec<u32>)
    requires
        axis_wf(specs@),
    ensures
        out@.len() == specs@.len(),
        forall|i: int|
            0 <= i < specs@.len() ==> out@[i] as int == resolved_size(specs@, target as int, i),
{
    let n = specs.len();
    let mut wsum: u64 = 0;
    let mut reserved: u64 = 0;
    let mut j: usize = 0;
    while j < n
        invariant
            j <= n,
            n == specs@.len(),
            axis_wf(specs@),
            target <= u32::MAX,
            wsum as int == weight_sum(specs@.take(j as int)),
            reserved as int == reserved_sum(specs@.take(j as int), target as int),
            reserved as int <= (j as int) * (u32::MAX as int),
        decreases n - j,
    {
        proof {
            lemma_take_succ(specs@, target as int, j as int);
            lemma_prefix_weight_bounds(specs@, j as int + 1);
            lemma_base_size_bounds(specs@[j as int], target as int);
        }
        match specs[j].rule {
            GrowthRule::Fixed => {
                reserved = reserved + specs[j].size as u64;
            },
            GrowthRule::Percent(p) => {
                let part: u64 = (target as u64) * (p as u64) / 100;
                reserved = reserved + part;
            },
            GrowthRule::StretchRatio(w) => {
                wsum = wsum + w as u64;
            },
        }
        j = j + 1;
    }
    proof {
        assert(specs@.take(n as int) =~= specs@);
        lemma_reserved_sum_nonneg(specs@, target as int);
        lemma_weight_sum_nonneg(specs@);
    }
    let rem: u32 = if (target as u64) > reserved {
        target - (reserved as u32)
    } else {
        0
    };
    assert(rem as int == remaining_space(specs@, target as int));

    let mut out: Vec<u32> = Vec::new();
    let mut cum: u64 = 0;
    let mut prev_cut: u64 = 0;
    let mut i: usize = 0;
    while i < n
        invariant
            i <= n,
            n == specs@.len(),
            axis_wf(specs@),
            target <= u32::MAX,
            wsum as int == weight_sum(specs@),
            rem as int == remaining_space(specs@, target as int),
            out@.len() == i as int,
            forall|k: int|
                0 <= k < i as int ==> out@[k] as int == resolved_size(specs@, target as int, k),
            cum as int == prefix_weight(specs@, i as int),
            prev_cut as int == stretch_cut(rem as int, cum as int, wsum as int),
            prev_cut <= rem,
        decreases n - i,
    {
        proof {
            lemma_take_succ(specs@, target as int, i as int);
            lemma_prefix_weight_bounds(specs@, i as int);
            lemma_prefix_weight_bounds(specs@, i as int + 1);
        }
        match specs[i].rule {
            GrowthRule::Fixed => {
                out.push(specs[i].size);
            },
            GrowthRule::Percent(p) => {
                proof {
                    lemma_base_size_bounds(specs@[i as int], target as int);
                }
                let part: u64 = (target as u64) * (p as u64) / 100;
                out.push(part as u32);
            },
            GrowthRule::StretchRatio(w) => {
                let cum2: u64 = cum + w as u64;
                assert(cum2 as int == prefix_weight(specs@, i as int + 1));
                if wsum == 0 {
                    out.push(0);
                    cum = cum2;
                } else {
                    proof {
                        lemma_stretch_cut_bounds(rem as int, cum2 as int, wsum as int);
                        lemma_stretch_cut_mono(rem as int, cum as int, cum2 as int, wsum as int);
                        assert((rem as int) * (cum2 as int) <= (u32::MAX as int) * (u32::MAX as int))
                            by (nonlinear_arith)
                            requires
                                0 <= rem as int <= u32::MAX as int,
                                0 <= cum2 as int <= u32::MAX as int,
                        ;
                    }
                    let new_cut: u64 = (rem as u64) * cum2 / wsum;
                    assert(new_cut as int == stretch_cut(rem as int, cum2 as int, wsum as int));
                    let share: u32 = (new_cut - prev_cut) as u32;
                    out.push(share);
                    cum = cum2;
                    prev_cut = new_cut;
                }
            },
        }
        i = i + 1;
    }
    out
}

} // verus!
