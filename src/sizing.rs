use vstd::prelude::*;
use crate::geometry::{extent, lemma_extent_bounded, lemma_extent_monotone, Direction, PercentSize};
use crate::layout::{
    advanced, child_region, fits, region_wf, remaining, span, used_along, used_pc_along, Region,
};

verus! {

/// The sum of a run of percentages.
pub open spec fn sum_pc(pcs: Seq<nat>) -> nat
    decreases pcs.len(),
{
    if pcs.len() == 0 {
        0
    } else {
        sum_pc(pcs.drop_last()) + pcs.last()
    }
}

proof fn lemma_prefix_sums(pcs: Seq<nat>, i: int, j: int)
    requires
        0 <= i <= j <= pcs.len(),
    ensures
        sum_pc(pcs.take(i)) <= sum_pc(pcs.take(j)),
    decreases j - i,
{
    if i < j {
        lemma_prefix_sums(pcs, i, j - 1);
        assert(pcs.take(j).drop_last() =~= pcs.take(j - 1));
    }
}

/// The percentages of `pcs` along `dir`.
pub open spec fn pcs_along(pcs: Seq<PercentSize>, dir: Direction) -> Seq<nat> {
    pcs.map_values(|p: PercentSize| p.along(dir))
}

/// `parent` after children requesting `pcs`, laid out along `dir`, were
/// each opened (`box_start`) and closed (`box_end`) in turn.
pub open spec fn after_siblings(parent: Region, dir: Direction, pcs: Seq<PercentSize>) -> Region
    decreases pcs.len(),
{
    if pcs.len() == 0 {
        parent
    } else {
        advanced(after_siblings(parent, dir, pcs.drop_last()), dir, pcs.last())
    }
}

/// Where a region starts along `dir`.
pub open spec fn start_along(r: Region, dir: Direction) -> int {
    match dir {
        Direction::Horizontal => r.origin.col as int,
        Direction::Vertical => r.origin.row as int,
    }
}

/// The sum of the spans along `dir` of the boxes that children requesting
/// `pcs` get from `box_start`, each opened after the previous one closed.
pub open spec fn spans_total(parent: Region, dir: Direction, pcs: Seq<PercentSize>) -> nat
    decreases pcs.len(),
{
    if pcs.len() == 0 {
        0
    } else {
        spans_total(parent, dir, pcs.drop_last()) + span(
            child_region(after_siblings(parent, dir, pcs.drop_last()), dir, pcs.last()).size,
            dir,
        )
    }
}

proof fn lemma_after_siblings(parent: Region, dir: Direction, pcs: Seq<PercentSize>, i: int)
    requires
        region_wf(parent),
        used_pc_along(parent, dir) == 0,
        0 <= i <= pcs.len(),
        sum_pc(pcs_along(pcs, dir).take(i)) <= 100,
    ensures
        after_siblings(parent, dir, pcs.take(i)).origin == parent.origin,
        after_siblings(parent, dir, pcs.take(i)).size == parent.size,
        used_pc_along(after_siblings(parent, dir, pcs.take(i)), dir) == sum_pc(
            pcs_along(pcs, dir).take(i),
        ),
        used_along(after_siblings(parent, dir, pcs.take(i)), dir) == extent(
            span(parent.size, dir),
            sum_pc(pcs_along(pcs, dir).take(i)),
        ),
        region_wf(after_siblings(parent, dir, pcs.take(i))),
    decreases i,
{
    let a = pcs_along(pcs, dir);
    if i > 0 {
        assert(a.take(i).drop_last() =~= a.take(i - 1));
        assert(pcs.take(i).drop_last() =~= pcs.take(i - 1));
        assert(pcs.take(i).last() == pcs[i - 1]);
        assert(a[i - 1] == pcs[i - 1].along(dir));
        lemma_after_siblings(parent, dir, pcs, i - 1);
        let s = sum_pc(a.take(i));
        lemma_extent_bounded(parent.size.width as nat, s);
        lemma_extent_bounded(parent.size.height as nat, s);
    } else {
        assert(pcs.take(0) =~= Seq::<PercentSize>::empty());
        assert(a.take(0) =~= Seq::<nat>::empty());
    }
}

/// Where the `i`-th sibling's box starts and ends along `dir`: between the
/// cells that the percentages before it and up to it cover, rounded down.
proof fn lemma_child_along(parent: Region, dir: Direction, pcs: Seq<PercentSize>, i: int)
    requires
        region_wf(parent),
        used_pc_along(parent, dir) == 0,
        0 <= i < pcs.len(),
        sum_pc(pcs_along(pcs, dir).take(i + 1)) <= 100,
    ensures
        ({
            let a = pcs_along(pcs, dir);
            let w = span(parent.size, dir);
            let q = after_siblings(parent, dir, pcs.take(i));
            let c = child_region(q, dir, pcs[i]);
            &&& fits(q, dir, pcs[i])
            &&& start_along(c, dir) == start_along(parent, dir) + extent(w, sum_pc(a.take(i)))
            &&& span(c.size, dir) == extent(w, sum_pc(a.take(i + 1))) - extent(w, sum_pc(a.take(i)))
            &&& extent(w, sum_pc(a.take(i))) <= extent(w, sum_pc(a.take(i + 1))) <= w
        }),
{
    let a = pcs_along(pcs, dir);
    let w = span(parent.size, dir);
    assert(a.take(i + 1).drop_last() =~= a.take(i));
    assert(a[i] == pcs[i].along(dir));
    lemma_prefix_sums(a, i, i + 1);
    lemma_after_siblings(parent, dir, pcs, i);
    lemma_extent_monotone(w, sum_pc(a.take(i)), sum_pc(a.take(i + 1)));
    lemma_extent_bounded(w, sum_pc(a.take(i + 1)));
}

/// Siblings laid out along `dir` in a region that no child has used yet,
/// whose percentages along `dir` add up to at most 100: every `box_start`
/// fits, each box lies within the region's span along `dir`, each ends
/// before the next begins, and their spans add up to no more than the
/// region's. The regions are those that `box_start` gives (`child_region`)
/// and `box_end` leaves (`advanced`).
pub proof fn lemma_sibling_boxes_fit(parent: Region, dir: Direction, pcs: Seq<PercentSize>)
    requires
        region_wf(parent),
        used_pc_along(parent, dir) == 0,
        sum_pc(pcs_along(pcs, dir)) <= 100,
    ensures
        forall|i: int|
            0 <= i < pcs.len() ==> fits(
                #[trigger] after_siblings(parent, dir, pcs.take(i)),
                dir,
                pcs[i],
            ),
        forall|i: int|
            0 <= i < pcs.len() ==> {
                let c = child_region(#[trigger] after_siblings(parent, dir, pcs.take(i)), dir, pcs[i]);
                &&& start_along(parent, dir) <= start_along(c, dir)
                &&& start_along(c, dir) + span(c.size, dir) <= start_along(parent, dir) + span(
                    parent.size,
                    dir,
                )
            },
        forall|i: int, j: int|
            0 <= i < j < pcs.len() ==> {
                let ci = child_region(#[trigger] after_siblings(parent, dir, pcs.take(i)), dir, pcs[i]);
                let cj = child_region(#[trigger] after_siblings(parent, dir, pcs.take(j)), dir, pcs[j]);
                start_along(ci, dir) + span(ci.size, dir) <= start_along(cj, dir)
            },
        spans_total(parent, dir, pcs) <= span(parent.size, dir),
{
    let a = pcs_along(pcs, dir);
    let w = span(parent.size, dir);
    assert(a.take(a.len() as int) =~= a);
    assert forall|i: int| 0 <= i < pcs.len() implies #[trigger] sum_pc(a.take(i + 1)) <= 100 by {
        lemma_prefix_sums(a, i + 1, a.len() as int);
    }
    assert forall|i: int| 0 <= i < pcs.len() implies {
        let c = child_region(#[trigger] after_siblings(parent, dir, pcs.take(i)), dir, pcs[i]);
        &&& fits(after_siblings(parent, dir, pcs.take(i)), dir, pcs[i])
        &&& start_along(parent, dir) <= start_along(c, dir)
        &&& start_along(c, dir) + span(c.size, dir) <= start_along(parent, dir) + w
    } by {
        assert(sum_pc(a.take(i + 1)) <= 100);
        lemma_child_along(parent, dir, pcs, i);
    }
    assert forall|i: int, j: int| 0 <= i < j < pcs.len() implies {
        let ci = child_region(#[trigger] after_siblings(parent, dir, pcs.take(i)), dir, pcs[i]);
        let cj = child_region(#[trigger] after_siblings(parent, dir, pcs.take(j)), dir, pcs[j]);
        start_along(ci, dir) + span(ci.size, dir) <= start_along(cj, dir)
    } by {
        assert(sum_pc(a.take(i + 1)) <= 100);
        assert(sum_pc(a.take(j + 1)) <= 100);
        lemma_child_along(parent, dir, pcs, i);
        lemma_child_along(parent, dir, pcs, j);
        lemma_prefix_sums(a, i + 1, j);
        lemma_extent_monotone(w, sum_pc(a.take(i + 1)), sum_pc(a.take(j)));
    }
    lemma_spans_total(parent, dir, pcs);
    lemma_extent_bounded(w, sum_pc(a));
}

proof fn lemma_spans_total(parent: Region, dir: Direction, pcs: Seq<PercentSize>)
    requires
        region_wf(parent),
        used_pc_along(parent, dir) == 0,
        sum_pc(pcs_along(pcs, dir)) <= 100,
    ensures
        spans_total(parent, dir, pcs) == extent(span(parent.size, dir), sum_pc(pcs_along(pcs, dir))),
    decreases pcs.len(),
{
    let a = pcs_along(pcs, dir);
    let n = pcs.len() as int;
    if n > 0 {
        let h = pcs.drop_last();
        assert(pcs_along(h, dir) =~= a.drop_last());
        assert(pcs.take(n - 1) =~= h);
        assert(a.take(n - 1) =~= a.drop_last());
        assert(a.take(n) =~= a);
        lemma_spans_total(parent, dir, h);
        lemma_child_along(parent, dir, pcs, n - 1);
    } else {
        let w = span(parent.size, dir);
        assert(w * 0 / 100 == 0) by (nonlinear_arith);
    }
}

/// Siblings laid out along `dir` in a region that no child has used yet:
/// the first whose running percentage passes 100 does not fit, so its
/// `box_start` fails with `SizeOverflow`, while every sibling before it fits.
pub proof fn lemma_first_overflow_fails(parent: Region, dir: Direction, pcs: Seq<PercentSize>, k: int)
    requires
        region_wf(parent),
        used_pc_along(parent, dir) == 0,
        0 <= k < pcs.len(),
        sum_pc(pcs_along(pcs, dir).take(k)) <= 100,
        sum_pc(pcs_along(pcs, dir).take(k + 1)) > 100,
    ensures
        !fits(after_siblings(parent, dir, pcs.take(k)), dir, pcs[k]),
        forall|i: int|
            0 <= i < k ==> fits(#[trigger] after_siblings(parent, dir, pcs.take(i)), dir, pcs[i]),
{
    let a = pcs_along(pcs, dir);
    lemma_after_siblings(parent, dir, pcs, k);
    assert(a.take(k + 1).drop_last() =~= a.take(k));
    assert(a[k] == pcs[k].along(dir));
    assert forall|i: int| 0 <= i < k implies fits(
        #[trigger] after_siblings(parent, dir, pcs.take(i)),
        dir,
        pcs[i],
    ) by {
        lemma_prefix_sums(a, i + 1, k);
        lemma_child_along(parent, dir, pcs, i);
    }
}

/// Opening and closing a box that asks for half the width of a region that
/// no child has used yet: the box fits, and afterwards the width left is the
/// width less half of it rounded down; for an even width that is exactly
/// half of what was left before.
pub proof fn lemma_half_width_round_trip(parent: Region, pc: PercentSize)
    requires
        region_wf(parent),
        used_pc_along(parent, Direction::Horizontal) == 0,
        pc.width_spec() == 50,
    ensures
        fits(parent, Direction::Horizontal, pc),
        remaining(advanced(parent, Direction::Horizontal, pc), Direction::Horizontal) == remaining(
            parent,
            Direction::Horizontal,
        ) - remaining(parent, Direction::Horizontal) / 2,
        parent.size.width % 2 == 0 ==> remaining(
            advanced(parent, Direction::Horizontal, pc),
            Direction::Horizontal,
        ) == remaining(parent, Direction::Horizontal) / 2,
{
    let w = parent.size.width as nat;
    lemma_extent_bounded(w, 50);
    assert(w * 50 / 100 == w / 2) by (nonlinear_arith);
    assert(w * 0 / 100 == 0) by (nonlinear_arith);
}

} // verus!
