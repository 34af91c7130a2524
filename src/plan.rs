use vstd::prelude::*;
use crate::geometry::LayoutError;
use crate::geometry::{Direction, PercentSize, Size};
use crate::layout::{advanced, child_region, fits, FlexBox, FlexBoxProps, Region, Surface, SurfaceBounds, MAX_CELL};
use crate::pipeline::{RenderEntry, RenderPipeline};
use r3bl_rs_utils_core::Stylesheet;

verus! {

/// One step of a layout pass.
pub enum LayoutStep {
    /// Open a box inside the innermost open box.
    Open(FlexBoxProps),
    /// Add a paint instruction to the innermost open box.
    Paint(RenderEntry),
    /// Close the innermost open box.
    Close,
}

/// How many boxes are open after `steps`.
pub open spec fn depth(steps: Seq<LayoutStep>) -> int
    decreases steps.len(),
{
    if steps.len() == 0 {
        0
    } else {
        depth(steps.drop_last()) + match steps.last() {
            LayoutStep::Open(_) => 1int,
            LayoutStep::Close => -1int,
            LayoutStep::Paint(_) => 0int,
        }
    }
}

/// Every close has an open before it, and every open is closed.
pub open spec fn properly_nested(steps: Seq<LayoutStep>) -> bool {
    &&& forall|i: int| 0 <= i <= steps.len() ==> depth(#[trigger] steps.take(i)) >= 0
    &&& depth(steps) == 0
}

/// The paint instructions of `steps`, in order.
pub open spec fn painted(steps: Seq<LayoutStep>) -> Seq<RenderEntry>
    decreases steps.len(),
{
    if steps.len() == 0 {
        seq![]
    } else {
        match steps.last() {
            LayoutStep::Paint(e) => painted(steps.drop_last()).push(e),
            _ => painted(steps.drop_last()),
        }
    }
}

/// The regions after the innermost one, laid out along `dir` at `pc`, has
/// closed.
pub open spec fn closed_regions(regions: Seq<Region>, dir: Direction, pc: PercentSize) -> Seq<Region> {
    let n = regions.len() as int;
    regions.drop_last().update(n - 2, advanced(regions[n - 2], dir, pc))
}

/// Whether every box that `steps` opens fits, starting from the open
/// `regions` (the surface's first) and the direction and percentages of each
/// open box.
pub open spec fn plan_fits(
    regions: Seq<Region>,
    dirs: Seq<(Direction, PercentSize)>,
    steps: Seq<LayoutStep>,
) -> bool
    decreases steps.len(),
{
    if steps.len() == 0 {
        true
    } else {
        match steps[0] {
            LayoutStep::Open(p) => fits(regions.last(), p.dir, p.requested_size_percent) && plan_fits(
                regions.push(child_region(regions.last(), p.dir, p.requested_size_percent)),
                dirs.push((p.dir, p.requested_size_percent)),
                steps.drop_first(),
            ),
            LayoutStep::Close => dirs.len() == 0 || plan_fits(
                closed_regions(regions, dirs.last().0, dirs.last().1),
                dirs.drop_last(),
                steps.drop_first(),
            ),
            LayoutStep::Paint(_) => plan_fits(regions, dirs, steps.drop_first()),
        }
    }
}

pub open spec fn root_region(bounds: SurfaceBounds) -> Region {
    Region {
        origin: bounds.origin,
        size: bounds.size,
        used: Size { width: 0, height: 0 },
        used_pc_h: 0,
        used_pc_v: 0,
    }
}

pub open spec fn dirs_of(boxes: Seq<FlexBox>) -> Seq<(Direction, PercentSize)> {
    boxes.map_values(|b: FlexBox| (b.dir, b.requested_size_percent))
}

/// Runs a whole layout pass over `bounds`: starts a surface, performs the
/// steps in order, and ends it. A properly nested plan whose boxes all fit
/// (`plan_fits`) succeeds, and the pipeline then holds exactly the paint
/// instructions of the plan, in order. A properly nested plan with a box that
/// does not fit fails with `SizeOverflow`; one that is not properly nested
/// fails. Bounds outside cell coordinates fail with `RangeError`.
pub fn lay_out(stylesheet: Stylesheet, bounds: SurfaceBounds, steps: Vec<LayoutStep>) -> (r: Result<
    RenderPipeline,
    LayoutError,
>)
    ensures
        bounds.origin.col + bounds.size.width > MAX_CELL || bounds.origin.row + bounds.size.height
            > MAX_CELL ==> r == Err::<RenderPipeline, LayoutError>(LayoutError::RangeError),
        r matches Ok(p) ==> properly_nested(steps@) && p.entries@ == painted(steps@),
        bounds.origin.col + bounds.size.width <= MAX_CELL && bounds.origin.row + bounds.size.height
            <= MAX_CELL && properly_nested(steps@) ==> (r is Ok <==> plan_fits(
            seq![root_region(bounds)],
            Seq::<(Direction, PercentSize)>::empty(),
            steps@,
        )),
        bounds.origin.col + bounds.size.width <= MAX_CELL && bounds.origin.row + bounds.size.height
            <= MAX_CELL && properly_nested(steps@) && r is Err ==> r == Err::<RenderPipeline, LayoutError>(
            LayoutError::SizeOverflow,
        ),
{
    let mut surface = Surface::new(stylesheet);
    let started = surface.surface_start(bounds);
    if started.is_err() {
        return Err(LayoutError::RangeError);
    }
    let ghost all = steps@;
    let n = steps.len();
    let mut pending = steps;
    let mut rev: Vec<LayoutStep> = Vec::new();
    while pending.len() > 0
        invariant
            pending@.len() + rev@.len() == n,
            n == all.len(),
            all == steps@,
            pending@ == all.take(pending@.len() as int),
            forall|j: int| 0 <= j < rev@.len() ==> rev@[j] == all[n - 1 - j],
            surface.wf(),
            surface.started(),
            surface.open_boxes().len() == 0,
            surface.appended().len() == 0,
            surface.regions() == seq![root_region(bounds)],
            bounds.origin.col + bounds.size.width <= MAX_CELL,
            bounds.origin.row + bounds.size.height <= MAX_CELL,
        decreases pending@.len(),
    {
        let s = pending.pop().unwrap();
        proof {
            assert(pending@ =~= all.take(pending@.len() as int));
        }
        rev.push(s);
    }
    let mut i: usize = 0;
    assert(all.take(0) =~= Seq::<LayoutStep>::empty());
    assert(all.skip(0) =~= all);
    assert(dirs_of(surface.open_boxes()) =~= Seq::<(Direction, PercentSize)>::empty());
    while i < n
        invariant
            i <= n,
            n == all.len(),
            all == steps@,
            rev@.len() == n - i,
            forall|j: int| 0 <= j < rev@.len() ==> rev@[j] == all[n - 1 - j],
            surface.wf(),
            surface.started(),
            surface.open_boxes().len() == depth(all.take(i as int)),
            surface.appended() == painted(all.take(i as int)),
            forall|j: int| 0 <= j <= i ==> depth(#[trigger] all.take(j)) >= 0,
            bounds.origin.col + bounds.size.width <= MAX_CELL,
            bounds.origin.row + bounds.size.height <= MAX_CELL,
            plan_fits(seq![root_region(bounds)], Seq::<(Direction, PercentSize)>::empty(), all) == plan_fits(
                surface.regions(),
                dirs_of(surface.open_boxes()),
                all.skip(i as int),
            ),
        decreases n - i,
    {
        let step = rev.pop().unwrap();
        let ghost regions0 = surface.regions();
        let ghost dirs0 = dirs_of(surface.open_boxes());
        let ghost boxes0 = surface.open_boxes();
        proof {
            assert(all.skip(i as int)[0] == all[i as int]);
            assert(all.skip(i as int).drop_first() =~= all.skip(i + 1));
            assert(step == all[i as int]);
            assert(all.take(i + 1).drop_last() =~= all.take(i as int));
            assert(all.take(i + 1).last() == all[i as int]);
        }
        match step {
            LayoutStep::Open(props) => {
                let ghost p = props;
                if surface.box_start(props).is_err() {
                    return Err(LayoutError::SizeOverflow);
                }
                proof {
                    assert(dirs_of(surface.open_boxes()) =~= dirs0.push((p.dir, p.requested_size_percent)));
                }
            },
            LayoutStep::Paint(e) => {
                let added = surface.add_entry(e);
                assert(added is Ok);
            },
            LayoutStep::Close => {
                if surface.box_end().is_err() {
                    proof {
                        assert(depth(all.take(i + 1)) < 0);
                        assert(!properly_nested(all));
                    }
                    return Err(LayoutError::UnbalancedPop);
                }
                proof {
                    assert(dirs_of(surface.open_boxes()) =~= dirs0.drop_last());
                    assert(dirs0.last() == (boxes0.last().dir, boxes0.last().requested_size_percent));
                    assert(surface.regions() =~= closed_regions(regions0, dirs0.last().0, dirs0.last().1));
                }
            },
        }
        i = i + 1;
    }
    assert(all.take(n as int) =~= all);
    assert(all.skip(n as int) =~= Seq::<LayoutStep>::empty());
    surface.surface_end()
}

} // verus!
