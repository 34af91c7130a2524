use vstd::prelude::*;
use crate::geometry::{
    extent, lemma_extent_bounded, lemma_extent_monotone, resolve_extent, Direction, FlexBoxId, LayoutError, PercentSize, Position, Size,
};
use crate::pipeline::{RenderEntry, RenderPipeline};
use r3bl_rs_utils_core::{Style, Stylesheet};

verus! {

/// The largest cell coordinate.
pub const MAX_CELL: u16 = 65535;

/// What a caller asks of a new box.
pub struct FlexBoxProps {
    pub id: FlexBoxId,
    pub dir: Direction,
    pub requested_size_percent: PercentSize,
    pub maybe_styles: Option<Vec<Style>>,
}

/// A box as the layout resolved it, in absolute cells.
pub struct FlexBox {
    pub id: FlexBoxId,
    pub dir: Direction,
    pub origin: Position,
    pub size: Size,
    pub requested_size_percent: PercentSize,
    pub maybe_styles: Option<Vec<Style>>,
}

/// The rectangle a surface lays out in.
#[derive(Clone, Copy, Debug, PartialEq, Eq, Structural)]
pub struct SurfaceBounds {
    pub origin: Position,
    pub size: Size,
}

/// A rectangle with cursors: `used_pc_h` and `used_pc_v` are the
/// percentages of its width and height that closed children laid out
/// horizontally and vertically have taken, and `used` the columns (`width`)
/// and rows (`height`) those percentages cover, rounded down.
#[derive(Clone, Copy, Debug, PartialEq, Eq, Structural)]
pub struct Region {
    pub origin: Position,
    pub size: Size,
    pub used: Size,
    pub used_pc_h: u8,
    pub used_pc_v: u8,
}

pub open spec fn span(size: Size, dir: Direction) -> nat {
    match dir {
        Direction::Horizontal => size.width as nat,
        Direction::Vertical => size.height as nat,
    }
}

pub open spec fn used_along(r: Region, dir: Direction) -> nat {
    span(r.used, dir)
}

/// The percentage of `r` taken along `dir` by closed children.
pub open spec fn used_pc_along(r: Region, dir: Direction) -> nat {
    match dir {
        Direction::Horizontal => r.used_pc_h as nat,
        Direction::Vertical => r.used_pc_v as nat,
    }
}

/// The space left in `r` along `dir`.
pub open spec fn remaining(r: Region, dir: Direction) -> int {
    span(r.size, dir) - used_along(r, dir)
}

pub open spec fn region_wf(r: Region) -> bool {
    &&& r.used_pc_h <= 100
    &&& r.used_pc_v <= 100
    &&& r.used.width == extent(r.size.width as nat, r.used_pc_h as nat)
    &&& r.used.height == extent(r.size.height as nat, r.used_pc_v as nat)
    &&& r.used.width <= r.size.width
    &&& r.used.height <= r.size.height
    &&& r.origin.col + r.size.width <= MAX_CELL
    &&& r.origin.row + r.size.height <= MAX_CELL
}

/// A child laid out along `dir` fits when the percentage that closed
/// siblings took along that axis plus its own is at most 100.
pub open spec fn fits(parent: Region, dir: Direction, pc: PercentSize) -> bool {
    used_pc_along(parent, dir) + pc.along(dir) <= 100
}

/// The size of a child of `parent` laid out along `dir` that requests `pc`.
/// Along `dir` it covers the cells from where the percentage taken so far
/// ends to where that percentage plus its own ends, each rounded down; on
/// the other axis it is its percentage of the parent's span.
pub open spec fn child_size(parent: Region, dir: Direction, pc: PercentSize) -> Size {
    let w = parent.size.width as nat;
    let h = parent.size.height as nat;
    match dir {
        Direction::Horizontal => Size {
            width: (extent(w, (parent.used_pc_h + pc.width_spec()) as nat) - extent(w, parent.used_pc_h as nat)) as u16,
            height: extent(h, pc.height_spec()) as u16,
        },
        Direction::Vertical => Size {
            width: extent(w, pc.width_spec()) as u16,
            height: (extent(h, (parent.used_pc_v + pc.height_spec()) as nat) - extent(h, parent.used_pc_v as nat)) as u16,
        },
    }
}

/// The region of a child laid out along `dir`: it starts at the parent's
/// cursor on that axis and at the parent's origin on the other.
pub open spec fn child_region(parent: Region, dir: Direction, pc: PercentSize) -> Region {
    Region {
        origin: match dir {
            Direction::Horizontal => Position {
                col: (parent.origin.col + parent.used.width) as u16,
                row: parent.origin.row,
            },
            Direction::Vertical => Position {
                col: parent.origin.col,
                row: (parent.origin.row + parent.used.height) as u16,
            },
        },
        size: child_size(parent, dir, pc),
        used: Size { width: 0, height: 0 },
        used_pc_h: 0,
        used_pc_v: 0,
    }
}

/// `parent` after a child laid out along `dir` that requested `pc` has
/// closed: the child's percentage is added to that axis's cursor.
pub open spec fn advanced(parent: Region, dir: Direction, pc: PercentSize) -> Region {
    match dir {
        Direction::Horizontal => Region {
            used_pc_h: ((parent.used_pc_h + pc.width_spec()) as nat) as u8,
            used: Size {
                width: extent(parent.size.width as nat, (parent.used_pc_h + pc.width_spec()) as nat) as u16,
                height: parent.used.height,
            },
            ..parent
        },
        Direction::Vertical => Region {
            used_pc_v: ((parent.used_pc_v + pc.height_spec()) as nat) as u8,
            used: Size {
                width: parent.used.width,
                height: extent(parent.size.height as nat, (parent.used_pc_v + pc.height_spec()) as nat) as u16,
            },
            ..parent
        },
    }
}

pub open spec fn box_of(props: FlexBoxProps, r: Region) -> FlexBox {
    FlexBox {
        id: props.id,
        dir: props.dir,
        origin: r.origin,
        size: r.size,
        requested_size_percent: props.requested_size_percent,
        maybe_styles: props.maybe_styles,
    }
}

struct Frame {
    region: Region,
    entries: Vec<RenderEntry>,
}

spec fn flat(frames: Seq<Frame>) -> Seq<RenderEntry>
    decreases frames.len(),
{
    if frames.len() == 0 {
        seq![]
    } else {
        flat(frames.drop_last()) + frames.last().entries@
    }
}

proof fn lemma_flat_push(frames: Seq<Frame>, f: Frame)
    ensures
        flat(frames.push(f)) == flat(frames) + f.entries@,
{
    assert(frames.push(f).drop_last() =~= frames);
}

/// The root layout context: a stack of open boxes inside the surface's
/// bounds, and the paint instructions produced while they were open.
pub struct Surface {
    stylesheet: Stylesheet,
    frames: Vec<Frame>,
    boxes: Vec<FlexBox>,
    log: Ghost<Seq<RenderEntry>>,
}

impl Surface {
    pub closed spec fn sheet(&self) -> Stylesheet {
        self.stylesheet
    }

    pub fn stylesheet(&self) -> (r: &Stylesheet)
        ensures
            *r == self.sheet(),
    {
        &self.stylesheet
    }

    /// Between `surface_start` and `surface_end`.
    pub closed spec fn started(&self) -> bool {
        self.frames@.len() > 0
    }

    /// The surface's region, then one region per open box, innermost last.
    pub closed spec fn regions(&self) -> Seq<Region> {
        self.frames@.map_values(|f: Frame| f.region)
    }

    /// The open boxes, innermost last.
    pub closed spec fn open_boxes(&self) -> Seq<FlexBox> {
        self.boxes@
    }

    /// Every entry added since `surface_start`, in order.
    pub closed spec fn appended(&self) -> Seq<RenderEntry> {
        self.log@
    }

    /// Where the next box goes: the innermost open box, else the surface.
    pub open spec fn top(&self) -> Region {
        self.regions().last()
    }

    pub closed spec fn wf(&self) -> bool {
        &&& self.frames@.len() == 0 ==> self.boxes@.len() == 0 && self.log@.len() == 0
        &&& self.frames@.len() > 0 ==> self.frames@.len() == self.boxes@.len() + 1
        &&& forall|i: int| 0 <= i < self.frames@.len() ==> region_wf(#[trigger] self.frames@[i].region)
        &&& forall|i: int| 0 <= i < self.boxes@.len() ==> {
            let b = #[trigger] self.boxes@[i];
            let r = self.frames@[i + 1].region;
            &&& b.origin == r.origin
            &&& b.size == r.size
            &&& fits(self.frames@[i].region, b.dir, b.requested_size_percent)
            &&& b.size == child_size(self.frames@[i].region, b.dir, b.requested_size_percent)
        }
        &&& self.log@ == flat(self.frames@)
    }

    /// What every well-formed surface satisfies: outside a pass nothing is
    /// open; during one there is a region for the surface and one per open
    /// box, each well formed, and each open box holds the region it was
    /// given, which fitted in its parent.
    pub proof fn lemma_model(&self)
        requires
            self.wf(),
        ensures
            !self.started() ==> self.regions().len() == 0 && self.open_boxes().len() == 0,
            self.started() ==> self.regions().len() == self.open_boxes().len() + 1,
            forall|i: int| 0 <= i < self.regions().len() ==> region_wf(#[trigger] self.regions()[i]),
            forall|i: int|
                0 <= i < self.open_boxes().len() ==> {
                    let b = #[trigger] self.open_boxes()[i];
                    &&& b.origin == self.regions()[i + 1].origin
                    &&& b.size == self.regions()[i + 1].size
                    &&& fits(self.regions()[i], b.dir, b.requested_size_percent)
                    &&& b.size == child_size(self.regions()[i], b.dir, b.requested_size_percent)
                },
    {
        assert forall|i: int| 0 <= i < self.open_boxes().len() implies {
            let b = #[trigger] self.open_boxes()[i];
            &&& b.origin == self.regions()[i + 1].origin
            &&& b.size == self.regions()[i + 1].size
            &&& fits(self.regions()[i], b.dir, b.requested_size_percent)
            &&& b.size == child_size(self.regions()[i], b.dir, b.requested_size_percent)
        } by {
            assert(self.boxes@[i] == self.open_boxes()[i]);
        }
    }

    /// A surface that has not started.
    pub fn new(stylesheet: Stylesheet) -> (r: Surface)
        ensures
            r.wf(),
            !r.started(),
            r.sheet() == stylesheet,
    {
        Surface { stylesheet, frames: Vec::new(), boxes: Vec::new(), log: Ghost(Seq::empty()) }
    }

    pub fn is_started(&self) -> (r: bool)
        ensures
            r == self.started(),
    {
        self.frames.len() > 0
    }

    /// How many boxes are open.
    pub fn depth(&self) -> (r: usize)
        ensures
            r == self.open_boxes().len(),
    {
        self.boxes.len()
    }

    /// The innermost open box.
    pub fn current_box(&self) -> (r: Option<&FlexBox>)
        ensures
            self.open_boxes().len() == 0 ==> r is None,
            self.open_boxes().len() > 0 ==> r == Some(&self.open_boxes().last()),
    {
        let n = self.boxes.len();
        if n == 0 {
            None
        } else {
            Some(&self.boxes[n - 1])
        }
    }

    /// Where the next box goes, with its cursor; `None` outside a pass.
    pub fn current_region(&self) -> (r: Option<Region>)
        requires
            self.wf(),
        ensures
            !self.started() ==> r is None,
            self.started() ==> r == Some(self.top()),
    {
        let n = self.frames.len();
        if n == 0 {
            None
        } else {
            Some(self.frames[n - 1].region)
        }
    }

    /// The space left along `dir` where the next box goes; `None` outside a
    /// pass.
    pub fn remaining_space(&self, dir: Direction) -> (r: Option<u16>)
        requires
            self.wf(),
        ensures
            !self.started() ==> r is None,
            self.started() ==> r == Some(remaining(self.top(), dir) as u16),
    {
        match self.current_region() {
            None => None,
            Some(region) => {
                assert(region_wf(self.frames@[self.frames@.len() - 1].region));
                match dir {
                    Direction::Horizontal => Some(region.size.width - region.used.width),
                    Direction::Vertical => Some(region.size.height - region.used.height),
                }
            },
        }
    }

    /// Starts a layout pass over `bounds`. Fails with `LayoutUnbalanced` when
    /// a pass is already open, and with `RangeError` when the bounds leave the
    /// cell coordinates.
    pub fn surface_start(&mut self, bounds: SurfaceBounds) -> (r: Result<(), LayoutError>)
        requires
            old(self).wf(),
        ensures
            final(self).wf(),
            final(self).sheet() == old(self).sheet(),
            old(self).started() ==> r == Err::<(), LayoutError>(LayoutError::LayoutUnbalanced)
                && *final(self) == *old(self),
            !old(self).started() && (bounds.origin.col + bounds.size.width > MAX_CELL
                || bounds.origin.row + bounds.size.height > MAX_CELL) ==> r == Err::<(), LayoutError>(
                LayoutError::RangeError) && *final(self) == *old(self),
            r is Ok <==> !old(self).started() && bounds.origin.col + bounds.size.width <= MAX_CELL
                && bounds.origin.row + bounds.size.height <= MAX_CELL,
            r is Ok ==> {
                &&& final(self).regions() == seq![
                    Region {
                        origin: bounds.origin,
                        size: bounds.size,
                        used: Size { width: 0, height: 0 },
                        used_pc_h: 0,
                        used_pc_v: 0,
                    },
                ]
                &&& final(self).started()
                &&& final(self).open_boxes().len() == 0
                &&& final(self).appended().len() == 0
            },
    {
        if self.frames.len() > 0 {
            return Err(LayoutError::LayoutUnbalanced);
        }
        if bounds.size.width > MAX_CELL - bounds.origin.col || bounds.size.height > MAX_CELL
            - bounds.origin.row {
            return Err(LayoutError::RangeError);
        }
        let region = Region {
            origin: bounds.origin,
            size: bounds.size,
            used: Size { width: 0, height: 0 },
            used_pc_h: 0,
            used_pc_v: 0,
        };
        self.frames.push(Frame { region, entries: Vec::new() });
        proof {
            lemma_flat_push(Seq::<Frame>::empty(), self.frames@[0]);
            assert(self.frames@ =~= Seq::<Frame>::empty().push(self.frames@[0]));
            assert(flat(self.frames@) =~= Seq::<RenderEntry>::empty());
            assert(self.regions() =~= seq![region]);
        }
        Ok(())
    }

    /// Opens a box inside the innermost open box (or the surface). Along
    /// `props.dir` the percentages of the closed siblings laid out that way
    /// plus the requested one must be at most 100, else `SizeOverflow`; the
    /// box then starts at the region's cursor and covers the cells that its
    /// percentage adds, rounded down (see `child_size`). On the other axis it
    /// is its percentage of the region's span. Fails with `LayoutUnbalanced`
    /// outside a pass. A failed call changes nothing.
    pub fn box_start(&mut self, props: FlexBoxProps) -> (r: Result<(), LayoutError>)
        requires
            old(self).wf(),
        ensures
            final(self).wf(),
            final(self).sheet() == old(self).sheet(),
            !old(self).started() ==> r == Err::<(), LayoutError>(LayoutError::LayoutUnbalanced),
            old(self).started() ==> (r is Ok <==> fits(
                old(self).top(),
                props.dir,
                props.requested_size_percent,
            )),
            old(self).started() && r is Err ==> r == Err::<(), LayoutError>(LayoutError::SizeOverflow),
            r is Err ==> *final(self) == *old(self),
            final(self).started() == old(self).started(),
            r is Ok ==> {
                let region = child_region(old(self).top(), props.dir, props.requested_size_percent);
                &&& final(self).regions() == old(self).regions().push(region)
                &&& final(self).open_boxes() == old(self).open_boxes().push(box_of(props, region))
                &&& final(self).appended() == old(self).appended()
            },
    {
        let n = self.frames.len();
        if n == 0 {
            return Err(LayoutError::LayoutUnbalanced);
        }
        let parent = self.frames[n - 1].region;
        assert(parent == old(self).top());
        assert(region_wf(self.frames@[n - 1].region));
        let pw = props.requested_size_percent.width();
        let ph = props.requested_size_percent.height();
        let (origin, width, height) = match props.dir {
            Direction::Horizontal => {
                if parent.used_pc_h as u16 + pw as u16 > 100 {
                    return Err(LayoutError::SizeOverflow);
                }
                let end = resolve_extent(parent.size.width, parent.used_pc_h + pw);
                proof {
                    lemma_extent_monotone(
                        parent.size.width as nat,
                        parent.used_pc_h as nat,
                        (parent.used_pc_h + pw) as nat,
                    );
                }
                (
                    Position { col: parent.origin.col + parent.used.width, row: parent.origin.row },
                    end - parent.used.width,
                    resolve_extent(parent.size.height, ph),
                )
            },
            Direction::Vertical => {
                if parent.used_pc_v as u16 + ph as u16 > 100 {
                    return Err(LayoutError::SizeOverflow);
                }
                let end = resolve_extent(parent.size.height, parent.used_pc_v + ph);
                proof {
                    lemma_extent_monotone(
                        parent.size.height as nat,
                        parent.used_pc_v as nat,
                        (parent.used_pc_v + ph) as nat,
                    );
                }
                (
                    Position { col: parent.origin.col, row: parent.origin.row + parent.used.height },
                    resolve_extent(parent.size.width, pw),
                    end - parent.used.height,
                )
            },
        };
        let region = Region {
            origin,
            size: Size { width, height },
            used: Size { width: 0, height: 0 },
            used_pc_h: 0,
            used_pc_v: 0,
        };
        assert(region == child_region(parent, props.dir, props.requested_size_percent));
        let ghost old_frames = self.frames@;
        self.frames.push(Frame { region, entries: Vec::new() });
        let b = FlexBox {
            id: props.id,
            dir: props.dir,
            origin,
            size: Size { width, height },
            requested_size_percent: props.requested_size_percent,
            maybe_styles: props.maybe_styles,
        };
        self.boxes.push(b);
        proof {
            lemma_flat_push(old_frames, self.frames@.last());
            assert(self.frames@ =~= old_frames.push(self.frames@.last()));
            assert(self.regions() =~= old(self).regions().push(region));
            assert forall|i: int| 0 <= i < self.boxes@.len() implies {
                let b = #[trigger] self.boxes@[i];
                let r = self.frames@[i + 1].region;
                &&& b.origin == r.origin
                &&& b.size == r.size
                &&& fits(self.frames@[i].region, b.dir, b.requested_size_percent)
                &&& b.size == child_size(self.frames@[i].region, b.dir, b.requested_size_percent)
            } by {
                if i < self.boxes@.len() - 1 {
                    assert(self.boxes@[i] == old(self).boxes@[i]);
                }
            }
        }
        Ok(())
    }

    /// Closes the innermost open box and returns it. Its parent's cursor
    /// advances by the box's percentage along the box's direction, and what was
    /// painted inside it now belongs to the parent. Fails with `UnbalancedPop`,
    /// changing nothing, when no box is open.
    pub fn box_end(&mut self) -> (r: Result<FlexBox, LayoutError>)
        requires
            old(self).wf(),
        ensures
            final(self).wf(),
            final(self).sheet() == old(self).sheet(),
            old(self).open_boxes().len() == 0 <==> r is Err,
            r is Err ==> r == Err::<FlexBox, LayoutError>(LayoutError::UnbalancedPop)
                && *final(self) == *old(self),
            r matches Ok(b) ==> {
                let n = old(self).regions().len();
                let parent = old(self).regions()[n - 2];
                &&& b == old(self).open_boxes().last()
                &&& b.origin == old(self).top().origin && b.size == old(self).top().size
                &&& final(self).open_boxes() == old(self).open_boxes().drop_last()
                &&& final(self).regions() == old(self).regions().drop_last().update(
                    n - 2,
                    advanced(parent, b.dir, b.requested_size_percent),
                )
                &&& final(self).appended() == old(self).appended()
                &&& final(self).started()
            },
    {
        if self.boxes.len() == 0 {
            return Err(LayoutError::UnbalancedPop);
        }
        let ghost f0 = self.frames@;
        let ghost n = f0.len();
        let child = self.frames.pop().unwrap();
        let parent = self.frames.pop().unwrap();
        let b = self.boxes.pop().unwrap();
        let Frame { region: pr, entries: mut pentries } = parent;
        let Frame { region: cr, entries: mut centries } = child;
        proof {
            assert(f0[n - 1] == child);
            assert(f0[n - 2] == parent);
            assert(region_wf(f0[n - 2].region));
            assert(b == old(self).boxes@[n - 2]);
        }
        pentries.append(&mut centries);
        let pw = b.requested_size_percent.width();
        let ph = b.requested_size_percent.height();
        proof {
            assert(b.size == child_size(pr, b.dir, b.requested_size_percent));
            assert(fits(pr, b.dir, b.requested_size_percent));
            assert(cr.size == b.size);
            let w = pr.size.width as nat;
            let h = pr.size.height as nat;
            match b.dir {
                Direction::Horizontal => {
                    lemma_extent_monotone(w, pr.used_pc_h as nat, (pr.used_pc_h + pw) as nat);
                    lemma_extent_bounded(w, (pr.used_pc_h + pw) as nat);
                },
                Direction::Vertical => {
                    lemma_extent_monotone(h, pr.used_pc_v as nat, (pr.used_pc_v + ph) as nat);
                    lemma_extent_bounded(h, (pr.used_pc_v + ph) as nat);
                },
            }
        }
        let region = match b.dir {
            Direction::Horizontal => Region {
                used: Size { width: pr.used.width + cr.size.width, height: pr.used.height },
                used_pc_h: pr.used_pc_h + pw,
                ..pr
            },
            Direction::Vertical => Region {
                used: Size { width: pr.used.width, height: pr.used.height + cr.size.height },
                used_pc_v: pr.used_pc_v + ph,
                ..pr
            },
        };
        let ghost rest = self.frames@;
        self.frames.push(Frame { region, entries: pentries });
        proof {
            assert(rest =~= f0.drop_last().drop_last());
            assert(f0.drop_last() =~= rest.push(parent));
            assert(flat(f0) == flat(f0.drop_last()) + child.entries@);
            lemma_flat_push(rest, parent);
            lemma_flat_push(rest, self.frames@.last());
            assert(self.frames@ =~= rest.push(self.frames@.last()));
            assert(flat(rest) + parent.entries@ + child.entries@ =~= flat(rest) + (parent.entries@
                + child.entries@));
            assert(self.regions() =~= old(self).regions().drop_last().update(
                n - 2,
                advanced(pr, b.dir, b.requested_size_percent),
            ));
            assert(self.boxes@ =~= old(self).boxes@.drop_last());
            assert forall|i: int| 0 <= i < self.boxes@.len() implies {
                let b = #[trigger] self.boxes@[i];
                let r = self.frames@[i + 1].region;
                &&& b.origin == r.origin
                &&& b.size == r.size
                &&& fits(self.frames@[i].region, b.dir, b.requested_size_percent)
                &&& b.size == child_size(self.frames@[i].region, b.dir, b.requested_size_percent)
            } by {
                assert(self.boxes@[i] == old(self).boxes@[i]);
                assert(old(self).frames@[i + 1].region == f0[i + 1].region);
                if i + 1 == n - 2 {
                    assert(self.frames@[i + 1].region.origin == f0[i + 1].region.origin);
                }
            }
            assert forall|i: int| 0 <= i < self.frames@.len() implies region_wf(
                #[trigger] self.frames@[i].region,
            ) by {
                if i < n - 2 {
                    assert(self.frames@[i] == f0[i]);
                }
            }
        }
        Ok(b)
    }

    /// Ends the pass and hands back every entry added during it, in order.
    /// Fails with `LayoutUnbalanced`, changing nothing, when a box is still
    /// open or no pass was started.
    pub fn surface_end(&mut self) -> (r: Result<RenderPipeline, LayoutError>)
        requires
            old(self).wf(),
        ensures
            final(self).wf(),
            final(self).sheet() == old(self).sheet(),
            r is Ok <==> old(self).started() && old(self).open_boxes().len() == 0,
            r is Err ==> r == Err::<RenderPipeline, LayoutError>(LayoutError::LayoutUnbalanced)
                && *final(self) == *old(self),
            r matches Ok(p) ==> p.entries@ == old(self).appended() && !final(self).started(),
    {
        if self.frames.len() == 0 || self.boxes.len() > 0 {
            return Err(LayoutError::LayoutUnbalanced);
        }
        let ghost f0 = self.frames@;
        let root = self.frames.pop().unwrap();
        proof {
            assert(f0.drop_last() =~= Seq::<Frame>::empty());
            assert(flat(f0) == flat(f0.drop_last()) + root.entries@);
            assert(flat(f0) =~= root.entries@);
        }
        self.log = Ghost(Seq::empty());
        Ok(RenderPipeline { entries: root.entries })
    }

    /// Adds a paint instruction to the innermost open box (or the surface).
    /// Fails with `LayoutUnbalanced`, changing nothing, outside a pass.
    pub fn add_entry(&mut self, entry: RenderEntry) -> (r: Result<(), LayoutError>)
        requires
            old(self).wf(),
        ensures
            final(self).wf(),
            final(self).sheet() == old(self).sheet(),
            r is Ok <==> old(self).started(),
            final(self).started() == old(self).started(),
            r is Err ==> r == Err::<(), LayoutError>(LayoutError::LayoutUnbalanced)
                && *final(self) == *old(self),
            r is Ok ==> {
                &&& final(self).appended() == old(self).appended().push(entry)
                &&& final(self).regions() == old(self).regions()
                &&& final(self).open_boxes() == old(self).open_boxes()
            },
    {
        let mut tail = Vec::new();
        tail.push(entry);
        self.add_entries(RenderPipeline { entries: tail })
    }

    /// Adds a component's paint instructions, in order, to the innermost open
    /// box (or the surface). Fails with `LayoutUnbalanced`, changing nothing,
    /// outside a pass.
    pub fn add_entries(&mut self, pipeline: RenderPipeline) -> (r: Result<(), LayoutError>)
        requires
            old(self).wf(),
        ensures
            final(self).wf(),
            final(self).sheet() == old(self).sheet(),
            r is Ok <==> old(self).started(),
            final(self).started() == old(self).started(),
            r is Err ==> r == Err::<(), LayoutError>(LayoutError::LayoutUnbalanced)
                && *final(self) == *old(self),
            r is Ok ==> {
                &&& final(self).appended() == old(self).appended() + pipeline.entries@
                &&& final(self).regions() == old(self).regions()
                &&& final(self).open_boxes() == old(self).open_boxes()
            },
    {
        if self.frames.len() == 0 {
            return Err(LayoutError::LayoutUnbalanced);
        }
        let ghost f0 = self.frames@;
        let ghost added = pipeline.entries@;
        let top = self.frames.pop().unwrap();
        let Frame { region, entries: mut entries } = top;
        let mut more = pipeline.entries;
        entries.append(&mut more);
        let ghost rest = self.frames@;
        self.frames.push(Frame { region, entries });
        proof {
            assert(rest =~= f0.drop_last());
            lemma_flat_push(rest, self.frames@.last());
            assert(self.frames@ =~= rest.push(self.frames@.last()));
            assert(flat(rest) + top.entries@ + added =~= flat(rest) + (top.entries@ + added));
            self.log@ = self.log@ + added;
            assert(self.regions() =~= old(self).regions());
            assert forall|i: int| 0 <= i < self.frames@.len() implies region_wf(
                #[trigger] self.frames@[i].region,
            ) by {
                assert(self.frames@[i].region == f0[i].region);
            }
            assert forall|i: int| 0 <= i < self.boxes@.len() implies {
                let b = #[trigger] self.boxes@[i];
                let r = self.frames@[i + 1].region;
                &&& b.origin == r.origin
                &&& b.size == r.size
                &&& fits(self.frames@[i].region, b.dir, b.requested_size_percent)
                &&& b.size == child_size(self.frames@[i].region, b.dir, b.requested_size_percent)
            } by {
                assert(self.frames@[i + 1].region == f0[i + 1].region);
                assert(self.frames@[i].region == f0[i].region);
            }
        }
        Ok(())
    }
}

} // verus!
