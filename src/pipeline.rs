use vstd::prelude::*;
use crate::geometry::Position;
use r3bl_rs_utils_core::Style;

verus! {

/// The layer a paint instruction belongs to; higher layers paint last.
#[derive(Clone, Copy, Debug, PartialEq, Eq, Structural)]
pub enum ZOrder {
    Normal,
    High,
    Glass,
}

/// One paint instruction.
pub enum RenderOp {
    ClearScreen,
    MoveCursor(Position),
    ApplyStyle(Style),
    ResetStyle,
    PaintText(Vec<char>),
    /// Where the caret of the focused input is shown.
    PaintCaret(Position),
}

/// A paint instruction in its layer.
pub struct RenderEntry {
    pub z_order: ZOrder,
    pub op: RenderOp,
}

/// The positions of the entries in layer `z`, in order.
pub open spec fn layer(entries: Seq<RenderEntry>, z: ZOrder) -> Seq<usize>
    decreases entries.len(),
{
    if entries.len() == 0 {
        seq![]
    } else {
        let head = layer(entries.drop_last(), z);
        if entries.last().z_order == z {
            head.push((entries.len() - 1) as usize)
        } else {
            head
        }
    }
}

/// Paint instructions in the order in which they were produced.
pub struct RenderPipeline {
    pub entries: Vec<RenderEntry>,
}

impl RenderPipeline {
    pub fn new() -> (r: RenderPipeline)
        ensures
            r.entries@ == Seq::<RenderEntry>::empty(),
    {
        RenderPipeline { entries: Vec::new() }
    }

    pub fn push(&mut self, z_order: ZOrder, op: RenderOp)
        ensures
            final(self).entries@ == old(self).entries@.push(RenderEntry { z_order, op }),
    {
        self.entries.push(RenderEntry { z_order, op });
    }

    /// Appends the entries of `other` after those of `self`.
    pub fn join(&mut self, other: RenderPipeline)
        ensures
            final(self).entries@ == old(self).entries@ + other.entries@,
    {
        let mut other = other;
        self.entries.append(&mut other.entries);
    }

    /// The positions of the entries in layer `z`, in order.
    pub fn layer_positions(&self, z: ZOrder) -> (r: Vec<usize>)
        ensures
            r@ == layer(self.entries@, z),
    {
        let mut out: Vec<usize> = Vec::new();
        let mut i: usize = 0;
        while i < self.entries.len()
            invariant
                i <= self.entries@.len(),
                out@ == layer(self.entries@.take(i as int), z),
            decreases self.entries@.len() - i,
        {
            proof {
                assert(self.entries@.take(i + 1).drop_last() =~= self.entries@.take(i as int));
            }
            if self.entries[i].z_order == z {
                out.push(i);
            }
            i = i + 1;
        }
        assert(self.entries@.take(self.entries@.len() as int) =~= self.entries@);
        out
    }

    /// The order in which the entries are painted: the normal layer, then the
    /// high one, then the glass one, each in the order produced.
    pub fn paint_order(&self) -> (r: Vec<usize>)
        ensures
            r@ == layer(self.entries@, ZOrder::Normal) + layer(self.entries@, ZOrder::High) + layer(
                self.entries@,
                ZOrder::Glass,
            ),
    {
        let mut order = self.layer_positions(ZOrder::Normal);
        let mut high = self.layer_positions(ZOrder::High);
        let mut glass = self.layer_positions(ZOrder::Glass);
        order.append(&mut high);
        order.append(&mut glass);
        order
    }

    pub fn len(&self) -> (r: usize)
        ensures
            r == self.entries@.len(),
    {
        self.entries.len()
    }
}

} // verus!
