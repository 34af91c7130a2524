use vstd::prelude::*;

verus! {

/// Identity of a box, and of the component rendered into it.
pub type FlexBoxId = u8;

/// An absolute position in terminal cells.
#[derive(Clone, Copy, Debug, PartialEq, Eq, Structural)]
pub struct Position {
    pub col: u16,
    pub row: u16,
}

/// A size in terminal cells.
#[derive(Clone, Copy, Debug, PartialEq, Eq, Structural)]
pub struct Size {
    pub width: u16,
    pub height: u16,
}

/// The axis along which a box starts at its parent's cursor, whose running
/// percentage it must not take past 100, and along which that cursor advances
/// once the box is closed.
#[derive(Clone, Copy, Debug, PartialEq, Eq, Structural)]
pub enum Direction {
    Horizontal,
    Vertical,
}

/// Errors of the layout engine and of the engines that render into it.
#[derive(Clone, Copy, Debug, PartialEq, Eq, Structural)]
pub enum LayoutError {
    /// A malformed percentage or geometry.
    RangeError,
    /// A box does not fit in its parent's remaining space.
    SizeOverflow,
    /// `box_end` with no open box.
    UnbalancedPop,
    /// Surface scopes that do not pair up.
    LayoutUnbalanced,
    /// An engine was asked to render into a region it cannot use.
    EngineRenderFailure,
}

/// A pair of percentages, each in `0..=100`.
pub struct PercentSize {
    width_pc: u8,
    height_pc: u8,
}

impl PercentSize {
    #[verifier::type_invariant]
    spec fn valid(self) -> bool {
        self.width_pc <= 100 && self.height_pc <= 100
    }

    pub closed spec fn width_spec(self) -> nat {
        self.width_pc as nat
    }

    pub closed spec fn height_spec(self) -> nat {
        self.height_pc as nat
    }

    /// The percentage along the given axis.
    pub open spec fn along(self, dir: Direction) -> nat {
        match dir {
            Direction::Horizontal => self.width_spec(),
            Direction::Vertical => self.height_spec(),
        }
    }

    /// Builds the pair, failing with `RangeError` when a component lies
    /// outside `0..=100`.
    pub fn try_new(width_pc: i64, height_pc: i64) -> (r: Result<PercentSize, LayoutError>)
        ensures
            (0 <= width_pc <= 100 && 0 <= height_pc <= 100) <==> r is Ok,
            r is Err ==> r == Err::<PercentSize, LayoutError>(LayoutError::RangeError),
            r matches Ok(p) ==> p.width_spec() == width_pc && p.height_spec() == height_pc,
    {
        if 0 <= width_pc && width_pc <= 100 && 0 <= height_pc && height_pc <= 100 {
            Ok(PercentSize { width_pc: width_pc as u8, height_pc: height_pc as u8 })
        } else {
            Err(LayoutError::RangeError)
        }
    }

    pub fn width(&self) -> (r: u8)
        ensures
            r == self.width_spec(),
            r <= 100,
    {
        proof {
            use_type_invariant(self);
        }
        self.width_pc
    }

    pub fn height(&self) -> (r: u8)
        ensures
            r == self.height_spec(),
            r <= 100,
    {
        proof {
            use_type_invariant(self);
        }
        self.height_pc
    }

    pub fn copy(&self) -> (r: PercentSize)
        ensures
            r.width_spec() == self.width_spec(),
            r.height_spec() == self.height_spec(),
    {
        proof {
            use_type_invariant(self);
        }
        PercentSize { width_pc: self.width_pc, height_pc: self.height_pc }
    }
}

/// The part of `span` that `pc` percent of it takes, rounded down.
pub open spec fn extent(span: nat, pc: nat) -> nat {
    span * pc / 100
}

/// `pc` percent of a span never exceeds the span.
pub proof fn lemma_extent_bounded(span: nat, pc: nat)
    requires
        pc <= 100,
    ensures
        extent(span, pc) <= span,
{
    assert(span * pc <= span * 100) by (nonlinear_arith)
        requires
            pc <= 100,
    ;
    assert(span * pc / 100 <= span) by (nonlinear_arith)
        requires
            span * pc <= span * 100,
    ;
}

/// A larger percentage never takes less of a span.
pub proof fn lemma_extent_monotone(span: nat, a: nat, b: nat)
    requires
        a <= b,
    ensures
        extent(span, a) <= extent(span, b),
{
    assert(span * a <= span * b) by (nonlinear_arith)
        requires
            a <= b,
    ;
    assert(span * a / 100 <= span * b / 100) by (nonlinear_arith)
        requires
            span * a <= span * b,
    ;
}

/// Computes `extent(span, pc)`.
pub fn resolve_extent(span: u16, pc: u8) -> (r: u16)
    requires
        pc <= 100,
    ensures
        r == extent(span as nat, pc as nat),
        r <= span,
{
    proof {
        lemma_extent_bounded(span as nat, pc as nat);
        assert((span as u32) * (pc as u32) <= 65535 * 100) by (nonlinear_arith)
            requires
                span <= 65535,
                pc <= 100,
        ;
    }
    let product: u32 = (span as u32) * (pc as u32);
    (product / 100) as u16
}

} // verus!
