use vstd::prelude::*;
use crate::dialog::{panel_active, DialogBuffer, DialogEngine};
use crate::editor::{min, EditorBuffer, EditorEngine};
use crate::geometry::{LayoutError, Position, Size};
use crate::layout::{FlexBox, SurfaceBounds, MAX_CELL};
use crate::pipeline::{RenderEntry, RenderOp, RenderPipeline, ZOrder};
use crate::text::{copy_chars, rows_view};

verus! {

/// A region an engine can paint in: not empty, and within cell coordinates.
pub open spec fn paintable(origin: Position, size: Size) -> bool {
    &&& size.width > 0
    &&& size.height > 0
    &&& origin.col + size.width <= MAX_CELL
    &&& origin.row + size.height <= MAX_CELL
}

/// The first row an editor shows: its scroll row, moved down just enough for
/// the caret row to be among the `height` rows shown.
pub open spec fn first_shown(row: int, scroll: int, height: int) -> int {
    if row >= scroll + height {
        row + 1 - height
    } else {
        scroll
    }
}

/// The start of a row that fits in `width` cells.
pub open spec fn clipped(line: Seq<char>, width: int) -> Seq<char> {
    line.take(min(line.len() as int, width))
}

/// Moving to the start of the `k`-th line of a region, then painting `line`
/// clipped to the region's width, in layer `z`.
pub open spec fn line_entries(
    entries: Seq<RenderEntry>,
    at: int,
    z: ZOrder,
    origin: Position,
    k: int,
    width: int,
    line: Seq<char>,
) -> bool {
    &&& entries[at] == RenderEntry {
        z_order: z,
        op: RenderOp::MoveCursor(Position { col: origin.col, row: (origin.row + k) as u16 }),
    }
    &&& entries[at + 1].z_order == z
    &&& entries[at + 1].op matches RenderOp::PaintText(v) && v@ == clipped(line, width)
}

/// What an editor paints of `text` with its caret at (`row`, `col`) and
/// `scroll` as its first shown row, in the region at `origin` of `size`: the
/// rows shown, from `first_shown` on, one line each at the region's left edge
/// and clipped to its width; then, when it has focus, the caret, inside the
/// region. It fails with `EngineRenderFailure` when the region is not
/// `paintable`.
pub open spec fn editor_render_ok(
    text: Seq<Seq<char>>,
    row: int,
    col: int,
    scroll: int,
    origin: Position,
    size: Size,
    has_focus: bool,
    r: Result<RenderPipeline, LayoutError>,
) -> bool {
    &&& r is Err <==> !paintable(origin, size)
    &&& r is Err ==> r == Err::<RenderPipeline, LayoutError>(LayoutError::EngineRenderFailure)
    &&& r matches Ok(p) ==> {
        let width = size.width as int;
        let height = size.height as int;
        let first = first_shown(row, scroll, height);
        let count = min(height, text.len() - first);
        &&& 1 <= count <= height
        &&& p.entries@.len() == 2 * count + if has_focus { 1int } else { 0int }
        &&& forall|k: int|
            0 <= k < count ==> #[trigger] line_entries(
                p.entries@,
                2 * k,
                ZOrder::Normal,
                origin,
                k,
                width,
                text[first + k],
            )
        &&& has_focus ==> p.entries@.last() == RenderEntry {
            z_order: ZOrder::High,
            op: RenderOp::PaintCaret(
                Position {
                    col: (origin.col + min(col, width - 1)) as u16,
                    row: (origin.row + row - first) as u16,
                },
            ),
        }
        &&& has_focus ==> origin.col <= origin.col + min(col, width - 1) < origin.col + width
            && origin.row <= origin.row + row - first < origin.row + height
    }
}

fn clip(line: &Vec<char>, width: u16) -> (r: Vec<char>)
    ensures
        r@ == clipped(line@, width as int),
{
    let end = if line.len() <= width as usize {
        line.len()
    } else {
        width as usize
    };
    let r = copy_chars(line, 0, end);
    assert(r@ =~= clipped(line@, width as int));
    r
}

fn push_line(out: &mut Vec<RenderEntry>, z: ZOrder, origin: Position, k: u16, width: u16, line: &Vec<char>)
    requires
        origin.row + k <= MAX_CELL,
    ensures
        final(out)@.len() == old(out)@.len() + 2,
        final(out)@.take(old(out)@.len() as int) == old(out)@,
        line_entries(final(out)@, old(out)@.len() as int, z, origin, k as int, width as int, line@),
{
    let ghost before = out@;
    out.push(
        RenderEntry { z_order: z, op: RenderOp::MoveCursor(Position { col: origin.col, row: origin.row + k }) },
    );
    out.push(RenderEntry { z_order: z, op: RenderOp::PaintText(clip(line, width)) });
    assert(out@.take(before.len() as int) =~= before);
}

impl EditorEngine {
    /// Paints the rows of `buffer` that are shown in `current_box`, from
    /// `first_shown` on, one line each clipped to the box's width; then, when
    /// the editor has focus, the caret. Fails with `EngineRenderFailure` when
    /// the box is not `paintable`.
    pub fn render_engine(&self, buffer: &EditorBuffer, current_box: &FlexBox, has_focus: bool) -> (r:
        Result<RenderPipeline, LayoutError>)
        ensures
            editor_render_ok(
                buffer.text(),
                buffer.row(),
                buffer.col(),
                buffer.scroll(),
                current_box.origin,
                current_box.size,
                has_focus,
                r,
            ),
    {
        let origin = current_box.origin;
        let width = current_box.size.width;
        let height = current_box.size.height;
        if width == 0 || height == 0 || width > MAX_CELL - origin.col || height > MAX_CELL - origin.row {
            return Err(LayoutError::EngineRenderFailure);
        }
        buffer.lemma_valid();
        let rows = buffer.rows();
        let row = buffer.caret_row();
        let col = buffer.caret_col();
        let scroll = buffer.scroll_row();
        let h = height as usize;
        let first = if row - scroll >= h {
            row + 1 - h
        } else {
            scroll
        };
        let count: u16 = if rows.len() - first < h {
            (rows.len() - first) as u16
        } else {
            height
        };
        let mut out: Vec<RenderEntry> = Vec::new();
        let mut k: u16 = 0;
        while k < count
            invariant
                k <= count,
                count as int == min(height as int, rows@.len() - first),
                first + count <= rows@.len(),
                rows@.len() <= usize::MAX,
                count <= height,
                origin.row + height <= MAX_CELL,
                rows_view(rows@) == buffer.text(),
                out@.len() == 2 * k,
                forall|j: int|
                    0 <= j < k ==> #[trigger] line_entries(
                        out@,
                        2 * j,
                        ZOrder::Normal,
                        origin,
                        j,
                        width as int,
                        buffer.text()[first + j],
                    ),
            decreases count - k,
        {
            let ghost before = out@;
            let line = &rows[first + k as usize];
            assert(buffer.text()[first + k] == line@);
            push_line(&mut out, ZOrder::Normal, origin, k, width, line);
            assert forall|j: int| 0 <= j < k + 1 implies #[trigger] line_entries(
                out@,
                2 * j,
                ZOrder::Normal,
                origin,
                j,
                width as int,
                buffer.text()[first + j],
            ) by {
                if j < k {
                    assert(line_entries(
                        before,
                        2 * j,
                        ZOrder::Normal,
                        origin,
                        j,
                        width as int,
                        buffer.text()[first + j],
                    ));
                    assert(out@.take(before.len() as int)[2 * j] == before[2 * j]);
                    assert(out@.take(before.len() as int)[2 * j + 1] == before[2 * j + 1]);
                }
            }
            k = k + 1;
        }
        if has_focus {
            let ghost before = out@;
            let c = if col < width as usize {
                col as u16
            } else {
                width - 1
            };
            let caret = Position { col: origin.col + c, row: origin.row + (row - first) as u16 };
            out.push(RenderEntry { z_order: ZOrder::High, op: RenderOp::PaintCaret(caret) });
            assert forall|j: int| 0 <= j < count implies #[trigger] line_entries(
                out@,
                2 * j,
                ZOrder::Normal,
                origin,
                j,
                width as int,
                buffer.text()[first + j],
            ) by {
                assert(line_entries(
                    before,
                    2 * j,
                    ZOrder::Normal,
                    origin,
                    j,
                    width as int,
                    buffer.text()[first + j],
                ));
                assert(out@[2 * j] == before[2 * j]);
                assert(out@[2 * j + 1] == before[2 * j + 1]);
            }
        }
        Ok(RenderPipeline { entries: out })
    }
}

/// The first result the panel shows: the scroll offset, or the top when the
/// offset lies past the results.
pub open spec fn first_result(scroll: int, n: int) -> int {
    if scroll < n {
        scroll
    } else {
        0
    }
}

/// How many results the panel shows: no more than configured, than fit
/// below the title and the input, or than there are from the first shown.
pub open spec fn results_shown(e: DialogEngine, n: int, height: int) -> int {
    if panel_active(e.dialog_options.mode, n) {
        min(
            min(e.dialog_options.max_visible_results as int, height - 2),
            n - first_result(e.scroll_offset_row_index as int, n),
        )
    } else {
        0
    }
}

/// What a dialog engine `e` paints for `results`, `title` and input `text`
/// over the whole of `bounds`, in the glass layer: the title on the first
/// line, the input's first row on the second, then the results panel's rows
/// shown (see `results_shown`), each at the left edge and clipped to the
/// width, all within the bounds. It fails with `EngineRenderFailure` when the
/// bounds are not `paintable` or hold fewer than two lines.
pub open spec fn dialog_render_ok(
    e: DialogEngine,
    results: Seq<Seq<char>>,
    title: Seq<char>,
    text: Seq<Seq<char>>,
    bounds: SurfaceBounds,
    r: Result<RenderPipeline, LayoutError>,
) -> bool {
    &&& r is Err <==> !paintable(bounds.origin, bounds.size) || bounds.size.height < 2
    &&& r is Err ==> r == Err::<RenderPipeline, LayoutError>(LayoutError::EngineRenderFailure)
    &&& r matches Ok(p) ==> {
        let origin = bounds.origin;
        let width = bounds.size.width as int;
        let height = bounds.size.height as int;
        let n = results.len() as int;
        let count = results_shown(e, n, height);
        let first = first_result(e.scroll_offset_row_index as int, n);
        &&& 0 <= count && count + 2 <= height
        &&& p.entries@.len() == 4 + 2 * count
        &&& line_entries(p.entries@, 0, ZOrder::Glass, origin, 0, width, title)
        &&& line_entries(p.entries@, 2, ZOrder::Glass, origin, 1, width, text[0])
        &&& forall|k: int|
            0 <= k < count ==> #[trigger] line_entries(
                p.entries@,
                4 + 2 * k,
                ZOrder::Glass,
                origin,
                2 + k,
                width,
                results[first + k],
            )
    }
}

impl DialogEngine {
    /// Paints the dialog over the whole of `surface_bounds`, whatever box the
    /// layout gave it, in the glass layer: the title on the first line, the
    /// text input on the second, then the results panel's rows shown (see
    /// `results_shown`), each clipped to the width. Remembers the bounds.
    /// Fails with `EngineRenderFailure` when the bounds are not `paintable`
    /// or hold fewer than two lines.
    pub fn render_engine(&mut self, buffer: &DialogBuffer, surface_bounds: SurfaceBounds) -> (r: Result<
        RenderPipeline,
        LayoutError,
    >)
        ensures
            *final(self) == (DialogEngine { maybe_surface_bounds: Some(surface_bounds), ..*old(self) }),
            dialog_render_ok(
                *old(self),
                rows_view(buffer.results@),
                buffer.title@,
                buffer.editor_buffer.text(),
                surface_bounds,
                r,
            ),
    {
        self.maybe_surface_bounds = Some(surface_bounds);
        let origin = surface_bounds.origin;
        let width = surface_bounds.size.width;
        let height = surface_bounds.size.height;
        if width == 0 || height < 2 || width > MAX_CELL - origin.col || height > MAX_CELL - origin.row {
            return Err(LayoutError::EngineRenderFailure);
        }
        let mut out: Vec<RenderEntry> = Vec::new();
        push_line(&mut out, ZOrder::Glass, origin, 0, width, &buffer.title);
        buffer.editor_buffer.lemma_valid();
        let rows = buffer.editor_buffer.rows();
        assert(rows_view(rows@)[0] == rows@[0]@);
        let ghost head = out@;
        push_line(&mut out, ZOrder::Glass, origin, 1, width, &rows[0]);
        assert(out@.take(2)[0] == head[0] && out@.take(2)[1] == head[1]);
        let n = buffer.results.len();
        let active = match self.dialog_options.mode {
            crate::dialog::DialogEngineMode::ModalAutocomplete => n > 0,
            crate::dialog::DialogEngineMode::ModalSimple => false,
        };
        let first = if self.scroll_offset_row_index < n {
            self.scroll_offset_row_index
        } else {
            0
        };
        let count: u16 = if !active {
            0
        } else {
            let fit = if self.dialog_options.max_visible_results < height - 2 {
                self.dialog_options.max_visible_results
            } else {
                height - 2
            };
            if n - first < fit as usize {
                (n - first) as u16
            } else {
                fit
            }
        };
        assert(count as int == results_shown(*old(self), n as int, height as int));
        let mut k: u16 = 0;
        while k < count
            invariant
                k <= count,
                count + 2 <= height,
                first + count <= buffer.results@.len(),
                buffer.results@.len() <= usize::MAX,
                origin.row + height <= MAX_CELL,
                out@.len() == 4 + 2 * k,
                line_entries(out@, 0, ZOrder::Glass, origin, 0, width as int, buffer.title@),
                line_entries(out@, 2, ZOrder::Glass, origin, 1, width as int, buffer.editor_buffer.text()[0]),
                forall|j: int|
                    0 <= j < k ==> #[trigger] line_entries(
                        out@,
                        4 + 2 * j,
                        ZOrder::Glass,
                        origin,
                        2 + j,
                        width as int,
                        rows_view(buffer.results@)[first + j],
                    ),
            decreases count - k,
        {
            let ghost before = out@;
            assert(rows_view(buffer.results@)[first + k] == buffer.results@[first + k]@);
            push_line(&mut out, ZOrder::Glass, origin, 2 + k, width, &buffer.results[first + k as usize]);
            assert(out@.take(before.len() as int)[0] == before[0]);
            assert(out@.take(before.len() as int)[1] == before[1]);
            assert(out@.take(before.len() as int)[2] == before[2]);
            assert(out@.take(before.len() as int)[3] == before[3]);
            assert forall|j: int| 0 <= j < k + 1 implies #[trigger] line_entries(
                out@,
                4 + 2 * j,
                ZOrder::Glass,
                origin,
                2 + j,
                width as int,
                rows_view(buffer.results@)[first + j],
            ) by {
                if j < k {
                    assert(line_entries(
                        before,
                        4 + 2 * j,
                        ZOrder::Glass,
                        origin,
                        2 + j,
                        width as int,
                        rows_view(buffer.results@)[first + j],
                    ));
                    assert(out@.take(before.len() as int)[4 + 2 * j] == before[4 + 2 * j]);
                    assert(out@.take(before.len() as int)[5 + 2 * j] == before[5 + 2 * j]);
                }
            }
            k = k + 1;
        }
        Ok(RenderPipeline { entries: out })
    }
}

} // verus!
