use vstd::prelude::*;
use crate::editor::{edit_event, min, ApplyResponse, EditorBuffer, EditorEngine, EditorEngineConfig};
use crate::input::{InputEvent, Key};
use crate::layout::SurfaceBounds;
use crate::text::{copy_chars, rows_view};

verus! {

/// How a dialog behaves.
#[derive(Clone, Copy, Debug, PartialEq, Eq, Structural)]
pub enum DialogEngineMode {
    /// A prompt with a text input.
    ModalSimple,
    /// A prompt with a text input and a list of results to pick from.
    ModalAutocomplete,
}

/// Options fixed when a dialog engine is made.
#[derive(Clone, Copy, Debug, PartialEq, Eq, Structural)]
pub struct DialogEngineConfigOptions {
    pub mode: DialogEngineMode,
    /// How many results the results panel shows at once.
    pub max_visible_results: u16,
}

/// The state of one dialog: its input, its title and its results.
pub struct DialogBuffer {
    pub editor_buffer: EditorBuffer,
    pub title: Vec<char>,
    pub results: Vec<Vec<char>>,
}

/// A dialog buffer as plain values: its results, its title, and its text
/// input's text, caret row, caret column and scroll row.
pub type DialogView = (Seq<Seq<char>>, Seq<char>, Seq<Seq<char>>, int, int, int);

pub open spec fn dialog_view_of(b: DialogBuffer) -> DialogView {
    (
        rows_view(b.results@),
        b.title@,
        b.editor_buffer.text(),
        b.editor_buffer.row(),
        b.editor_buffer.col(),
        b.editor_buffer.scroll(),
    )
}

/// The view of `DialogBuffer::new_empty()`.
pub open spec fn empty_dialog_view() -> DialogView {
    (seq![], seq![], seq![Seq::<char>::empty()], 0, 0, 0)
}

impl DialogBuffer {
    pub fn new_empty() -> (r: DialogBuffer)
        ensures
            dialog_view_of(r) == empty_dialog_view(),
    {
        let r = DialogBuffer { editor_buffer: EditorBuffer::new_empty(), title: Vec::new(), results: Vec::new() };
        assert(rows_view(r.results@) =~= Seq::<Seq<char>>::empty());
        assert(r.title@ =~= Seq::<char>::empty());
        r
    }
}

/// What the user decided.
pub enum DialogChoice {
    /// Confirmed, with the text entered or the result picked.
    Yes(Vec<char>),
    /// Cancelled.
    No,
}

/// What a dialog engine made of an event.
pub enum DialogEngineApplyResponse {
    /// The text input changed: its new buffer.
    UpdateEditorBuffer(EditorBuffer),
    /// The user confirmed or cancelled.
    DialogChoice(DialogChoice),
    /// The selection in the results panel moved.
    SelectScrollResultsPanel,
    /// The event means nothing to the dialog.
    Noop,
}

/// The reusable dialog algorithm: its options, the editor engine of its text
/// input, where it may paint, and the results panel's selection and scroll.
pub struct DialogEngine {
    pub dialog_options: DialogEngineConfigOptions,
    pub editor_engine: EditorEngine,
    pub maybe_surface_bounds: Option<SurfaceBounds>,
    pub selected_row_index: usize,
    pub scroll_offset_row_index: usize,
}

/// Whether the results panel takes Enter, Up and Down.
pub open spec fn panel_active(mode: DialogEngineMode, n_results: int) -> bool {
    mode is ModalAutocomplete && n_results > 0
}

/// The selection, kept within `n` results.
pub open spec fn clamped(sel: int, n: int) -> int {
    if sel < n {
        sel
    } else {
        n - 1
    }
}

/// The selection after Up (`up`) or Down among `n` results.
pub open spec fn moved(sel: int, n: int, up: bool) -> int {
    let s = clamped(sel, n);
    if up {
        if s > 0 {
            s - 1
        } else {
            0
        }
    } else {
        if s + 1 < n {
            s + 1
        } else {
            s
        }
    }
}

/// The first result shown, so that `sel` stays among the `visible` shown.
pub open spec fn scrolled(scroll: int, sel: int, visible: int) -> int {
    if sel < scroll {
        sel
    } else if visible > 0 && sel >= scroll + visible {
        sel + 1 - visible
    } else {
        scroll
    }
}

/// What Enter confirms among `results`, with `text` in the input: the
/// selected result when the panel is active, else the input's first row.
pub open spec fn confirmed_in(e: DialogEngine, results: Seq<Seq<char>>, text: Seq<Seq<char>>) -> Seq<
    char,
> {
    if panel_active(e.dialog_options.mode, results.len() as int) {
        results[clamped(e.selected_row_index as int, results.len() as int)]
    } else {
        text[0]
    }
}

/// `confirmed_in` for the results and input of `b`.
pub open spec fn confirmed_text(e: DialogEngine, b: DialogBuffer) -> Seq<char> {
    confirmed_in(e, rows_view(b.results@), b.editor_buffer.text())
}

impl DialogEngine {
    pub fn new(dialog_options: DialogEngineConfigOptions, editor_options: EditorEngineConfig) -> (r:
        DialogEngine)
        ensures
            r.dialog_options == dialog_options,
            r.editor_engine.config == editor_options,
            r.maybe_surface_bounds is None,
            r.selected_row_index == 0,
            r.scroll_offset_row_index == 0,
    {
        DialogEngine {
            dialog_options,
            editor_engine: EditorEngine::new(editor_options),
            maybe_surface_bounds: None,
            selected_row_index: 0,
            scroll_offset_row_index: 0,
        }
    }

    /// Forgets the results panel's selection and scroll.
    pub fn reset(&mut self)
        ensures
            *final(self) == (DialogEngine {
                selected_row_index: 0,
                scroll_offset_row_index: 0,
                ..*old(self)
            }),
    {
        self.selected_row_index = 0;
        self.scroll_offset_row_index = 0;
    }

    /// Applies `event` to the dialog: Escape cancels and Enter confirms (see
    /// `confirmed_text`); Up and Down move the selection while the results
    /// panel is active; anything else goes to the text input's editor engine.
    /// Only Up and Down change the engine.
    pub fn apply_event(&mut self, buffer: &DialogBuffer, event: &InputEvent) -> (r:
        DialogEngineApplyResponse)
        ensures
            ({
                let n = buffer.results@.len() as int;
                let active = panel_active(old(self).dialog_options.mode, n);
                let sel = old(self).selected_row_index as int;
                match *event {
                    InputEvent::Keyboard(Key::Escape) => r == DialogEngineApplyResponse::DialogChoice(
                        DialogChoice::No,
                    ) && *final(self) == *old(self),
                    InputEvent::Keyboard(Key::Enter) => (r matches DialogEngineApplyResponse::DialogChoice(
                        DialogChoice::Yes(v),
                    ) && v@ == confirmed_text(*old(self), *buffer)) && *final(self) == *old(self),
                    InputEvent::Keyboard(Key::Up) if active => {
                        &&& r is SelectScrollResultsPanel
                        &&& final(self).selected_row_index == moved(sel, n, true)
                        &&& final(self).scroll_offset_row_index == scrolled(
                            old(self).scroll_offset_row_index as int,
                            moved(sel, n, true),
                            old(self).dialog_options.max_visible_results as int,
                        )
                        &&& *final(self) == (DialogEngine {
                            selected_row_index: final(self).selected_row_index,
                            scroll_offset_row_index: final(self).scroll_offset_row_index,
                            ..*old(self)
                        })
                    },
                    InputEvent::Keyboard(Key::Down) if active => {
                        &&& r is SelectScrollResultsPanel
                        &&& final(self).selected_row_index == moved(sel, n, false)
                        &&& final(self).scroll_offset_row_index == scrolled(
                            old(self).scroll_offset_row_index as int,
                            moved(sel, n, false),
                            old(self).dialog_options.max_visible_results as int,
                        )
                        &&& *final(self) == (DialogEngine {
                            selected_row_index: final(self).selected_row_index,
                            scroll_offset_row_index: final(self).scroll_offset_row_index,
                            ..*old(self)
                        })
                    },
                    _ => {
                        let e = edit_event(
                            buffer.editor_buffer,
                            old(self).editor_engine.config.multiline,
                            *event,
                        );
                        &&& *final(self) == *old(self)
                        &&& (e is None <==> r is Noop)
                        &&& r matches DialogEngineApplyResponse::UpdateEditorBuffer(b) ==> {
                            &&& e == Some((b.text(), b.row(), b.col()))
                            &&& b.scroll() == min(buffer.editor_buffer.scroll(), b.row())
                        }
                        &&& (r is UpdateEditorBuffer || r is Noop)
                    },
                }
            }),
    {
        let n = buffer.results.len();
        let active = match self.dialog_options.mode {
            DialogEngineMode::ModalAutocomplete => n > 0,
            DialogEngineMode::ModalSimple => false,
        };
        let sel = if self.selected_row_index < n {
            self.selected_row_index
        } else if n > 0 {
            n - 1
        } else {
            0
        };
        let key = match event {
            InputEvent::Keyboard(k) => Some(*k),
            _ => None,
        };
        if key == Some(Key::Escape) {
            return DialogEngineApplyResponse::DialogChoice(DialogChoice::No);
        }
        if key == Some(Key::Enter) {
            let text = if active {
                let item = &buffer.results[sel];
                copy_chars(item, 0, item.len())
            } else {
                buffer.editor_buffer.lemma_valid();
                let rows = buffer.editor_buffer.rows();
                let first = &rows[0];
                assert(rows_view(rows@)[0] == first@);
                copy_chars(first, 0, first.len())
            };
            proof {
                if active {
                    assert(buffer.results@[sel as int]@.subrange(0, buffer.results@[sel as int]@.len() as int)
                        =~= buffer.results@[sel as int]@);
                } else {
                    let f = buffer.editor_buffer.text()[0];
                    assert(f.subrange(0, f.len() as int) =~= f);
                }
            }
            return DialogEngineApplyResponse::DialogChoice(DialogChoice::Yes(text));
        }
        if active && key == Some(Key::Up) {
            let next = if sel > 0 {
                sel - 1
            } else {
                0
            };
            self.select(next);
            return DialogEngineApplyResponse::SelectScrollResultsPanel;
        }
        if active && key == Some(Key::Down) {
            let next = if sel + 1 < n {
                sel + 1
            } else {
                sel
            };
            self.select(next);
            return DialogEngineApplyResponse::SelectScrollResultsPanel;
        }
        match self.editor_engine.apply_event(&buffer.editor_buffer, event) {
            ApplyResponse::Applied(b) => DialogEngineApplyResponse::UpdateEditorBuffer(b),
            ApplyResponse::NotApplied => DialogEngineApplyResponse::Noop,
        }
    }

    fn select(&mut self, sel: usize)
        ensures
            final(self).selected_row_index == sel,
            final(self).scroll_offset_row_index == scrolled(
                old(self).scroll_offset_row_index as int,
                sel as int,
                old(self).dialog_options.max_visible_results as int,
            ),
            *final(self) == (DialogEngine {
                selected_row_index: final(self).selected_row_index,
                scroll_offset_row_index: final(self).scroll_offset_row_index,
                ..*old(self)
            }),
    {
        let visible = self.dialog_options.max_visible_results as usize;
        let scroll = self.scroll_offset_row_index;
        if sel < scroll {
            self.scroll_offset_row_index = sel;
        } else if visible > 0 && sel - scroll >= visible {
            self.scroll_offset_row_index = sel - (visible - 1);
        }
        self.selected_row_index = sel;
    }
}

} // verus!
