use vstd::prelude::*;
use std::sync::Arc;
use tokio::sync::RwLock;
use crate::dialog::{
    confirmed_in, dialog_view_of, empty_dialog_view, DialogView, moved, panel_active, scrolled, DialogBuffer, DialogChoice, DialogEngine,
    DialogEngineApplyResponse, DialogEngineConfigOptions,
};
use crate::editor::{
    edit_in, min, ApplyResponse, EditorBuffer, EditorEngine, EditorEngineConfig,
};
use crate::focus::{ComponentRegistry, HasFocus};
use crate::geometry::{FlexBoxId, LayoutError};
use crate::layout::{FlexBox, SurfaceBounds};
use crate::pipeline::RenderPipeline;
use crate::render::{dialog_render_ok, editor_render_ok};
use crate::input::{EventPropagation, InputEvent, Key};

verus! {

#[verifier::external_type_specification]
#[verifier::external_body]
#[verifier::reject_recursive_types(T)]
pub struct ExRwLock<T: ?Sized>(RwLock<T>);

/// Relies on tokio::sync::RwLock::new: an unlocked lock around the value;
/// it does not panic.
#[verifier::external_body]
fn new_lock<T>(value: T) -> RwLock<T> {
    RwLock::new(value)
}

/// Implemented by application state that holds editor buffers by component
/// id.
pub trait HasEditorBuffers {
    /// The buffer that the state holds for `id`.
    spec fn editor_buffer_of(&self, id: FlexBoxId) -> Option<EditorBuffer>;

    fn get_editor_buffer(&self, id: FlexBoxId) -> (r: Option<&EditorBuffer>)
        ensures
            r is None <==> self.editor_buffer_of(id) is None,
            r matches Some(b) ==> self.editor_buffer_of(id) == Some(*b),
    ;
}

/// The text, caret row, caret column and scroll row of the buffer `state`
/// holds for `id`, or of an empty buffer when it holds none.
pub open spec fn editor_view<S: HasEditorBuffers>(state: &S, id: FlexBoxId) -> (
    Seq<Seq<char>>,
    int,
    int,
    int,
) {
    match state.editor_buffer_of(id) {
        Some(b) => (b.text(), b.row(), b.col(), b.scroll()),
        None => (seq![Seq::<char>::empty()], 0, 0, 0),
    }
}

/// What an editor component decides for `event` on a buffer with `text`,
/// caret (`row`, `col`) and `scroll`: an edit (see `edit_in`) is consumed,
/// and asks for a re-render when it changes the number of rows; its buffer
/// goes to the handler when there is one. Anything else propagates and
/// calls nothing.
pub open spec fn editor_outcome(
    text: Seq<Seq<char>>,
    row: int,
    col: int,
    scroll: int,
    multiline: bool,
    has_handler: bool,
    event: InputEvent,
    r: EditorEventOutcome,
) -> bool {
    let e = edit_in(text, row, col, multiline, event);
    &&& e is None ==> r.propagation == EventPropagation::Propagate && r.buffer_change is None
    &&& e matches Some(t) ==> r.propagation == (if t.0.len() == text.len() {
        EventPropagation::Consumed
    } else {
        EventPropagation::ConsumedRender
    }) && (r.buffer_change is Some <==> has_handler)
    &&& r.buffer_change matches Some(b) ==> e == Some((b.text(), b.row(), b.col())) && b.scroll() == min(
        scroll,
        b.row(),
    )
}

/// Implemented by application state that holds dialog buffers by component
/// id.
pub trait HasDialogBuffers {
    /// The buffer that the state holds for `id`.
    spec fn dialog_buffer_of(&self, id: FlexBoxId) -> Option<DialogBuffer>;

    fn get_dialog_buffer(&self, id: FlexBoxId) -> (r: Option<&DialogBuffer>)
        ensures
            r is None <==> self.dialog_buffer_of(id) is None,
            r matches Some(b) ==> self.dialog_buffer_of(id) == Some(*b),
    ;
}

/// The view of the buffer `state` holds for `id`, or of an empty buffer when
/// it holds none.
pub open spec fn dialog_state_view<S: HasDialogBuffers>(state: &S, id: FlexBoxId) -> DialogView {
    match state.dialog_buffer_of(id) {
        Some(b) => dialog_view_of(b),
        None => empty_dialog_view(),
    }
}

/// What handling an event in an editor component decided.
pub struct EditorEventOutcome {
    pub propagation: EventPropagation,
    /// The buffer to hand, once, to the buffer-change handler.
    pub buffer_change: Option<EditorBuffer>,
}

/// A component that drives an editor engine; `F` is its buffer-change
/// handler, which the event loop runs with what `buffer_change` holds.
pub struct EditorComponent<F> {
    pub engine: EditorEngine,
    pub id: FlexBoxId,
    pub on_editor_buffer_change_handler: Option<F>,
}

impl<F> EditorComponent<F> {
    pub fn new(id: FlexBoxId, config_options: EditorEngineConfig, on_buffer_change: F) -> (r: Self)
        ensures
            r.id == id,
            r.engine.config == config_options,
            r.on_editor_buffer_change_handler == Some(on_buffer_change),
    {
        EditorComponent {
            engine: EditorEngine::new(config_options),
            id,
            on_editor_buffer_change_handler: Some(on_buffer_change),
        }
    }

    /// The component behind a lock, to be shared between tasks.
    pub fn new_shared(id: FlexBoxId, config_options: EditorEngineConfig, on_buffer_change: F) -> Arc<
        RwLock<Self>,
    > {
        Arc::new(new_lock(EditorComponent::new(id, config_options, on_buffer_change)))
    }

    pub fn get_id(&self) -> (r: FlexBoxId)
        ensures
            r == self.id,
    {
        self.id
    }

    /// Applies `input_event` to `buffer`, as `editor_outcome` says.
    pub fn apply_to_buffer(&self, buffer: &EditorBuffer, input_event: &InputEvent) -> (r:
        EditorEventOutcome)
        ensures
            editor_outcome(
                buffer.text(),
                buffer.row(),
                buffer.col(),
                buffer.scroll(),
                self.engine.config.multiline,
                self.on_editor_buffer_change_handler is Some,
                *input_event,
                r,
            ),
    {
        match self.engine.apply_event(buffer, input_event) {
            ApplyResponse::Applied(b) => {
                let propagation = if b.rows().len() == buffer.rows().len() {
                    EventPropagation::Consumed
                } else {
                    EventPropagation::ConsumedRender
                };
                let buffer_change = if self.on_editor_buffer_change_handler.is_some() {
                    Some(b)
                } else {
                    None
                };
                EditorEventOutcome { propagation, buffer_change }
            },
            ApplyResponse::NotApplied => EditorEventOutcome {
                propagation: EventPropagation::Propagate,
                buffer_change: None,
            },
        }
    }

    /// Applies `input_event` to this component's buffer in `state`, or to an
    /// empty buffer when `state` holds none, as `editor_outcome` says.
    pub fn handle_event<S: HasEditorBuffers>(&self, state: &S, input_event: &InputEvent) -> (r:
        EditorEventOutcome)
        ensures
            ({
                let (text, row, col, scroll) = editor_view(state, self.id);
                editor_outcome(
                    text,
                    row,
                    col,
                    scroll,
                    self.engine.config.multiline,
                    self.on_editor_buffer_change_handler is Some,
                    *input_event,
                    r,
                )
            }),
    {
        match state.get_editor_buffer(self.id) {
            Some(buffer) => self.apply_to_buffer(buffer, input_event),
            None => {
                let empty = EditorBuffer::new_empty();
                self.apply_to_buffer(&empty, input_event)
            },
        }
    }
}

impl<F> EditorComponent<F> {
    /// Paints this component's buffer in `state` (an empty one when there is
    /// none) into `current_box`, as `editor_render_ok` says; the caret is
    /// painted, last, exactly when the registry routes input to this
    /// component.
    pub fn render<S: HasEditorBuffers>(
        &self,
        component_registry: &ComponentRegistry,
        state: &S,
        current_box: &FlexBox,
    ) -> (r: Result<RenderPipeline, LayoutError>)
        ensures
            ({
                let (text, row, col, scroll) = editor_view(state, self.id);
                editor_render_ok(
                    text,
                    row,
                    col,
                    scroll,
                    current_box.origin,
                    current_box.size,
                    component_registry.has_focus.routed() == Some(self.id),
                    r,
                )
            }),
            r matches Ok(p) ==> p.entries@.len() > 0 && (p.entries@.last().op is PaintCaret
                <==> component_registry.has_focus.routed() == Some(self.id)),
    {
        let has_focus = component_registry.has_focus.does_id_have_focus(self.id);
        let empty = EditorBuffer::new_empty();
        let buffer = match state.get_editor_buffer(self.id) {
            Some(b) => b,
            None => &empty,
        };
        buffer.lemma_valid();
        let r = self.engine.render_engine(buffer, current_box, has_focus);
        proof {
            if r is Ok {
                let p = r->Ok_0;
                let height = current_box.size.height as int;
                let first = crate::render::first_shown(buffer.row(), buffer.scroll(), height);
                let count = min(height, buffer.text().len() - first);
                assert(count >= 1);
                if !has_focus {
                    let k = count - 1;
                    assert(crate::render::line_entries(
                        p.entries@,
                        2 * k,
                        crate::pipeline::ZOrder::Normal,
                        current_box.origin,
                        k,
                        current_box.size.width as int,
                        buffer.text()[first + k],
                    ));
                    assert(p.entries@.last() == p.entries@[2 * k + 1]);
                }
            }
        }
        r
    }
}

/// What a dialog component asks the event loop to tell its handlers.
pub enum DialogNotification {
    Nothing,
    /// Run the press handler with the user's choice.
    Press(DialogChoice),
    /// Run the editor-change handler with the text input's new buffer.
    EditorChange(EditorBuffer),
}

/// What handling an event in a dialog component decided.
pub struct DialogEventOutcome {
    pub propagation: EventPropagation,
    pub notification: DialogNotification,
}

pub open spec fn is_key(event: InputEvent, key: Key) -> bool {
    event == InputEvent::Keyboard(key)
}

/// What a dialog component decides for `event`, with engine `eng` before and
/// `eng1` after, focus `f0` before and `f1` after, over a buffer with
/// `results` and an input with `text`, caret (`row`, `col`) and `scroll`.
/// Escape and Enter resolve the dialog: modal focus is cleared, the choice
/// (No for Escape, `confirmed_in` for Enter) goes to the press handler when
/// there is one, and the screen is rendered again. Up and Down in an active
/// results panel move the selection and re-render. An edit of the input (see
/// `edit_in`) is consumed and its buffer goes to the editor-change handler
/// when there is one. Anything else propagates. Only Escape and Enter touch
/// focus, and only Up and Down touch the engine.
pub open spec fn dialog_outcome(
    eng: DialogEngine,
    eng1: DialogEngine,
    f0: HasFocus,
    f1: HasFocus,
    results: Seq<Seq<char>>,
    text: Seq<Seq<char>>,
    row: int,
    col: int,
    scroll: int,
    has_press: bool,
    has_change: bool,
    event: InputEvent,
    r: DialogEventOutcome,
) -> bool {
    let n = results.len() as int;
    let resolves = is_key(event, Key::Escape) || is_key(event, Key::Enter);
    let selects = panel_active(eng.dialog_options.mode, n) && (is_key(event, Key::Up) || is_key(
        event,
        Key::Down,
    ));
    let e = edit_in(text, row, col, eng.editor_engine.config.multiline, event);
    &&& resolves ==> {
        &&& r.propagation == EventPropagation::ConsumedRender
        &&& f1 == f0.without_modal()
        &&& eng1 == eng
        &&& (r.notification is Press <==> has_press)
        &&& (r.notification is Press || r.notification is Nothing)
        &&& is_key(event, Key::Escape) && r.notification is Press ==> r.notification
            == DialogNotification::Press(DialogChoice::No)
        &&& is_key(event, Key::Enter) && r.notification is Press ==> (
        r.notification matches DialogNotification::Press(DialogChoice::Yes(v)) && v@ == confirmed_in(
            eng,
            results,
            text,
        ))
    }
    &&& !resolves ==> f1 == f0
    &&& selects ==> {
        let sel = moved(eng.selected_row_index as int, n, is_key(event, Key::Up));
        &&& r.propagation == EventPropagation::ConsumedRender
        &&& r.notification is Nothing
        &&& eng1 == (DialogEngine {
            selected_row_index: sel as usize,
            scroll_offset_row_index: scrolled(
                eng.scroll_offset_row_index as int,
                sel,
                eng.dialog_options.max_visible_results as int,
            ) as usize,
            ..eng
        })
    }
    &&& !resolves && !selects ==> {
        &&& eng1 == eng
        &&& e is None ==> r.propagation == EventPropagation::Propagate && r.notification is Nothing
        &&& e is Some ==> r.propagation == EventPropagation::Consumed && (r.notification is EditorChange
            <==> has_change)
        &&& (r.notification is EditorChange || r.notification is Nothing)
        &&& r.notification matches DialogNotification::EditorChange(b) ==> e == Some(
            (b.text(), b.row(), b.col()),
        ) && b.scroll() == min(scroll, b.row())
    }
}

/// A component that drives a dialog engine; `P` is its press handler and `C`
/// its editor-change handler, which the event loop runs as told.
pub struct DialogComponent<P, C> {
    pub id: FlexBoxId,
    pub dialog_engine: DialogEngine,
    pub on_dialog_press_handler: Option<P>,
    pub on_dialog_editor_change_handler: Option<C>,
}

impl<P, C> DialogComponent<P, C> {
    pub fn new(
        id: FlexBoxId,
        dialog_options: DialogEngineConfigOptions,
        editor_options: EditorEngineConfig,
        on_dialog_press_handler: P,
        on_dialog_editor_change_handler: C,
    ) -> (r: Self)
        ensures
            r.id == id,
            r.dialog_engine.dialog_options == dialog_options,
            r.dialog_engine.editor_engine.config == editor_options,
            r.dialog_engine.maybe_surface_bounds is None,
            r.dialog_engine.selected_row_index == 0,
            r.dialog_engine.scroll_offset_row_index == 0,
            r.on_dialog_press_handler == Some(on_dialog_press_handler),
            r.on_dialog_editor_change_handler == Some(on_dialog_editor_change_handler),
    {
        DialogComponent {
            dialog_engine: DialogEngine::new(dialog_options, editor_options),
            id,
            on_dialog_press_handler: Some(on_dialog_press_handler),
            on_dialog_editor_change_handler: Some(on_dialog_editor_change_handler),
        }
    }

    /// The component behind a lock, to be shared between tasks.
    pub fn new_shared(
        id: FlexBoxId,
        dialog_options: DialogEngineConfigOptions,
        editor_options: EditorEngineConfig,
        on_dialog_press_handler: P,
        on_dialog_editor_change_handler: C,
    ) -> Arc<RwLock<Self>> {
        Arc::new(
            new_lock(DialogComponent::new(
                id,
                dialog_options,
                editor_options,
                on_dialog_press_handler,
                on_dialog_editor_change_handler,
            )),
        )
    }

    pub fn get_id(&self) -> (r: FlexBoxId)
        ensures
            r == self.id,
    {
        self.id
    }

    /// Applies `input_event` to `buffer`, as `dialog_outcome` says.
    pub fn apply_to_buffer(
        &mut self,
        component_registry: &mut ComponentRegistry,
        buffer: &DialogBuffer,
        input_event: &InputEvent,
    ) -> (r: DialogEventOutcome)
        ensures
            final(self).id == old(self).id,
            final(self).on_dialog_press_handler == old(self).on_dialog_press_handler,
            final(self).on_dialog_editor_change_handler == old(self).on_dialog_editor_change_handler,
            final(component_registry).ids == old(component_registry).ids,
            ({
                let v = dialog_view_of(*buffer);
                dialog_outcome(
                    old(self).dialog_engine,
                    final(self).dialog_engine,
                    old(component_registry).has_focus,
                    final(component_registry).has_focus,
                    v.0,
                    v.2,
                    v.3,
                    v.4,
                    v.5,
                    old(self).on_dialog_press_handler is Some,
                    old(self).on_dialog_editor_change_handler is Some,
                    *input_event,
                    r,
                )
            }),
    {
        match self.dialog_engine.apply_event(buffer, input_event) {
            DialogEngineApplyResponse::DialogChoice(choice) => {
                component_registry.has_focus.reset_modal_id();
                let notification = if self.on_dialog_press_handler.is_some() {
                    DialogNotification::Press(choice)
                } else {
                    DialogNotification::Nothing
                };
                DialogEventOutcome { propagation: EventPropagation::ConsumedRender, notification }
            },
            DialogEngineApplyResponse::UpdateEditorBuffer(b) => {
                let notification = if self.on_dialog_editor_change_handler.is_some() {
                    DialogNotification::EditorChange(b)
                } else {
                    DialogNotification::Nothing
                };
                DialogEventOutcome { propagation: EventPropagation::Consumed, notification }
            },
            DialogEngineApplyResponse::SelectScrollResultsPanel => DialogEventOutcome {
                propagation: EventPropagation::ConsumedRender,
                notification: DialogNotification::Nothing,
            },
            DialogEngineApplyResponse::Noop => DialogEventOutcome {
                propagation: EventPropagation::Propagate,
                notification: DialogNotification::Nothing,
            },
        }
    }

    /// Applies `input_event` to this component's buffer in `state`, or to an
    /// empty buffer when `state` holds none, as `dialog_outcome` says.
    pub fn handle_event<S: HasDialogBuffers>(
        &mut self,
        component_registry: &mut ComponentRegistry,
        state: &S,
        input_event: &InputEvent,
    ) -> (r: DialogEventOutcome)
        ensures
            final(self).id == old(self).id,
            final(self).on_dialog_press_handler == old(self).on_dialog_press_handler,
            final(self).on_dialog_editor_change_handler == old(self).on_dialog_editor_change_handler,
            final(component_registry).ids == old(component_registry).ids,
            ({
                let v = dialog_state_view(state, old(self).id);
                dialog_outcome(
                    old(self).dialog_engine,
                    final(self).dialog_engine,
                    old(component_registry).has_focus,
                    final(component_registry).has_focus,
                    v.0,
                    v.2,
                    v.3,
                    v.4,
                    v.5,
                    old(self).on_dialog_press_handler is Some,
                    old(self).on_dialog_editor_change_handler is Some,
                    *input_event,
                    r,
                )
            }),
    {
        let id = self.id;
        match state.get_dialog_buffer(id) {
            Some(buffer) => self.apply_to_buffer(component_registry, buffer, input_event),
            None => {
                let empty = DialogBuffer::new_empty();
                self.apply_to_buffer(component_registry, &empty, input_event)
            },
        }
    }

    /// Paints the dialog over `surface_bounds` from this component's buffer
    /// in `state` (an empty one when there is none), as `dialog_render_ok`
    /// says; the box the layout placed it in plays no part. The bounds are
    /// remembered.
    pub fn render<S: HasDialogBuffers>(
        &mut self,
        state: &S,
        current_box: &FlexBox,
        surface_bounds: SurfaceBounds,
    ) -> (r: Result<RenderPipeline, LayoutError>)
        ensures
            final(self).id == old(self).id,
            final(self).on_dialog_press_handler == old(self).on_dialog_press_handler,
            final(self).on_dialog_editor_change_handler == old(self).on_dialog_editor_change_handler,
            final(self).dialog_engine == (DialogEngine {
                maybe_surface_bounds: Some(surface_bounds),
                ..old(self).dialog_engine
            }),
            ({
                let v = dialog_state_view(state, old(self).id);
                dialog_render_ok(old(self).dialog_engine, v.0, v.1, v.2, surface_bounds, r)
            }),
    {
        let id = self.id;
        match state.get_dialog_buffer(id) {
            Some(buffer) => self.dialog_engine.render_engine(buffer, surface_bounds),
            None => {
                let empty = DialogBuffer::new_empty();
                self.dialog_engine.render_engine(&empty, surface_bounds)
            },
        }
    }

    /// Forgets the results panel's selection and scroll.
    pub fn reset(&mut self)
        ensures
            final(self).id == old(self).id,
            final(self).on_dialog_press_handler == old(self).on_dialog_press_handler,
            final(self).on_dialog_editor_change_handler == old(self).on_dialog_editor_change_handler,
            final(self).dialog_engine == (DialogEngine {
                selected_row_index: 0,
                scroll_offset_row_index: 0,
                ..old(self).dialog_engine
            }),
    {
        self.dialog_engine.reset();
    }
}

} // verus!
