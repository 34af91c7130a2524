use r3bl_tui::component::{
    DialogComponent, DialogNotification, EditorComponent, HasDialogBuffers, HasEditorBuffers,
};
use r3bl_tui::dialog::{
    DialogBuffer, DialogChoice, DialogEngine, DialogEngineApplyResponse, DialogEngineConfigOptions,
    DialogEngineMode,
};
use r3bl_tui::editor::{ApplyResponse, EditorBuffer, EditorEngine, EditorEngineConfig};
use r3bl_tui::focus::{ComponentRegistry, HasFocus};
use r3bl_tui::geometry::{FlexBoxId, LayoutError, PercentSize, Position, Size};
use r3bl_tui::input::{EventPropagation, InputEvent, Key};
use r3bl_tui::layout::{FlexBox, SurfaceBounds};
use r3bl_tui::pipeline::{RenderOp, ZOrder};

type OnChange = fn(FlexBoxId, &EditorBuffer);
type OnPress = fn(&DialogChoice);

fn on_change(_id: FlexBoxId, _b: &EditorBuffer) {}
fn on_press(_c: &DialogChoice) {}
fn on_dialog_edit(_b: &EditorBuffer) {}

fn chars(s: &str) -> Vec<char> {
    s.chars().collect()
}

fn buffer(rows: &[&str]) -> EditorBuffer {
    EditorBuffer::from_rows(rows.iter().map(|r| chars(r)).collect()).unwrap()
}

fn text(b: &EditorBuffer) -> Vec<String> {
    b.rows().iter().map(|r| r.iter().collect()).collect()
}

fn key(k: Key) -> InputEvent {
    InputEvent::Keyboard(k)
}

fn multiline() -> EditorEngine {
    EditorEngine::new(EditorEngineConfig { multiline: true })
}

fn applied(r: ApplyResponse) -> EditorBuffer {
    match r {
        ApplyResponse::Applied(b) => b,
        ApplyResponse::NotApplied => panic!("not applied"),
    }
}

#[test]
fn editor_buffer_from_rows_validates() {
    assert!(matches!(EditorBuffer::from_rows(vec![]), Err(LayoutError::RangeError)));
    assert!(matches!(EditorBuffer::from_rows(vec![vec!['a'; 65536]]), Err(LayoutError::RangeError)));
    let b = buffer(&["ab", "c"]);
    assert_eq!((b.caret_row(), b.caret_col(), b.scroll_row()), (0, 0, 0));
    assert_eq!(text(&EditorBuffer::new_empty()), vec![""]);
}

#[test]
fn editor_inserts_and_moves() {
    let e = multiline();
    let b = buffer(&["ac"]);
    let b = applied(e.apply_event(&b, &key(Key::Right)));
    let b = applied(e.apply_event(&b, &key(Key::Character('b'))));
    assert_eq!(text(&b), vec!["abc"]);
    assert_eq!(b.caret_col(), 2);
    let b = applied(e.apply_event(&b, &key(Key::Enter)));
    assert_eq!(text(&b), vec!["ab", "c"]);
    assert_eq!((b.caret_row(), b.caret_col()), (1, 0));
    let b = applied(e.apply_event(&b, &key(Key::Backspace)));
    assert_eq!(text(&b), vec!["abc"]);
    assert_eq!((b.caret_row(), b.caret_col()), (0, 2));
    let b = applied(e.apply_event(&b, &key(Key::Backspace)));
    assert_eq!(text(&b), vec!["ac"]);
    assert_eq!(b.caret_col(), 1);
}

#[test]
fn editor_ignores_what_it_cannot_do() {
    let single = EditorEngine::new(EditorEngineConfig { multiline: false });
    let b = buffer(&["x"]);
    assert!(matches!(single.apply_event(&b, &key(Key::Enter)), ApplyResponse::NotApplied));
    assert!(matches!(single.apply_event(&b, &key(Key::Left)), ApplyResponse::NotApplied));
    assert!(matches!(single.apply_event(&b, &key(Key::Up)), ApplyResponse::NotApplied));
    assert!(matches!(single.apply_event(&b, &key(Key::Escape)), ApplyResponse::NotApplied));
    let resize = InputEvent::Resize(Size { width: 3, height: 3 });
    assert!(matches!(single.apply_event(&b, &resize), ApplyResponse::NotApplied));
}

#[test]
fn editor_vertical_moves_clamp_the_column() {
    let e = multiline();
    let mut b = buffer(&["long line", "ab"]);
    for _ in 0..5 {
        b = applied(e.apply_event(&b, &key(Key::Right)));
    }
    let b = applied(e.apply_event(&b, &key(Key::Down)));
    assert_eq!((b.caret_row(), b.caret_col()), (1, 2));
    let b = applied(e.apply_event(&b, &key(Key::Up)));
    assert_eq!((b.caret_row(), b.caret_col()), (0, 2));
}

struct AppState {
    editors: Vec<(FlexBoxId, EditorBuffer)>,
    dialogs: Vec<(FlexBoxId, DialogBuffer)>,
}

impl HasEditorBuffers for AppState {
    // A ghost function: compiled code never calls it.
    fn editor_buffer_of(&self, _id: FlexBoxId) -> Option<EditorBuffer> {
        unreachable!()
    }

    fn get_editor_buffer(&self, id: FlexBoxId) -> Option<&EditorBuffer> {
        self.editors.iter().find(|(i, _)| *i == id).map(|(_, b)| b)
    }
}

impl HasDialogBuffers for AppState {
    // A ghost function: compiled code never calls it.
    fn dialog_buffer_of(&self, _id: FlexBoxId) -> Option<DialogBuffer> {
        unreachable!()
    }

    fn get_dialog_buffer(&self, id: FlexBoxId) -> Option<&DialogBuffer> {
        self.dialogs.iter().find(|(i, _)| *i == id).map(|(_, b)| b)
    }
}

#[test]
fn editor_component_reports_an_edit_once_and_ignores_the_rest() {
    let c: EditorComponent<OnChange> = EditorComponent::new(
        3,
        EditorEngineConfig { multiline: true },
        on_change as OnChange,
    );
    let state = AppState { editors: vec![(3, buffer(&["hi"]))], dialogs: vec![] };
    let out = c.handle_event(&state, &key(Key::Character('!')));
    assert_eq!(out.propagation, EventPropagation::Consumed);
    let b = out.buffer_change.expect("one change");
    assert_eq!(text(&b), vec!["!hi"]);
    let out = c.handle_event(&state, &key(Key::Escape));
    assert_eq!(out.propagation, EventPropagation::Propagate);
    assert!(out.buffer_change.is_none());
    let none: EditorComponent<OnChange> = EditorComponent {
        on_editor_buffer_change_handler: None,
        ..EditorComponent::new(4, EditorEngineConfig { multiline: true }, on_change as OnChange)
    };
    let out = none.handle_event(&state, &key(Key::Character('a')));
    assert_eq!(out.propagation, EventPropagation::Consumed);
    assert!(out.buffer_change.is_none());
}

fn flex_box(col: u16, row: u16, width: u16, height: u16) -> FlexBox {
    FlexBox {
        id: 3,
        dir: r3bl_tui::geometry::Direction::Vertical,
        origin: Position { col, row },
        size: Size { width, height },
        requested_size_percent: PercentSize::try_new(100, 100).unwrap(),
        maybe_styles: None,
    }
}

#[test]
fn editor_renders_visible_rows_and_caret_when_focused() {
    let c: EditorComponent<OnChange> = EditorComponent::new(
        3,
        EditorEngineConfig { multiline: true },
        on_change as OnChange,
    );
    let e = multiline();
    let mut b = buffer(&["one", "two", "three"]);
    b = applied(e.apply_event(&b, &key(Key::Down)));
    b = applied(e.apply_event(&b, &key(Key::Down)));
    let state = AppState { editors: vec![(3, b)], dialogs: vec![] };
    let mut registry = ComponentRegistry::new();
    registry.put(3);
    registry.has_focus.set_id(3);
    let p = c.render(&registry, &state, &flex_box(5, 2, 4, 2)).unwrap();
    assert_eq!(p.len(), 5);
    assert!(matches!(p.entries[0].op, RenderOp::MoveCursor(Position { col: 5, row: 2 })));
    match &p.entries[1].op {
        RenderOp::PaintText(v) => assert_eq!(v.iter().collect::<String>(), "two"),
        _ => panic!("text expected"),
    }
    match &p.entries[3].op {
        RenderOp::PaintText(v) => assert_eq!(v.iter().collect::<String>(), "thre"),
        _ => panic!("text expected"),
    }
    assert_eq!(p.entries[4].z_order, ZOrder::High);
    assert!(matches!(p.entries[4].op, RenderOp::PaintCaret(Position { col: 5, row: 3 })));
    registry.has_focus.set_id(9);
    let p = c.render(&registry, &state, &flex_box(5, 2, 4, 2)).unwrap();
    assert_eq!(p.len(), 4);
    assert!(matches!(c.render(&registry, &state, &flex_box(0, 0, 0, 2)), Err(LayoutError::EngineRenderFailure)));
}

fn autocomplete() -> DialogEngineConfigOptions {
    DialogEngineConfigOptions { mode: DialogEngineMode::ModalAutocomplete, max_visible_results: 2 }
}

fn single_line() -> EditorEngineConfig {
    EditorEngineConfig { multiline: false }
}

fn dialog_buffer(input: &str, results: &[&str]) -> DialogBuffer {
    DialogBuffer {
        editor_buffer: buffer(&[input]),
        title: chars("Find"),
        results: results.iter().map(|r| chars(r)).collect(),
    }
}

#[test]
fn dialog_engine_selects_and_confirms_results() {
    let mut e = DialogEngine::new(autocomplete(), single_line());
    let b = dialog_buffer("f", &["foo", "far", "fig"]);
    assert!(matches!(e.apply_event(&b, &key(Key::Down)), DialogEngineApplyResponse::SelectScrollResultsPanel));
    assert!(matches!(e.apply_event(&b, &key(Key::Down)), DialogEngineApplyResponse::SelectScrollResultsPanel));
    assert_eq!(e.selected_row_index, 2);
    assert_eq!(e.scroll_offset_row_index, 1);
    assert!(matches!(e.apply_event(&b, &key(Key::Down)), DialogEngineApplyResponse::SelectScrollResultsPanel));
    assert_eq!(e.selected_row_index, 2);
    match e.apply_event(&b, &key(Key::Enter)) {
        DialogEngineApplyResponse::DialogChoice(DialogChoice::Yes(v)) => {
            assert_eq!(v.iter().collect::<String>(), "fig")
        },
        _ => panic!("choice expected"),
    }
    e.reset();
    assert_eq!((e.selected_row_index, e.scroll_offset_row_index), (0, 0));
    assert!(matches!(e.apply_event(&b, &key(Key::Escape)), DialogEngineApplyResponse::DialogChoice(DialogChoice::No)));
    match e.apply_event(&b, &key(Key::Character('o'))) {
        DialogEngineApplyResponse::UpdateEditorBuffer(nb) => assert_eq!(text(&nb), vec!["of"]),
        _ => panic!("edit expected"),
    }
    assert!(matches!(e.apply_event(&b, &key(Key::Tab)), DialogEngineApplyResponse::Noop));
}

#[test]
fn simple_dialog_confirms_its_input() {
    let mut e = DialogEngine::new(
        DialogEngineConfigOptions { mode: DialogEngineMode::ModalSimple, max_visible_results: 5 },
        single_line(),
    );
    let b = dialog_buffer("yes please", &["ignored"]);
    assert!(matches!(e.apply_event(&b, &key(Key::Down)), DialogEngineApplyResponse::Noop));
    match e.apply_event(&b, &key(Key::Enter)) {
        DialogEngineApplyResponse::DialogChoice(DialogChoice::Yes(v)) => {
            assert_eq!(v.iter().collect::<String>(), "yes please")
        },
        _ => panic!("choice expected"),
    }
}

#[test]
fn dialog_choice_restores_focus_to_the_normal_component() {
    let mut registry = ComponentRegistry::new();
    registry.put(1);
    registry.put(2);
    registry.has_focus.set_id(1);
    registry.has_focus.set_modal_id(2);
    assert_eq!(registry.route_event_target(), Some(2));
    let mut dialog: DialogComponent<OnPress, fn(&EditorBuffer)> =
        DialogComponent::new(2, autocomplete(), single_line(), on_press as OnPress, on_dialog_edit as fn(&EditorBuffer));
    let state = AppState { editors: vec![], dialogs: vec![(2, dialog_buffer("", &[]))] };
    let out = dialog.handle_event(&mut registry, &state, &key(Key::Escape));
    assert_eq!(out.propagation, EventPropagation::ConsumedRender);
    assert!(matches!(out.notification, DialogNotification::Press(DialogChoice::No)));
    assert!(!registry.has_focus.is_modal_set());
    assert_eq!(registry.route_event_target(), Some(1));
}

#[test]
fn dialog_component_maps_each_response() {
    let mut registry = ComponentRegistry::new();
    registry.put(2);
    registry.has_focus.set_modal_id(2);
    let mut dialog: DialogComponent<OnPress, fn(&EditorBuffer)> =
        DialogComponent::new(2, autocomplete(), single_line(), on_press as OnPress, on_dialog_edit as fn(&EditorBuffer));
    let b = dialog_buffer("a", &["x", "y"]);
    let out = dialog.apply_to_buffer(&mut registry, &b, &key(Key::Character('b')));
    assert_eq!(out.propagation, EventPropagation::Consumed);
    match out.notification {
        DialogNotification::EditorChange(nb) => assert_eq!(text(&nb), vec!["ba"]),
        _ => panic!("editor change expected"),
    }
    let out = dialog.apply_to_buffer(&mut registry, &b, &key(Key::Down));
    assert_eq!(out.propagation, EventPropagation::ConsumedRender);
    assert!(matches!(out.notification, DialogNotification::Nothing));
    assert_eq!(registry.route_event_target(), Some(2));
    let out = dialog.apply_to_buffer(&mut registry, &b, &key(Key::Tab));
    assert_eq!(out.propagation, EventPropagation::Propagate);
    let out = dialog.apply_to_buffer(&mut registry, &b, &key(Key::Enter));
    match out.notification {
        DialogNotification::Press(DialogChoice::Yes(v)) => assert_eq!(v, vec!['y']),
        _ => panic!("press expected"),
    }
    assert_eq!(registry.has_focus.get_modal_id(), None);
    dialog.reset();
    assert_eq!(dialog.get_id(), 2);
}

#[test]
fn dialog_renders_over_the_surface_bounds() {
    let mut dialog: DialogComponent<OnPress, fn(&EditorBuffer)> =
        DialogComponent::new(2, autocomplete(), single_line(), on_press as OnPress, on_dialog_edit as fn(&EditorBuffer));
    let state = AppState { editors: vec![], dialogs: vec![(2, dialog_buffer("query", &["r1", "r2", "r3"]))] };
    let bounds = SurfaceBounds { origin: Position { col: 1, row: 1 }, size: Size { width: 3, height: 10 } };
    let p = dialog.render(&state, &flex_box(0, 0, 1, 1), bounds).unwrap();
    assert_eq!(p.len(), 8);
    assert!(p.entries.iter().all(|e| e.z_order == ZOrder::Glass));
    match &p.entries[3].op {
        RenderOp::PaintText(v) => assert_eq!(v.iter().collect::<String>(), "que"),
        _ => panic!("text expected"),
    }
    assert!(matches!(p.entries[6].op, RenderOp::MoveCursor(Position { col: 1, row: 4 })));
    assert_eq!(dialog.dialog_engine.maybe_surface_bounds, Some(bounds));
    let flat = SurfaceBounds { origin: Position { col: 0, row: 0 }, size: Size { width: 3, height: 1 } };
    assert!(matches!(dialog.render(&state, &flex_box(0, 0, 1, 1), flat), Err(LayoutError::EngineRenderFailure)));
}

#[test]
fn focus_routing_prefers_the_modal_id() {
    let mut f = HasFocus::new();
    assert_eq!(f.get_target(), None);
    f.set_id(4);
    assert!(f.does_id_have_focus(4));
    f.set_modal_id(8);
    assert_eq!(f.get_target(), Some(8));
    assert!(!f.does_id_have_focus(4));
    f.reset_modal_id();
    assert_eq!(f.get_target(), Some(4));
    assert_eq!(f.get_id(), Some(4));
    let mut registry = ComponentRegistry::new();
    registry.has_focus = f;
    assert_eq!(registry.route_event_target(), None);
    registry.put(4);
    registry.put(4);
    assert_eq!(registry.ids.len(), 1);
    assert!(registry.contains(4));
    assert_eq!(registry.route_event_target(), Some(4));
}

#[test]
fn shared_components_are_lock_guarded() {
    let shared = EditorComponent::new_shared(
        5,
        EditorEngineConfig { multiline: true },
        on_change as OnChange,
    );
    assert_eq!(shared.try_read().unwrap().get_id(), 5);
    let dialog = DialogComponent::new_shared(6, autocomplete(), single_line(), on_press as OnPress, on_dialog_edit as fn(&EditorBuffer));
    assert_eq!(dialog.try_write().unwrap().get_id(), 6);
}

#[test]
fn editor_component_rerenders_when_rows_change() {
    let c: EditorComponent<OnChange> =
        EditorComponent::new(3, EditorEngineConfig { multiline: true }, on_change as OnChange);
    let b = buffer(&["ab"]);
    let out = c.apply_to_buffer(&b, &key(Key::Enter));
    assert_eq!(out.propagation, EventPropagation::ConsumedRender);
    assert_eq!(text(&out.buffer_change.unwrap()), vec!["", "ab"]);
    let out = c.apply_to_buffer(&b, &key(Key::Right));
    assert_eq!(out.propagation, EventPropagation::Consumed);
    let moved = out.buffer_change.unwrap();
    assert_eq!((moved.caret_row(), moved.caret_col()), (0, 1));
}
