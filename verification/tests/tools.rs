use eustress_engine::measure::{MeasureDistanceTool, MeasureMode};
use eustress_engine::modal_tool::{
    cancel_requested, drag_follows_start, handle_step_result, run_active_modal_tool, should_suppress_non_modal,
    step_back_requested, ModalToolDragState, MouseButtons, StepOutcome, ToolCall, ToolStepResult,
};
use eustress_engine::move_tool::{arrow_name, Axis3d, MoveAction, MoveDragState, MoveFrame};
use eustress_engine::numeric_input::{
    is_relative, split_numeric_buffer, unit_kind, NumericBuffer, NumericInputOwner, NumericInputState, NumericKey,
    NumericKeysOutcome, UnitKind,
};

const UP: MouseButtons = MouseButtons { just_pressed: false, just_released: false, pressed: false };
const PRESS: MouseButtons = MouseButtons { just_pressed: true, just_released: false, pressed: true };
const HOLD: MouseButtons = MouseButtons { just_pressed: false, just_released: false, pressed: true };
const RELEASE: MouseButtons = MouseButtons { just_pressed: false, just_released: true, pressed: false };

type Drag = ModalToolDragState<(i32, i32), u32>;

#[test]
fn click_tools_click_on_press_and_hover_otherwise() {
    let mut d: Drag = ModalToolDragState::new();
    assert_eq!(run_active_modal_tool(&mut d, true, Some(((0, 0), 7)), UP, false, false), ToolCall::Hover(7));
    assert_eq!(run_active_modal_tool(&mut d, true, Some(((0, 0), 8)), PRESS, false, false), ToolCall::Click(8));
    assert!(!d.is_dragging());
    assert!(d.press_pos.is_none());
}

#[test]
fn a_press_that_never_leaves_the_dead_zone_is_a_click() {
    let mut d: Drag = ModalToolDragState::new();
    assert_eq!(run_active_modal_tool(&mut d, true, Some(((5, 5), 1)), PRESS, true, false), ToolCall::Idle);
    assert_eq!(d.press_pos, Some((5, 5)));
    assert_eq!(d.press_hit, Some(1));
    assert_eq!(run_active_modal_tool(&mut d, true, Some(((6, 5), 2)), HOLD, true, false), ToolCall::Hover(2));
    assert_eq!(run_active_modal_tool(&mut d, true, Some(((6, 5), 3)), RELEASE, true, false), ToolCall::Click(3));
    assert!(d.press_pos.is_none());
    assert!(!d.is_dragging());
}

#[test]
fn leaving_the_dead_zone_promotes_a_press_to_a_drag_measured_from_the_anchor() {
    let mut d: Drag = ModalToolDragState::new();
    run_active_modal_tool(&mut d, true, Some(((0, 0), 1)), PRESS, true, false);
    assert_eq!(
        run_active_modal_tool(&mut d, true, Some(((30, 0), 2)), HOLD, true, true),
        ToolCall::DragStart { start: 1, current: 2 }
    );
    assert!(d.is_dragging());
    assert_eq!(
        run_active_modal_tool(&mut d, true, Some(((40, 0), 3)), HOLD, true, true),
        ToolCall::Drag { start: 1, current: 3 }
    );
    assert_eq!(
        run_active_modal_tool(&mut d, true, Some(((41, 0), 4)), RELEASE, true, true),
        ToolCall::DragEnd { start: 1, end: 4 }
    );
    assert!(!d.is_dragging());
    assert!(d.press_hit.is_none());
}

#[test]
fn leaving_the_tools_reach_closes_a_drag_at_the_last_hit() {
    let mut d: Drag = ModalToolDragState::new();
    run_active_modal_tool(&mut d, true, Some(((0, 0), 1)), PRESS, true, false);
    run_active_modal_tool(&mut d, true, Some(((30, 0), 2)), HOLD, true, true);
    assert_eq!(run_active_modal_tool(&mut d, true, None, HOLD, true, true), ToolCall::DragEnd { start: 1, end: 2 });
    assert!(d.press_pos.is_none());
    assert_eq!(run_active_modal_tool(&mut d, true, None, HOLD, true, true), ToolCall::Idle);
}

#[test]
fn a_stale_press_is_forgotten_when_the_button_is_up() {
    let mut d: Drag = ModalToolDragState::new();
    run_active_modal_tool(&mut d, true, Some(((0, 0), 1)), PRESS, true, false);
    assert_eq!(run_active_modal_tool(&mut d, true, Some(((0, 0), 2)), UP, true, false), ToolCall::Hover(2));
    assert!(d.press_pos.is_none());
    assert_eq!(run_active_modal_tool(&mut d, true, Some(((50, 0), 3)), HOLD, true, true), ToolCall::Hover(3));
    assert!(!d.is_dragging());
}

#[test]
fn an_inactive_tool_forgets_everything() {
    let mut d: Drag = ModalToolDragState::new();
    run_active_modal_tool(&mut d, true, Some(((0, 0), 1)), PRESS, true, false);
    assert_eq!(run_active_modal_tool(&mut d, false, Some(((0, 0), 2)), HOLD, true, true), ToolCall::Idle);
    assert!(d.press_pos.is_none() && d.press_hit.is_none() && d.last_hit.is_none());
    let fresh: Drag = Default::default();
    assert!(!fresh.is_dragging());
}

#[test]
fn step_results_end_or_continue_the_session() {
    let mut d: Drag = ModalToolDragState::new();
    run_active_modal_tool(&mut d, true, Some(((0, 0), 1)), PRESS, true, false);
    assert_eq!(handle_step_result(ToolStepResult::Continue, true, &mut d), StepOutcome::Continue);
    assert_eq!(d.press_hit, Some(1));
    assert_eq!(
        handle_step_result(ToolStepResult::Commit, true, &mut d),
        StepOutcome::Committed { switch_to_select: true }
    );
    assert!(d.press_hit.is_none());
    run_active_modal_tool(&mut d, true, Some(((0, 0), 1)), PRESS, true, false);
    assert_eq!(handle_step_result(ToolStepResult::Cancel, false, &mut d), StepOutcome::Cancelled);
    assert!(d.press_hit.is_none());
    assert_eq!(
        handle_step_result(ToolStepResult::Commit, false, &mut d),
        StepOutcome::Committed { switch_to_select: false }
    );
    assert!(drag_follows_start(ToolStepResult::Continue));
    assert!(!drag_follows_start(ToolStepResult::Commit));
    assert!(!drag_follows_start(ToolStepResult::Cancel));
}

#[test]
fn escape_and_backspace_reach_the_tool_only_outside_text_fields() {
    assert!(cancel_requested(true, false, false, true));
    assert!(!cancel_requested(true, true, false, true));
    assert!(cancel_requested(false, true, true, true));
    assert!(!cancel_requested(true, false, true, false));
    assert!(step_back_requested(true, false, false, true));
    assert!(!step_back_requested(true, true, false, true));
    assert!(!step_back_requested(false, false, false, true));
    assert!(should_suppress_non_modal(Some(true)));
    assert!(!should_suppress_non_modal(Some(false)));
    assert!(!should_suppress_non_modal(None));
}

#[test]
fn measure_distance_cycles_pairs() {
    let mut t: MeasureDistanceTool<u8> = MeasureDistanceTool::new();
    assert_eq!(t.step_prompt(), Some("click first point"));
    assert_eq!(t.readout_hint(), Some("— click two points —"));
    assert_eq!(t.on_click(1), ToolStepResult::Continue);
    assert_eq!(t.step_prompt(), Some("click second point"));
    t.on_click(2);
    assert_eq!(t.step_prompt(), None);
    assert_eq!(t.readout_hint(), None);
    assert_eq!((t.point_a, t.point_b), (Some(1), Some(2)));
    t.on_click(3);
    assert_eq!((t.point_a, t.point_b), (Some(3), None));
    t.cancel();
    assert_eq!((t.point_a, t.point_b, t.point_c), (None, None, None));
    assert_eq!(t.mode, MeasureMode::Distance);
}

#[test]
fn measure_angle_picks_leg_vertex_leg() {
    let mut t: MeasureDistanceTool<u8> = MeasureDistanceTool::new();
    assert_eq!(t.on_option_changed("mode", "angle"), ToolStepResult::Continue);
    assert_eq!(t.mode, MeasureMode::Angle);
    assert_eq!(t.step_prompt(), Some("click first leg endpoint"));
    t.on_click(1);
    assert_eq!(t.step_prompt(), Some("click vertex"));
    t.on_click(2);
    assert_eq!(t.step_prompt(), Some("click second leg endpoint"));
    t.on_click(3);
    assert_eq!(t.step_prompt(), None);
    t.on_click(4);
    assert_eq!((t.point_a, t.point_b, t.point_c), (Some(4), None, None));
}

#[test]
fn measure_selection_modes_commit_on_compute() {
    let mut t: MeasureDistanceTool<u8> = MeasureDistanceTool::new();
    t.on_click(1);
    t.on_option_changed("mode", "mass");
    assert!(t.reads_selection());
    assert_eq!(t.point_a, None);
    t.on_click(9);
    assert_eq!(t.point_a, None);
    assert_eq!(t.step_prompt(), Some("mass — read selection (uses material density)"));
    assert_eq!(t.on_option_changed("compute", "true"), ToolStepResult::Commit);
    assert_eq!(t.on_option_changed("compute", "false"), ToolStepResult::Continue);
    assert_eq!(t.on_option_changed("mode", "bogus"), ToolStepResult::Continue);
    assert_eq!(t.mode, MeasureMode::Distance);
    assert_eq!(t.id(), "measure_distance");
    assert_eq!(t.name(), "Measure");
    assert!(!t.auto_exit_on_commit());
}

#[test]
fn measure_mode_names_round_trip() {
    for m in [MeasureMode::Distance, MeasureMode::Angle, MeasureMode::Area, MeasureMode::Volume, MeasureMode::Mass] {
        assert_eq!(MeasureMode::from_str(m.as_str()), m);
    }
    assert_eq!(MeasureMode::Volume.as_str(), "volume");
    assert_eq!(MeasureMode::from_str("nonsense"), MeasureMode::Distance);
}

#[test]
fn arrow_names_carry_sign_axis_and_part() {
    assert_eq!(arrow_name("shaft", Axis3d::X, 1), "MoveArrow.+X.shaft");
    assert_eq!(arrow_name("tip", Axis3d::Z, -1), "MoveArrow.-Z.tip");
    assert_eq!(arrow_name("tip", Axis3d::Y, 0), "MoveArrow.-Y.tip");
    assert_eq!(Axis3d::Y.letter(), "Y");
}

fn typed(s: &str) -> Vec<NumericKey> {
    s.chars().map(NumericKey::Character).collect()
}

fn started(owner_drag: (bool, bool, bool)) -> NumericInputState {
    let mut st = NumericInputState::new();
    assert!(st.detect_numeric_input_start(
        owner_drag.0,
        Some(Axis3d::X),
        owner_drag.1,
        Some(Axis3d::Y),
        owner_drag.2,
        Some(Axis3d::Z),
        &vec!['5'],
    ));
    st
}

#[test]
fn numeric_entry_starts_only_with_a_drag_and_a_starter() {
    let mut st = NumericInputState::new();
    assert!(!st.detect_numeric_input_start(false, None, false, None, false, None, &vec!['5']));
    assert!(!st.detect_numeric_input_start(true, None, false, None, false, None, &vec!['a']));
    assert!(!st.active);
    assert!(st.detect_numeric_input_start(false, None, true, Some(Axis3d::Z), true, None, &vec!['x', '=']));
    assert_eq!(st.owner, Some(NumericInputOwner::Scale));
    assert_eq!(st.axis, Some(Axis3d::Z));
    assert!(st.active && st.text.is_empty());
    assert!(!st.detect_numeric_input_start(true, None, false, None, false, None, &vec!['1']));
    assert_eq!(st.owner, Some(NumericInputOwner::Scale));
}

#[test]
fn numeric_keys_edit_the_buffer_and_enter_reports_the_entry() {
    let mut st = started((true, false, false));
    assert_eq!(st.handle_numeric_input_keys(&typed("+12.5cm")), NumericKeysOutcome::Continue { dirty: true });
    assert_eq!(st.text, "+12.5cm");
    assert!(st.relative);
    assert_eq!(st.handle_numeric_input_keys(&typed("3.")), NumericKeysOutcome::Continue { dirty: false });
    assert_eq!(st.text, "+12.5cm");
    assert_eq!(st.handle_numeric_input_keys(&vec![NumericKey::Backspace]), NumericKeysOutcome::Continue { dirty: true });
    assert_eq!(st.text, "+12.5c");
    assert_eq!(st.handle_numeric_input_keys(&vec![NumericKey::Tab]), NumericKeysOutcome::Continue { dirty: false });
    assert_eq!(st.axis, Some(Axis3d::Y));
    let out = st.handle_numeric_input_keys(&vec![NumericKey::Enter, NumericKey::Character('9')]);
    assert_eq!(
        out,
        NumericKeysOutcome::Entered { owner: Some(NumericInputOwner::Move), axis: Some(Axis3d::Y), relative: true }
    );
    assert!(!st.active && st.text.is_empty() && st.owner.is_none());
}

#[test]
fn escape_ends_entry_and_inactive_entry_ignores_keys() {
    let mut st = started((false, false, true));
    assert_eq!(st.owner, Some(NumericInputOwner::Rotate));
    st.handle_numeric_input_keys(&vec![NumericKey::Tab]);
    assert_eq!(st.axis, Some(Axis3d::Z));
    assert_eq!(st.handle_numeric_input_keys(&vec![NumericKey::Escape]), NumericKeysOutcome::Escaped);
    assert!(!st.active);
    assert_eq!(st.handle_numeric_input_keys(&typed("12")), NumericKeysOutcome::Continue { dirty: false });
    assert!(st.text.is_empty());
}

#[test]
fn expression_mode_accepts_operators() {
    let mut st = started((true, false, false));
    st.handle_numeric_input_keys(&typed("=2*(3+4)"));
    assert_eq!(st.text, "=2*(3+4)");
    let mut plain = started((true, false, false));
    plain.handle_numeric_input_keys(&typed("1-2"));
    assert_eq!(plain.text, "12");
}

#[test]
fn tab_cycles_move_axes() {
    let mut st = started((true, false, false));
    st.handle_numeric_input_keys(&vec![NumericKey::Tab, NumericKey::Tab, NumericKey::Tab]);
    assert_eq!(st.axis, Some(Axis3d::X));
}

#[test]
fn buffers_split_into_number_and_unit() {
    assert_eq!(split_numeric_buffer("  "), NumericBuffer::Blank);
    assert_eq!(split_numeric_buffer("+"), NumericBuffer::Blank);
    assert_eq!(split_numeric_buffer("-."), NumericBuffer::Blank);
    assert_eq!(split_numeric_buffer(" =1+2 "), NumericBuffer::Expression("1+2".to_string()));
    assert_eq!(
        split_numeric_buffer("++12.5 C m"),
        NumericBuffer::Number { number: "12.5".to_string(), unit: "cm".to_string() }
    );
    assert_eq!(
        split_numeric_buffer("-3e2"),
        NumericBuffer::Number { number: "-3e2".to_string(), unit: String::new() }
    );
    assert!(is_relative("+4"));
    assert!(is_relative("-+4"));
    assert!(!is_relative("-4"));
}

#[test]
fn unit_suffixes_name_their_units() {
    assert_eq!(unit_kind(""), UnitKind::Stud);
    assert_eq!(unit_kind("studs"), UnitKind::Stud);
    assert_eq!(unit_kind("cm"), UnitKind::Centimetre);
    assert_eq!(unit_kind("feet"), UnitKind::Foot);
    assert_eq!(unit_kind("°"), UnitKind::Degree);
    assert_eq!(unit_kind("radians"), UnitKind::Radian);
    assert_eq!(unit_kind("parsec"), UnitKind::Unknown);
    assert_eq!(NumericInputOwner::Rotate.unit(), "°");
    assert_eq!(NumericInputOwner::Move.axis_label(Some(Axis3d::X)), "along X axis");
    assert_eq!(NumericInputOwner::Scale.axis_label(Some(Axis3d::Z)), "on Z axis");
    assert_eq!(NumericInputOwner::Rotate.axis_label(None), "");
}

fn frame(buttons: MouseButtons, plane: Option<Axis3d>, axis: Option<Axis3d>, body: Option<u32>) -> MoveFrame<u32> {
    MoveFrame {
        escape: false,
        cursor_in_window: true,
        in_viewport: true,
        has_ray: true,
        has_selection: true,
        plane_hit: plane,
        axis_hit: axis,
        body_hit: body,
        buttons,
    }
}

#[test]
fn move_drag_grabs_plane_before_axis_before_body() {
    let mut s: MoveDragState<u32> = MoveDragState::new();
    assert_eq!(s.handle_move_interaction(true, frame(UP, Some(Axis3d::Z), Some(Axis3d::X), None)), MoveAction::Idle);
    assert_eq!((s.hovered_plane, s.hovered_axis), (Some(Axis3d::Z), None));
    assert_eq!(
        s.handle_move_interaction(true, frame(PRESS, Some(Axis3d::Z), Some(Axis3d::X), Some(4))),
        MoveAction::StartPlane(Axis3d::Z)
    );
    assert!(s.is_dragging());
    assert_eq!(s.handle_move_interaction(true, frame(HOLD, None, Some(Axis3d::X), None)), MoveAction::DragPlane(Axis3d::Z));
    assert_eq!((s.hovered_plane, s.hovered_axis), (None, None));
    assert_eq!(s.handle_move_interaction(true, frame(RELEASE, None, None, None)), MoveAction::Commit);
    assert!(!s.is_dragging() && !s.has_initials);

    assert_eq!(s.handle_move_interaction(true, frame(PRESS, None, Some(Axis3d::Y), Some(4))), MoveAction::StartAxis(Axis3d::Y));
    assert_eq!(s.handle_move_interaction(true, frame(HOLD, None, None, None)), MoveAction::DragAxis(Axis3d::Y));
    s.handle_move_interaction(true, frame(RELEASE, None, None, None));
    assert_eq!(s.handle_move_interaction(true, frame(PRESS, None, None, Some(4))), MoveAction::StartFree(4));
    assert_eq!(s.dragged_entity, Some(4));
    assert_eq!(s.handle_move_interaction(true, frame(HOLD, None, None, None)), MoveAction::DragFree);
    assert_eq!(s.handle_move_interaction(true, frame(PRESS, None, None, None)), MoveAction::Idle);
    assert!(s.free_drag);
}

#[test]
fn escape_restores_and_typed_distances_finish_axis_drags() {
    let mut s: MoveDragState<u32> = MoveDragState::new();
    s.handle_move_interaction(true, frame(PRESS, None, Some(Axis3d::X), None));
    let mut esc = frame(HOLD, None, None, None);
    esc.escape = true;
    esc.cursor_in_window = false;
    assert_eq!(s.handle_move_interaction(true, esc), MoveAction::Restore);
    assert!(!s.is_dragging());
    let mut esc2 = frame(UP, None, None, None);
    esc2.escape = true;
    assert_eq!(s.handle_move_interaction(true, esc2), MoveAction::Idle);

    s.handle_move_interaction(true, frame(PRESS, None, Some(Axis3d::X), None));
    assert_eq!(s.finalize_numeric_input(false), None);
    assert!(s.is_dragging());
    assert_eq!(s.finalize_numeric_input(true), Some(Axis3d::X));
    assert!(!s.is_dragging());
    assert_eq!(s.finalize_numeric_input(true), None);
}

#[test]
fn move_frames_outside_the_viewport_or_tool_do_nothing() {
    let mut s: MoveDragState<u32> = MoveDragState::new();
    assert_eq!(s.handle_move_interaction(false, frame(PRESS, None, Some(Axis3d::X), None)), MoveAction::Idle);
    let mut outside = frame(PRESS, None, Some(Axis3d::X), None);
    outside.in_viewport = false;
    assert_eq!(s.handle_move_interaction(true, outside), MoveAction::Idle);
    assert!(!s.is_dragging());
    s.handle_move_interaction(true, frame(PRESS, None, Some(Axis3d::X), None));
    let mut held_outside = frame(HOLD, None, None, None);
    held_outside.in_viewport = false;
    assert_eq!(s.handle_move_interaction(true, held_outside), MoveAction::DragAxis(Axis3d::X));
    let mut empty = frame(RELEASE, None, None, None);
    empty.has_selection = false;
    assert_eq!(s.handle_move_interaction(true, empty), MoveAction::Idle);
    assert!(s.is_dragging());
}
