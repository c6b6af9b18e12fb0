use eustress_engine::keybindings::{
    allowed_unbound, dispatch_keyboard_shortcuts, dispatched_actions, key_display, Action, KeyBinding,
    KeyBindings, KeyboardSnapshot, Shortcut, ShortcutContext, ToolSwitch, ACTION_COUNT,
};

fn all_actions() -> Vec<Action> {
    (0..ACTION_COUNT).map(Action::at_index).collect()
}

fn keys(ctrl: bool, alt: bool, shift: bool, pressed: &[&str]) -> KeyboardSnapshot {
    KeyboardSnapshot {
        ctrl,
        alt,
        shift,
        just_pressed: pressed.iter().map(|s| s.to_string()).collect(),
    }
}

fn idle() -> ShortcutContext {
    ShortcutContext {
        text_input_focused: false,
        overlay_focused: false,
        cursor_over_viewport: true,
        modal_tool_active: false,
    }
}

#[test]
fn no_duplicate_default_bindings() {
    let kb = KeyBindings::default();
    let mut seen: Vec<(KeyBinding, Action)> = Vec::new();
    let mut all: Vec<(Action, KeyBinding)> = Vec::new();
    for a in all_actions() {
        if let Some(b) = kb.get(a) {
            all.push((a, b.clone()));
        }
        for b in kb.alternates(a) {
            all.push((a, b.clone()));
        }
    }
    for (action, binding) in all {
        if let Some((_, previous)) = seen.iter().find(|(b, _)| *b == binding) {
            assert_eq!(
                *previous,
                action,
                "duplicate default keybinding {}: it is claimed by both {:?} and {:?}",
                binding.display(),
                previous,
                action,
            );
        }
        seen.push((binding, action));
    }
}

#[test]
fn every_dispatched_action_is_bound() {
    let kb = KeyBindings::default();
    let unbound = allowed_unbound();
    for action in dispatched_actions() {
        if unbound.contains(&action) {
            assert!(
                kb.get(action).is_none(),
                "{:?} (\"{}\") is listed as deliberately unbound but has a default binding",
                action,
                action.name(),
            );
            continue;
        }
        assert!(
            kb.get(action).is_some(),
            "{:?} (\"{}\") is dispatched every frame but has no default binding",
            action,
            action.name(),
        );
    }
}

#[test]
fn file_shortcuts_match_the_ribbon_labels() {
    let kb = KeyBindings::default();
    let printed = [
        (Action::NewUniverse, "Ctrl+Shift+N"),
        (Action::NewSpace, "Ctrl+N"),
        (Action::OpenFile, "Ctrl+O"),
        (Action::SaveScene, "Ctrl+S"),
        (Action::SaveSceneAs, "Ctrl+Shift+S"),
        (Action::PublishUniverse, "Ctrl+P"),
        (Action::PublishSpace, "Ctrl+Shift+P"),
    ];
    for (action, label) in printed {
        let actual = kb.get(action).map(|b| b.display()).unwrap_or_default();
        assert_eq!(
            actual,
            label,
            "ribbon.slint prints \"{}\" next to \"{}\" but the binding table says \"{}\"",
            label,
            action.name(),
            actual,
        );
    }
}

#[test]
fn redo_answers_to_both_conventions() {
    let kb = KeyBindings::default();
    assert_eq!(
        kb.get(Action::Redo).map(|b| b.display()).unwrap_or_default(),
        "Ctrl+Y",
        "the ribbon renders the PRIMARY binding; Edit ▸ Redo prints Ctrl+Y",
    );
    assert!(
        kb.alternates(Action::Redo)
            .contains(&KeyBinding::named("KeyZ").with_ctrl().with_shift()),
        "Ctrl+Shift+Z is missing from Redo's alternates — it would be a silent no-op",
    );
}

#[test]
fn rebind_refuses_a_chord_another_action_owns() {
    let mut kb = KeyBindings::default();
    let ctrl_g = KeyBinding::named("KeyG").with_ctrl();

    let err = kb
        .rebind(Action::FocusSelection, ctrl_g.clone())
        .expect_err("Ctrl+G already belongs to Group — rebinding onto it must fail");
    assert!(
        err.contains("Group"),
        "the error must name the conflicting action so the dialog can show it, got: {err}",
    );

    assert_eq!(kb.get(Action::Group), Some(&ctrl_g));
    assert_eq!(kb.get(Action::FocusSelection), Some(&KeyBinding::named("KeyF")));

    let ctrl_shift_z = KeyBinding::named("KeyZ").with_ctrl().with_shift();
    let err = kb
        .rebind(Action::FocusSelection, ctrl_shift_z)
        .expect_err("Ctrl+Shift+Z is Redo's alternate — rebinding onto it must fail");
    assert!(err.contains("Redo"), "expected the Redo alternate to be reported, got: {err}");
}

#[test]
fn rebind_error_message_is_exact() {
    let mut kb = KeyBindings::default();
    let err = kb.rebind(Action::FocusSelection, KeyBinding::named("KeyG").with_ctrl()).unwrap_err();
    assert_eq!(err, "Ctrl+G is already bound to \"Group\"");
}

#[test]
fn rebind_to_a_free_chord_takes_effect() {
    let mut kb = KeyBindings::default();
    let chord = KeyBinding::named("KeyJ").with_ctrl().with_alt();
    kb.rebind(Action::FocusSelection, chord.clone()).unwrap();
    assert_eq!(kb.get(Action::FocusSelection), Some(&chord));
    assert!(kb.check(Action::FocusSelection, &keys(true, true, false, &["KeyJ"])));
    assert!(!kb.check(Action::FocusSelection, &keys(false, false, false, &["KeyF"])));
}

#[test]
fn rebind_to_own_chord_succeeds() {
    let mut kb = KeyBindings::default();
    assert!(kb.rebind(Action::Group, KeyBinding::named("KeyG").with_ctrl()).is_ok());
}

#[test]
fn redo_fires_on_either_chord() {
    let kb = KeyBindings::default();
    assert!(kb.check(Action::Redo, &keys(true, false, false, &["KeyY"])));
    assert!(kb.check(Action::Redo, &keys(true, false, true, &["KeyZ"])));
    assert!(!kb.check(Action::Redo, &keys(true, false, false, &["KeyZ"])));
    assert!(kb.check(Action::Undo, &keys(true, false, false, &["KeyZ"])));
}

#[test]
fn matching_demands_exact_modifiers() {
    let b = KeyBinding::named("KeyS").with_ctrl();
    assert!(b.matches(&keys(true, false, false, &["KeyS"])));
    assert!(!b.matches(&keys(true, false, true, &["KeyS"])));
    assert!(!b.matches(&keys(true, false, false, &["KeyA"])));
}

#[test]
fn key_names_display_for_users() {
    assert_eq!(key_display("KeyZ"), "Z");
    assert_eq!(key_display("Digit1"), "1");
    assert_eq!(key_display("ArrowUp"), "↑");
    assert_eq!(key_display("Escape"), "Esc");
    assert_eq!(key_display("Delete"), "Del");
    assert_eq!(key_display("F5"), "F5");
    assert_eq!(KeyBinding::named("KeyZ").with_ctrl().with_shift().to_string_rep(), "Ctrl+Shift+KeyZ");
    assert_eq!(KeyBinding::named("Digit2").with_ctrl().display(), "Ctrl+2");
}

#[test]
fn unbound_actions_read_not_bound() {
    let kb = KeyBindings::default();
    assert_eq!(kb.get_string(Action::StopServer), "Not bound");
    assert_eq!(kb.get_string(Action::SaveScene), "Ctrl+KeyS");
}

#[test]
fn set_replaces_the_primary_only() {
    let mut kb = KeyBindings::default();
    kb.set(Action::Redo, KeyBinding::named("KeyR").with_ctrl().with_shift());
    assert_eq!(kb.get(Action::Redo).unwrap().display(), "Ctrl+Shift+R");
    assert_eq!(kb.alternates(Action::Redo).len(), 1);
}

#[test]
fn merging_defaults_keeps_saved_entries_and_fills_missing_ones() {
    let saved = vec![(Action::Group, KeyBinding::named("KeyQ").with_ctrl())];
    let mut kb = KeyBindings::from_entries(saved, Vec::new());
    assert!(kb.get(Action::Undo).is_none());
    kb.merge_defaults();
    assert_eq!(kb.get(Action::Group).unwrap().display(), "Ctrl+Q");
    assert_eq!(kb.get(Action::Undo).unwrap().display(), "Ctrl+Z");
    assert_eq!(kb.alternates(Action::Redo).len(), 1);
    let with_empty = vec![(Action::Redo, Vec::new())];
    let mut kb2 = KeyBindings::from_entries(Vec::new(), with_empty);
    kb2.merge_defaults();
    assert!(kb2.alternates(Action::Redo).is_empty());
}

#[test]
fn later_entries_win_when_loading() {
    let saved = vec![
        (Action::Group, KeyBinding::named("KeyQ").with_ctrl()),
        (Action::Group, KeyBinding::named("KeyW").with_ctrl()),
    ];
    let kb = KeyBindings::from_entries(saved, Vec::new());
    assert_eq!(kb.get(Action::Group).unwrap().display(), "Ctrl+W");
}

#[test]
fn text_focus_blocks_every_shortcut() {
    let kb = KeyBindings::default();
    let mut ctx = idle();
    ctx.text_input_focused = true;
    assert_eq!(dispatch_keyboard_shortcuts(&kb, &keys(true, false, false, &["KeyS"]), &ctx), Shortcut::Nothing);
    let mut ctx = idle();
    ctx.overlay_focused = true;
    assert_eq!(dispatch_keyboard_shortcuts(&kb, &keys(false, false, false, &["Delete"]), &ctx), Shortcut::Nothing);
}

#[test]
fn tool_shortcuts_switch_tools_first() {
    let kb = KeyBindings::default();
    assert_eq!(
        dispatch_keyboard_shortcuts(&kb, &keys(false, true, false, &["KeyZ"]), &idle()),
        Shortcut::SwitchTool(ToolSwitch::Select)
    );
    assert_eq!(
        dispatch_keyboard_shortcuts(&kb, &keys(false, true, false, &["KeyV"]), &idle()),
        Shortcut::SwitchTool(ToolSwitch::Rotate)
    );
}

#[test]
fn backspace_yields_to_an_armed_modal_tool() {
    let kb = KeyBindings::default();
    let bs = keys(false, false, false, &["Backspace"]);
    assert_eq!(dispatch_keyboard_shortcuts(&kb, &bs, &idle()), Shortcut::Menu(Action::Delete));
    let mut armed = idle();
    armed.modal_tool_active = true;
    assert_eq!(dispatch_keyboard_shortcuts(&kb, &bs, &armed), Shortcut::Nothing);
    let del = keys(false, false, false, &["Delete"]);
    assert_eq!(dispatch_keyboard_shortcuts(&kb, &del, &armed), Shortcut::Menu(Action::Delete));
}

#[test]
fn delete_outside_the_viewport_still_reaches_the_dispatch_loop() {
    let kb = KeyBindings::default();
    let mut ctx = idle();
    ctx.cursor_over_viewport = false;
    let del = keys(false, false, false, &["Delete"]);
    assert_eq!(dispatch_keyboard_shortcuts(&kb, &del, &ctx), Shortcut::Menu(Action::Delete));
    let bs = keys(false, false, false, &["Backspace"]);
    assert_eq!(dispatch_keyboard_shortcuts(&kb, &bs, &ctx), Shortcut::Nothing);
}

#[test]
fn first_dispatched_action_wins() {
    let kb = KeyBindings::default();
    assert_eq!(
        dispatch_keyboard_shortcuts(&kb, &keys(true, false, false, &["KeyS"]), &idle()),
        Shortcut::Menu(Action::SaveScene)
    );
    assert_eq!(
        dispatch_keyboard_shortcuts(&kb, &keys(false, false, false, &["Digit1"]), &idle()),
        Shortcut::Menu(Action::SnapMode1)
    );
    assert_eq!(dispatch_keyboard_shortcuts(&kb, &keys(false, false, false, &[]), &idle()), Shortcut::Nothing);
}

#[test]
fn action_names_and_positions() {
    assert_eq!(Action::Group.name(), "Group");
    assert_eq!(Action::Redo.name(), "Redo");
    for (i, a) in all_actions().into_iter().enumerate() {
        assert_eq!(a.index(), i);
    }
    assert_eq!(dispatched_actions().len(), 65);
}
