use eustress_engine::engine_main::{derive_window_title, is_engine_log_name, stale_logs, ENGINE_LOG_RETAIN};
use eustress_engine::keybindings::{Action, ToolSwitch};
use eustress_engine::light_cull::{
    authored_point_shadows, authored_spot_shadows, light_enabled, LightSwitches, decide_light_policy, light_budgets, CullCadence, IntensityChange, LightBudget, ACTIVE_LIGHT_BUDGET,
    FORCE_INTERVAL_FRAMES, SHADOW_LIGHT_BUDGET, enforce_shadow_budget, ShadowCut,
};
use eustress_engine::menu_actions::{
    flag_changes, focus_choice, menu_effect, parse_synthetic_bin_folder, FileCommand, FlagEdit, FocusChoice,
    HierarchySelect, MenuEffect, Panel, PartFlag, SmartTool, SnapChoice,
};
use eustress_engine::mesh_import::{apply_remap, import_mesh, is_hidden_name, MeshSourceFormat};
use eustress_engine::lsp_launcher::{LspFrame, LspLauncherState};
use eustress_engine::network_benchmark::{recommended_clients, MachineCapabilities};
use eustress_engine::notifications::{next_toast_id, toast_text, NotificationLevel, NotificationManager};
use eustress_engine::part_selection::{
    gesture_apply, hit_part_id, is_double_click, make_part_id, pick_target, selection_edit, tool_is_dragging,
    GestureApply, Pick, SelectMode, SelectionEdit,
};

#[test]
fn menu_actions_route_to_their_effects() {
    assert_eq!(menu_effect(Action::MoveTool), MenuEffect::SetTool(ToolSwitch::Move));
    assert_eq!(menu_effect(Action::NewSpace), MenuEffect::File(FileCommand::NewScene));
    assert_eq!(menu_effect(Action::Cut), MenuEffect::Copy { is_cut: true });
    assert_eq!(menu_effect(Action::Copy), MenuEffect::Copy { is_cut: false });
    assert_eq!(menu_effect(Action::ToggleOutput), MenuEffect::TogglePanel(Panel::Output));
    assert_eq!(menu_effect(Action::SnapMode2), MenuEffect::Snap(SnapChoice::FifthStud));
    assert_eq!(menu_effect(Action::InvertSelection), MenuEffect::SelectHierarchy(HierarchySelect::Invert));
    assert_eq!(menu_effect(Action::ToggleAnchor), MenuEffect::EditFlag(FlagEdit::ToggleAnchor));
    assert_eq!(menu_effect(Action::ToolGridArray), MenuEffect::ActivateTool(SmartTool::GridArray));
    assert_eq!(menu_effect(Action::Redo), MenuEffect::Redo);
    assert_eq!(SmartTool::PartSwap.tool_id(), "part_swap_positions");
    assert_eq!(SmartTool::PathArray.tool_id(), "path_array");
}

#[test]
fn anchor_toggle_alternates_and_lock_is_directional() {
    let mixed = vec![true, false, true];
    let v1 = FlagEdit::ToggleAnchor.target(&mixed);
    assert!(v1);
    assert_eq!(flag_changes(&mixed, v1), vec![1]);
    let after = vec![v1; 3];
    assert!(!FlagEdit::ToggleAnchor.target(&after));
    assert_eq!(flag_changes(&after, false), vec![0, 1, 2]);

    let locked = vec![true, true];
    assert!(FlagEdit::Lock.target(&locked));
    assert!(flag_changes(&locked, FlagEdit::Lock.target(&locked)).is_empty());
    assert!(!FlagEdit::Unlock.target(&locked));
    assert_eq!(FlagEdit::Unlock.flag(), PartFlag::Locked);
    assert_eq!(FlagEdit::ToggleAnchor.flag(), PartFlag::Anchored);
    assert_eq!(PartFlag::Anchored.property(), "Anchored");
    assert_eq!(PartFlag::Locked.log_icon(true), "🔒");
    assert_eq!(PartFlag::Anchored.log_icon(false), "🎈");
}

#[test]
fn focus_prefers_the_last_selected_camera() {
    assert_eq!(focus_choice(&vec![false, true, false, true, false]), FocusChoice::GoToCamera(3));
    assert_eq!(focus_choice(&vec![false, false]), FocusChoice::Frame);
    assert_eq!(focus_choice(&Vec::new()), FocusChoice::Stay);
}

#[test]
fn synthetic_bin_folders_parse_their_id_and_class() {
    assert_eq!(
        parse_synthetic_bin_folder("__bin_Part_00000000000000ff"),
        Some((255, "Part".to_string()))
    );
    assert_eq!(
        parse_synthetic_bin_folder("__bin_Mesh_Part_FFFFFFFFFFFFFFFF"),
        Some((u64::MAX, "Mesh_Part".to_string()))
    );
    assert_eq!(
        parse_synthetic_bin_folder("__bin_Part_+000000000000010"),
        Some((16, "Part".to_string()))
    );
    assert_eq!(parse_synthetic_bin_folder("__bin_Part_ff"), None);
    assert_eq!(parse_synthetic_bin_folder("__bin_Part_000000000000000g"), None);
    assert_eq!(parse_synthetic_bin_folder("bin_Part_00000000000000ff"), None);
    assert_eq!(parse_synthetic_bin_folder("__bin_0000000000000000"), None);
}

#[test]
fn notifications_keep_only_the_newest() {
    let mut m = NotificationManager::new();
    assert_eq!(m.max_notifications, 10);
    for i in 0..12 {
        m.info(format!("n{i}"), 1_700_000_000_000 + i);
    }
    assert_eq!(m.notifications.len(), 10);
    assert_eq!(m.notifications[0].message, "n2");
    assert_eq!(m.notifications[9].message, "n11");
    m.error("bad".to_string(), 1_700_000_000_500);
    assert_eq!(m.notifications.len(), 10);
    assert_eq!(m.notifications[9].level, NotificationLevel::Error);
    assert_eq!(m.notifications[9].timestamp, 1_700_000_000_500);
    assert_eq!(m.notifications[0].timestamp, 1_700_000_000_003);
    m.clear();
    assert!(m.notifications.is_empty());

    let mut zero = NotificationManager::default();
    zero.warning("dropped".to_string(), 0);
    assert!(zero.notifications.is_empty());
    let mut two = NotificationManager::new();
    two.success("ok".to_string(), -5);
    assert_eq!(two.notifications[0].level, NotificationLevel::Success);
}

#[test]
fn toasts_split_at_the_first_sentence() {
    assert_eq!(toast_text("Saved. All good. Really"), ("Saved".to_string(), "All good. Really".to_string()));
    assert_eq!(toast_text("  Just a title  "), ("Just a title".to_string(), String::new()));
    assert_eq!(toast_text("Done.  "), ("Done".to_string(), String::new()));
    assert_eq!(toast_text("v1.2 ready"), ("v1.2 ready".to_string(), String::new()));
    assert_eq!(toast_text("Done. "), ("Done".to_string(), String::new()));
    assert_eq!(next_toast_id(1), 2);
    assert_eq!(next_toast_id(u64::MAX), 1);
}

#[test]
fn mesh_formats_and_conversion_results() {
    assert_eq!(MeshSourceFormat::from_extension("STP"), Some(MeshSourceFormat::Step));
    assert_eq!(MeshSourceFormat::from_extension("Obj"), Some(MeshSourceFormat::Obj));
    assert_eq!(MeshSourceFormat::from_extension("glb"), None);
    for f in [
        MeshSourceFormat::Stl,
        MeshSourceFormat::Obj,
        MeshSourceFormat::Ply,
        MeshSourceFormat::Step,
        MeshSourceFormat::Fbx,
    ] {
        assert_eq!(MeshSourceFormat::from_extension(f.as_str()), Some(f));
        assert!(import_mesh(f).is_err());
    }
    assert_eq!(
        import_mesh(MeshSourceFormat::Ply),
        Err("ply → GLB conversion lands in a follow-up (tobj / ply-rs parsers)".to_string())
    );
    assert!(import_mesh(MeshSourceFormat::Fbx).unwrap_err().contains("EUSTRESS_FBX2GLTF_BIN"));
    assert!(is_hidden_name(".cache"));
    assert!(!is_hidden_name("part.stl"));
    assert!(!is_hidden_name(""));
}

#[test]
fn remap_moves_each_vertex_to_its_target() {
    let data = [10u32, 20, 30, 40];
    let remap = [2u32, 0, 9, 0];
    assert_eq!(apply_remap(&data, &remap, 3, 0), vec![40, 0, 10]);
    assert_eq!(apply_remap(&data, &[1u32, 0], 2, 7), vec![20, 10]);
    assert!(apply_remap(&data, &remap, 0, 0).is_empty());
}

#[test]
fn cull_cadence_runs_on_movement_or_every_thirtieth_frame() {
    let mut c = CullCadence { frames_since_run: 0 };
    assert!(c.should_run(true, false));
    assert_eq!(c.frames_since_run, 0);
    for _ in 1..FORCE_INTERVAL_FRAMES {
        assert!(!c.should_run(false, false));
    }
    assert_eq!(c.frames_since_run, FORCE_INTERVAL_FRAMES - 1);
    assert!(c.should_run(false, false));
    assert_eq!(c.frames_since_run, 0);
    assert!(c.should_run(false, true));
    let mut full = CullCadence { frames_since_run: u32::MAX };
    assert!(full.should_run(false, false));
}

#[test]
fn shadow_budget_caps_shadow_casters() {
    let authored: Vec<bool> = (0..80).map(|i| i % 2 == 0).collect();
    let b = light_budgets(&authored);
    assert_eq!(b.len(), 80);
    let casting = b.iter().filter(|l| l.want_shadows).count();
    assert_eq!(casting, SHADOW_LIGHT_BUDGET);
    assert_eq!(b[62], LightBudget { want_shadows: true, within_active_rank: true });
    assert_eq!(b[64], LightBudget { want_shadows: false, within_active_rank: false });
    assert!(!b[1].want_shadows);
    assert_eq!(b.iter().filter(|l| l.within_active_rank).count(), ACTIVE_LIGHT_BUDGET);
}

#[test]
fn hysteresis_holds_in_the_dead_zone() {
    assert_eq!(decide_light_policy(true, true, false, true, false, false), (false, IntensityChange::Hold));
    assert_eq!(decide_light_policy(false, true, true, true, false, false), (true, IntensityChange::Hold));
    assert_eq!(decide_light_policy(true, true, true, true, true, false), (true, IntensityChange::Restore));
    assert_eq!(decide_light_policy(false, false, false, false, false, false).1, IntensityChange::Dim { stash: true });
    assert_eq!(decide_light_policy(false, true, false, true, false, true).1, IntensityChange::Dim { stash: false });
    assert_eq!(decide_light_policy(true, true, false, false, true, false).1, IntensityChange::Hold);
}

#[test]
fn clicks_pick_and_edit_the_selection() {
    assert_eq!(make_part_id(42, 1), "42v1");
    assert_eq!(make_part_id(0, 0), "0v0");
    assert!(tool_is_dragging(false, true, true, true, false, false));
    assert!(!tool_is_dragging(false, true, false, true, false, true));
    assert_eq!(pick_target(false, 5u32, Some(9)), Pick::Model(9));
    assert_eq!(pick_target(true, 5u32, Some(9)), Pick::Part(5));
    assert_eq!(pick_target(false, 5u32, None), Pick::Part(5));
    assert_eq!(selection_edit(true, false, true, true, false), SelectionEdit::Remove);
    assert_eq!(selection_edit(true, false, true, false, false), SelectionEdit::Add);
    assert_eq!(selection_edit(true, false, false, true, false), SelectionEdit::SelectOnly);
    assert_eq!(selection_edit(true, true, false, false, false), SelectionEdit::Keep);
    assert_eq!(selection_edit(false, false, false, false, true), SelectionEdit::Keep);
    assert_eq!(selection_edit(false, false, false, false, false), SelectionEdit::Clear);
}

#[test]
fn double_clicks_need_the_same_entity_within_the_window() {
    assert!(is_double_click(Some(399), Some(7), 7));
    assert!(!is_double_click(Some(400), Some(7), 7));
    assert!(!is_double_click(Some(10), Some(8), 7));
    assert!(!is_double_click(None, Some(7), 7));
}

#[test]
fn lasso_and_paint_apply_their_hits() {
    assert_eq!(gesture_apply(SelectMode::Replace, true, false), GestureApply::SetTo);
    assert_eq!(gesture_apply(SelectMode::Toggle, false, false), GestureApply::AddHits);
    assert_eq!(gesture_apply(SelectMode::Add, true, true), GestureApply::Nothing);
    assert_eq!(gesture_apply(SelectMode::Replace, false, true), GestureApply::SetTo);
}

#[test]
fn hit_part_ids_prefer_the_part_marker() {
    assert_eq!(hit_part_id(Some("p1"), Some("m1"), true, "e1"), Some("p1".to_string()));
    assert_eq!(hit_part_id(Some(""), Some("m1"), true, "e1"), Some("e1".to_string()));
    assert_eq!(hit_part_id(None, Some("m1"), false, "e1"), Some("m1".to_string()));
    assert_eq!(hit_part_id(None, None, true, "e1"), Some("e1".to_string()));
    assert_eq!(hit_part_id(None, Some(""), false, "e1"), None);
}

#[test]
fn window_titles_name_the_universe() {
    assert_eq!(
        derive_window_title(Some("Harbor"), Some("Spaces"), Some("Coast")),
        "Coast > Harbor - Eustress Engine"
    );
    assert_eq!(derive_window_title(Some("Harbor"), Some("Maps"), Some("Coast")), "Maps > Harbor - Eustress Engine");
    assert_eq!(derive_window_title(None, None, None), "Untitled - Eustress Engine");
    assert_eq!(derive_window_title(Some("A"), Some("spaces"), None), "A - Eustress Engine");
}

#[test]
fn only_the_newest_engine_logs_survive() {
    assert!(is_engine_log_name("engine-2026-01-01.log"));
    assert!(!is_engine_log_name("engine-2026.txt"));
    assert!(!is_engine_log_name("studio-1.log"));
    let stale = stale_logs(&vec![1, 7, 3, 9, 5, 2, 8]);
    assert_eq!(stale, vec![true, false, false, false, false, true, false]);
    assert_eq!(stale.iter().filter(|s| !**s).count(), ENGINE_LOG_RETAIN);
    assert_eq!(stale_logs(&vec![4, 4, 4, 4, 4, 4]), vec![false, false, false, false, false, true]);
}

#[test]
fn stress_client_limits_follow_cores_and_memory() {
    assert_eq!(recommended_clients(4, 8192), 100);
    assert_eq!(recommended_clients(1, 16), 10);
    assert_eq!(recommended_clients(64, 1 << 20), 500);
    assert_eq!(recommended_clients(8, 400), 100);
    let caps = MachineCapabilities::detect(0, 8 << 30);
    assert_eq!((caps.cpu_cores, caps.total_ram_mb, caps.recommended_max_clients), (1, 8192, 25));
    let caps = MachineCapabilities::detect(16, (3 << 20) + 5);
    assert_eq!((caps.cpu_cores, caps.total_ram_mb, caps.recommended_max_clients), (16, 3, 10));
    let d = MachineCapabilities::default();
    assert_eq!((d.cpu_cores, d.total_ram_mb, d.recommended_max_clients), (4, 8192, 50));
}

#[test]
fn authored_shadows_come_from_the_class_then_the_stash() {
    let on = LightSwitches { shadows: true, enabled: true };
    let off = LightSwitches { shadows: true, enabled: false };
    assert_eq!(authored_point_shadows(Some(on), None, Some(false)), Some(true));
    assert_eq!(authored_point_shadows(Some(off), Some(on), None), Some(false));
    assert_eq!(authored_point_shadows(None, Some(on), Some(false)), Some(true));
    assert_eq!(authored_point_shadows(None, None, Some(true)), Some(true));
    assert_eq!(authored_point_shadows(None, None, None), None);
    assert_eq!(authored_spot_shadows(Some(off), Some(true)), Some(false));
    assert_eq!(authored_spot_shadows(None, Some(true)), Some(true));
    assert!(light_enabled(None, None, None));
    assert!(light_enabled(Some(true), None, Some(true)));
    assert!(!light_enabled(Some(true), Some(false), None));
}

#[test]
fn the_lsp_launcher_keeps_one_child_per_universe() {
    let mut s = LspLauncherState::new();
    assert_eq!(s.frame(None), LspFrame::WaitForUniverse);
    assert_eq!(s.frame(Some("/u/a")), LspFrame::Launch { stop_first: false });
    s.launched("/u/a".to_string(), true);
    assert_eq!(s.frame(Some("/u/a")), LspFrame::Idle);
    assert_eq!(s.frame(Some("/u/b")), LspFrame::Launch { stop_first: true });
    assert_eq!(s.running_for, None);
    s.launched("/u/b".to_string(), false);
    assert!(s.binary_missing);
    assert_eq!(s.frame(Some("/u/c")), LspFrame::Idle);
    assert_eq!(s.frame(None), LspFrame::Idle);
}

#[test]
fn the_load_backstop_keeps_the_first_casters_and_stashes_unknown_flags() {
    let mut lights: Vec<(bool, bool)> = vec![(false, true)];
    lights.extend(std::iter::repeat((true, true)).take(SHADOW_LIGHT_BUDGET));
    lights.push((true, true));
    lights.push((false, false));
    lights.push((true, false));
    let cuts = enforce_shadow_budget(true, &lights);
    assert_eq!(cuts.len(), lights.len());
    assert!(cuts[..=SHADOW_LIGHT_BUDGET].iter().all(|c| *c == ShadowCut::Keep));
    assert_eq!(cuts[SHADOW_LIGHT_BUDGET + 1], ShadowCut::Cut { stash: false });
    assert_eq!(cuts[SHADOW_LIGHT_BUDGET + 2], ShadowCut::Keep);
    assert_eq!(cuts[SHADOW_LIGHT_BUDGET + 3], ShadowCut::Cut { stash: true });
    assert!(enforce_shadow_budget(false, &lights).iter().all(|c| *c == ShadowCut::Keep));
}
