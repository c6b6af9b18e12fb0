use eustress_engine::menu_actions::{delete_step, first_space_root, trash_base, trash_name, DeleteStep};
use eustress_engine::moderation::ScriptEntry;
use eustress_engine::part_selection::{click_gate, ClickFacts, ClickGate};
use eustress_engine::purchase::{format_order_reference, LineDisplayType, PurchaseOrder, PurchaseOrderLine};
use eustress_engine::purchase_documents::{
    folder_document, order_attributes_from_doc, read_line_document, read_next_sequence, read_order_document,
    stale_line_folders,
};
use eustress_engine::signals::{dossier_signals, total_script_lines};
use eustress_engine::toml_doc::{attr_int, attr_str, doc_class, doc_table, read_toml_doc, TomlScalar};

fn strings(v: &[&str]) -> Vec<String> {
    v.iter().map(|s| s.to_string()).collect()
}

#[test]
fn a_document_reads_its_class_and_attributes() {
    let text = "[metadata]\nclass_name = \"PurchaseOrder\"\n\n[attributes]\nreference = \"PO00002\"\nsequence = 12.75\ncount = 3\nflag = true\nlist = [1, 2]\n";
    let doc = read_toml_doc(text).unwrap();
    assert_eq!(doc_class(&doc), Some("PurchaseOrder".to_string()));
    let a = doc_table(&doc, "attributes").unwrap();
    assert_eq!(attr_str(a, "reference"), Some("PO00002".to_string()));
    assert_eq!(attr_str(a, "count"), None);
    assert_eq!(attr_int(a, "sequence"), 12);
    assert_eq!(attr_int(a, "count"), 3);
    assert_eq!(attr_int(a, "flag"), 0);
    assert!(matches!(a.iter().find(|(k, _)| k == "list").map(|(_, v)| v), Some(TomlScalar::Other)));
    assert!(read_toml_doc("this is = = not toml").is_none());
}

#[test]
fn order_attributes_need_an_attributes_table() {
    let doc = read_toml_doc("[metadata]\nclass_name = \"PurchaseOrder\"\n").unwrap();
    assert!(order_attributes_from_doc(&doc).is_none());
    let doc = read_toml_doc("[attributes]\nhas_invoices = true\nstate = \"purchase\"\n").unwrap();
    let a = order_attributes_from_doc(&doc).unwrap();
    assert!(a.has_invoices);
    assert_eq!(a.state, Some("purchase".to_string()));
    assert_eq!(a.reference, None);
}

#[test]
fn an_order_document_reads_back_with_its_fallbacks() {
    let text = "[metadata]\nclass_name = \"PurchaseOrder\"\n\n[attributes]\nmanufacturer_id = \"kaz\"\nnotes = \"\"\n";
    let o: PurchaseOrder<()> = read_order_document(text, "PO00009".to_string(), Vec::new()).unwrap();
    assert_eq!(o.name, "PO00009");
    assert_eq!(o.manufacturer_id, "kaz");
    assert_eq!(o.currency, "USD");
    assert_eq!(o.notes, None);
    let wrong = "[metadata]\nclass_name = \"Folder\"\n\n[attributes]\n";
    assert!(read_order_document::<()>(wrong, "x".to_string(), Vec::new()).is_none());
    assert!(read_order_document::<()>("not = toml = at all", "x".to_string(), Vec::new()).is_none());
}

#[test]
fn a_line_document_keys_by_its_sequence_and_keeps_its_figures() {
    let text = "[metadata]\nclass_name = \"PurchaseOrderLine\"\n\n[attributes]\nname = \"Bearing\"\nsequence = 30\nproduct_qty = 10.0\nprice_unit = 4.5\ndisplay_type = \"line_note\"\n";
    let (seq, l) = read_line_document(text).unwrap();
    assert_eq!(seq, 30);
    assert_eq!(l.name, "Bearing");
    assert_eq!(l.product_uom, "pcs");
    assert_eq!(l.display_type, LineDisplayType::Note);
    let qty = l.amounts.iter().find(|(k, _)| k == "product_qty").map(|(_, v)| v);
    assert!(matches!(qty, Some(TomlScalar::Float(t, 10)) if t == "10"));
}

#[test]
fn the_folder_document_carries_the_counter() {
    let text = folder_document(42);
    assert!(text.contains("[attributes]"));
    assert!(text.contains("class_name = \"Folder\""));
    assert!(text.contains("archivable = true"));
    assert_eq!(read_next_sequence(&text), Some(42));
    assert_eq!(read_next_sequence("[attributes]\nnext_sequence = 7.9\n"), Some(7));
    assert_eq!(read_next_sequence("[metadata]\nclass_name = \"Folder\"\n"), None);
    assert_eq!(read_next_sequence("= broken"), None);
}

#[test]
fn stale_folders_are_exactly_those_no_line_names() {
    let existing = strings(&["001 Keep", "002 Drop", "003 Old", "001 Keep"]);
    let keep = strings(&["001 Keep", "002 New"]);
    assert_eq!(stale_line_folders(&existing, &keep), strings(&["002 Drop", "003 Old"]));
    assert!(stale_line_folders(&keep, &keep).is_empty());
}

#[test]
fn references_sort_as_their_counters() {
    assert!(format_order_reference(9) < format_order_reference(10));
    assert!(format_order_reference(12345) < format_order_reference(99999));
    assert!(!(format_order_reference(100) < format_order_reference(99)));
}

#[test]
fn a_section_line_changes_no_priced_line() {
    let mut o: PurchaseOrder<u32> = PurchaseOrder::new_rfq("PO00001".to_string(), "v".to_string(), String::new());
    o.order_line.push(PurchaseOrderLine::new("a".to_string(), 1));
    o.order_line.push(PurchaseOrderLine::new("b".to_string(), 2));
    let before: Vec<u32> = o.priced_lines().iter().map(|l| l.amounts).collect();
    let mut s = PurchaseOrderLine::new("Section".to_string(), 99);
    s.display_type = LineDisplayType::Section;
    o.order_line.insert(1, s);
    let after: Vec<u32> = o.priced_lines().iter().map(|l| l.amounts).collect();
    assert_eq!(before, after);
}

#[test]
fn delete_decides_per_entity() {
    let path = |v: &[&str]| strings(v);
    assert_eq!(delete_step(true, Some(&path(&["Workspace", "Block", "_instance.toml"]))), DeleteStep::SkipProtectedService);
    assert_eq!(delete_step(false, None), DeleteStep::Despawn);
    assert_eq!(
        delete_step(false, Some(&path(&["Workspace", "__bin_Part_00000000000000ff", "_instance.toml"]))),
        DeleteStep::PurgeBinary(255, "Part".to_string())
    );
    assert_eq!(delete_step(false, Some(&path(&["space", "SoulService", "Workshop", "_instance.toml"]))), DeleteStep::SkipWorkshop);
    assert_eq!(delete_step(false, Some(&path(&["SOULSERVICE", "WorkShop", "_Instance.TOML"]))), DeleteStep::SkipWorkshop);
    assert_eq!(delete_step(false, Some(&path(&["Workspace", "Block", "_instance.toml"]))), DeleteStep::Trash { folder: true });
    assert_eq!(delete_step(false, Some(&path(&["Workspace", "door.rune"]))), DeleteStep::Trash { folder: false });
}

#[test]
fn trash_lives_at_the_space_root_and_never_collides() {
    let anc = strings(&["/s/Workspace/Wing", "/s/Workspace", "/s", "/"]);
    assert_eq!(first_space_root(&anc, &vec![false, false, true, false]), Some("/s".to_string()));
    assert_eq!(first_space_root(&anc, &vec![false, false, false, false]), None);
    assert_eq!(trash_base(Some("/s".to_string()), Some("/s/Workspace".to_string())), "/s");
    assert_eq!(trash_base(None, Some("/s/Workspace".to_string())), "/s/Workspace");
    assert_eq!(trash_base(None, None), ".");
    assert_eq!(trash_name(Some("Block"), false, 255), "Block");
    assert_eq!(trash_name(Some("Block"), true, 255), "Block-ff");
    assert_eq!(trash_name(None, true, 0x1a2b3c), "entity-1a2b3c");
    assert_eq!(trash_name(Some("Block"), true, 0), "Block-0");
}

fn facts() -> ClickFacts {
    ClickFacts {
        has_selection_manager: true,
        left_just_pressed: true,
        ui_focus: Some((false, false)),
        has_window: true,
        has_cursor: true,
        inside_viewport: Some(true),
        shift: false,
        ctrl: false,
        has_camera: true,
        has_ray: true,
    }
}

#[test]
fn clicks_pass_the_gates_in_order() {
    assert_eq!(click_gate(&facts()), ClickGate::Proceed { multi_select: false });
    assert_eq!(click_gate(&ClickFacts { ctrl: true, ..facts() }), ClickGate::Proceed { multi_select: true });
    assert_eq!(click_gate(&ClickFacts { has_selection_manager: false, left_just_pressed: false, ..facts() }), ClickGate::NoSelectionManager);
    assert_eq!(click_gate(&ClickFacts { left_just_pressed: false, ..facts() }), ClickGate::NotLeftClick);
    assert_eq!(click_gate(&ClickFacts { ui_focus: Some((true, true)), ..facts() }), ClickGate::UiFocus);
    assert_eq!(click_gate(&ClickFacts { ui_focus: Some((false, true)), ..facts() }), ClickGate::OverGui);
    assert_eq!(click_gate(&ClickFacts { has_cursor: false, ..facts() }), ClickGate::NoCursor);
    assert_eq!(click_gate(&ClickFacts { inside_viewport: Some(false), ..facts() }), ClickGate::OutsideViewport);
    assert_eq!(click_gate(&ClickFacts { inside_viewport: None, ui_focus: None, ..facts() }), ClickGate::Proceed { multi_select: false });
    assert_eq!(click_gate(&ClickFacts { has_camera: false, ..facts() }), ClickGate::NoCamera);
    assert_eq!(click_gate(&ClickFacts { has_ray: false, ..facts() }), ClickGate::NoRay);
}

fn script(source: &str, lines: usize) -> ScriptEntry {
    ScriptEntry {
        path: "a.rune".to_string(),
        language: "Rune".to_string(),
        lines,
        bytes: source.len(),
        truncated: false,
        source: source.to_string(),
    }
}

#[test]
fn a_dossier_scans_strings_scripts_and_description() {
    let scene = strings(&["Join discord.gg/abc12 today", "mail ann@mail.example.org"]);
    let scripts = vec![script("-- see https://example.com/x\n-- mail ann@mail.example.org", 2)];
    let s = dossier_signals(&scene, &scripts, "call +1 (520) 555-0142");
    assert_eq!(s.discord_invites, vec!["discord.gg/abc12"]);
    assert_eq!(s.urls, vec!["https://example.com/x"]);
    assert_eq!(s.emails, vec!["ann@mail.example.org"]);
    assert_eq!(s.phones, vec!["+1 (520) 555-0142"]);
    assert_eq!(total_script_lines(&vec![script("a", 3), script("b", 4)]), 7);
    assert_eq!(total_script_lines(&Vec::new()), 0);
}
