use eustress_engine::purchase::{LineDisplayType, PurchaseOrder, PurchaseOrderLine, PurchaseOrderState};
use eustress_engine::purchase_documents::{
    line_document, order_document, read_line_document, read_order_document, stale_line_folders, LineFigures,
};
use eustress_engine::toml_doc::TomlScalar;
use eustress_engine::purchase_store::{
    display_from_wire, display_to_wire, iso_date, line_attributes, line_folder, line_folders, line_from_document,
    order_attributes, order_from_document, parse_reference_number, state_from_wire, state_to_wire,
    LineAttributes, OrderAttributes, PurchaseOrderRegistry,
};

#[derive(Debug, Clone, Copy, PartialEq, Default)]
struct Amounts {
    product_qty: f64,
    price_unit: f64,
}

fn line(name: &str, product_qty: f64, price_unit: f64) -> PurchaseOrderLine<Amounts> {
    PurchaseOrderLine::new(name.to_string(), Amounts { product_qty, price_unit })
}

fn untaxed(o: &PurchaseOrder<Amounts>) -> f64 {
    o.order_line
        .iter()
        .filter(|l| l.display_type == LineDisplayType::Product)
        .map(|l| l.amounts.product_qty * l.amounts.price_unit)
        .sum()
}

fn figures(l: &PurchaseOrderLine<Amounts>) -> LineFigures {
    LineFigures {
        product_qty: l.amounts.product_qty.to_string(),
        price_unit: l.amounts.price_unit.to_string(),
        discount: "0".to_string(),
        tax_percent: "0".to_string(),
        qty_received: "0".to_string(),
        qty_invoiced: "0".to_string(),
        price_subtotal: (l.amounts.product_qty * l.amounts.price_unit).to_string(),
    }
}

fn float_of(t: &[(String, TomlScalar)], k: &str) -> f64 {
    match t.iter().find(|(n, _)| n == k).map(|(_, v)| v) {
        Some(TomlScalar::Float(text, _)) => text.parse().unwrap(),
        Some(TomlScalar::Int(i)) => *i as f64,
        _ => 0.0,
    }
}

/// Read a line back from the document saving it writes.
fn reread_line(l: &PurchaseOrderLine<Amounts>) -> (i32, PurchaseOrderLine<Amounts>) {
    let (seq, r) = read_line_document(&line_document(l, figures(l))).unwrap();
    let amounts = Amounts { product_qty: float_of(&r.amounts, "product_qty"), price_unit: float_of(&r.amounts, "price_unit") };
    (
        seq,
        PurchaseOrderLine {
            name: r.name,
            sequence: r.sequence,
            product_id: r.product_id,
            product_uom: r.product_uom,
            date_planned: r.date_planned,
            display_type: r.display_type,
            amounts,
        },
    )
}

/// Save an order and its lines as documents and read them back, as a
/// reload does.
fn reload(o: &PurchaseOrder<Amounts>, folder: &str) -> PurchaseOrder<Amounts> {
    let total = untaxed(o).to_string();
    let text = order_document(o, total.clone(), "0".to_string(), total);
    let lines = o.order_line.iter().map(reread_line).collect();
    read_order_document(&text, folder.to_string(), lines).unwrap()
}

fn empty_attrs() -> OrderAttributes {
    OrderAttributes {
        reference: None,
        manufacturer_id: None,
        date_order: None,
        state: None,
        date_approve: None,
        date_planned: None,
        currency: None,
        partner_ref: None,
        origin: None,
        buyer: None,
        notes: None,
        has_invoices: false,
    }
}

fn empty_line_attrs() -> LineAttributes {
    LineAttributes {
        name: None,
        sequence: 0,
        product_id: None,
        product_uom: None,
        date_planned: None,
        display_type: None,
    }
}

#[test]
fn a_space_with_no_orders_creates_nothing() {
    let reg: PurchaseOrderRegistry<Amounts> = PurchaseOrderRegistry::from_loaded(Vec::new(), None);
    assert!(reg.orders.is_empty());
    assert_eq!(reg.next_sequence(), 1);
    let fresh: PurchaseOrderRegistry<Amounts> = PurchaseOrderRegistry::new();
    assert!(fresh.orders.is_empty());
    assert_eq!(fresh.next_sequence(), 1);
}

#[test]
fn raising_an_rfq_creates_the_folders_and_survives_a_reload() {
    let mut reg: PurchaseOrderRegistry<Amounts> = PurchaseOrderRegistry::new();
    let reference = reg.create_rfq("voltec-aln-thermal", 2026, 8, 9);
    assert_eq!(reference, "PO00001");

    let saved = reg.get("PO00001").unwrap();
    let back = reload(saved, "PO00001");
    let reloaded = PurchaseOrderRegistry::from_loaded(vec![back], Some(reg.next_sequence()));
    assert_eq!(reloaded.orders.len(), 1);
    let o = reloaded.get("PO00001").unwrap();
    assert_eq!(o.manufacturer_id, "voltec-aln-thermal");
    assert!(o.is_rfq());
}

#[test]
fn lines_persist_as_child_instances_in_sequence_order() {
    let mut reg: PurchaseOrderRegistry<Amounts> = PurchaseOrderRegistry::new();
    let r = reg.create_rfq_dated("v", "2026-08-09".to_string());
    {
        let o = reg.get_mut(&r).unwrap();
        let mut a = line("Zeta part", 2.0, 10.0);
        a.sequence = 20;
        let mut b = line("Alpha part", 3.0, 5.0);
        b.sequence = 10;
        o.order_line.push(a);
        o.order_line.push(b);
    }
    let o = reload(reg.get(&r).unwrap(), &r);
    assert_eq!(o.order_line.len(), 2);
    assert_eq!(o.order_line[0].name, "Alpha part");
    assert_eq!(o.order_line[1].name, "Zeta part");
    assert_eq!(untaxed(&o), 2.0 * 10.0 + 3.0 * 5.0);
}

#[test]
fn a_removed_line_does_not_come_back_as_a_phantom() {
    let mut reg: PurchaseOrderRegistry<Amounts> = PurchaseOrderRegistry::new();
    let r = reg.create_rfq_dated("v", "2026-08-09".to_string());
    {
        let o = reg.get_mut(&r).unwrap();
        o.order_line.push(line("Keep", 1.0, 1.0));
        o.order_line.push(line("Drop", 1.0, 1.0));
    }
    let before = line_folders(reg.get(&r).unwrap());
    assert_eq!(before, vec!["001 Keep".to_string(), "002 Drop".to_string()]);
    {
        let o = reg.get_mut(&r).unwrap();
        o.order_line.retain(|l| l.name == "Keep");
    }
    let after = line_folders(reg.get(&r).unwrap());
    assert_eq!(after, vec!["001 Keep".to_string()]);
    assert_eq!(stale_line_folders(&before, &after), vec!["002 Drop".to_string()]);
    let o = reload(reg.get(&r).unwrap(), &r);
    assert_eq!(o.order_line.len(), 1);
}

#[test]
fn the_state_machine_survives_a_reload() {
    let mut reg: PurchaseOrderRegistry<Amounts> = PurchaseOrderRegistry::new();
    let r = reg.create_rfq_dated("v", "2026-08-09".to_string());
    {
        let o = reg.get_mut(&r).unwrap();
        o.order_line.push(line("Bearing", 10.0, 4.5));
        o.print_quotation().unwrap();
        o.button_confirm(false).unwrap();
    }
    let o = reload(reg.get(&r).unwrap(), &r);
    assert_eq!(o.state, PurchaseOrderState::Purchase);
    assert!(!o.is_rfq());
    assert_eq!(untaxed(&o), 45.0);
}

#[test]
fn section_lines_round_trip_on_their_odoo_wire_value() {
    let mut reg: PurchaseOrderRegistry<Amounts> = PurchaseOrderRegistry::new();
    let r = reg.create_rfq_dated("v", "2026-08-09".to_string());
    {
        let o = reg.get_mut(&r).unwrap();
        let mut sec = line("QUALIFICATION LOT", 0.0, 0.0);
        sec.display_type = LineDisplayType::Section;
        o.order_line.push(sec);
        o.order_line.push(line("Oxide", 50.0, 4100.0));
    }
    let o = reload(reg.get(&r).unwrap(), &r);
    assert_eq!(o.order_line[0].display_type, LineDisplayType::Section);
    assert_eq!(untaxed(&o), 50.0 * 4100.0);
}

#[test]
fn a_lost_counter_cannot_mint_a_duplicate_reference() {
    let mut reg: PurchaseOrderRegistry<Amounts> = PurchaseOrderRegistry::new();
    reg.create_rfq_dated("a", "2026-08-09".to_string());
    reg.create_rfq_dated("b", "2026-08-09".to_string());
    let orders: Vec<PurchaseOrder<Amounts>> = reg.orders.iter().map(|o| reload(o, &o.name)).collect();

    let mut recovered = PurchaseOrderRegistry::from_loaded(orders, None);
    assert_eq!(recovered.next_sequence(), 3);
    assert_eq!(recovered.create_rfq_dated("c", "2026-08-09".to_string()), "PO00003");
}

#[test]
fn a_folder_of_the_wrong_class_is_not_loaded_as_an_order() {
    let stray: Option<PurchaseOrder<Amounts>> =
        order_from_document(Some("Folder"), Some(empty_attrs()), "NotAnOrder".to_string(), Vec::new());
    assert!(stray.is_none());
    let unnamed: Option<PurchaseOrder<Amounts>> =
        order_from_document(None, Some(empty_attrs()), "NotAnOrder".to_string(), Vec::new());
    assert!(unnamed.is_none());
    let bare: Option<PurchaseOrder<Amounts>> =
        order_from_document(Some("PurchaseOrder"), None, "NotAnOrder".to_string(), Vec::new());
    assert!(bare.is_none());
}

#[test]
fn stale_persisted_counter_is_raised_past_the_highest_reference() {
    let a = PurchaseOrder::<Amounts>::new_rfq("PO00007".to_string(), "a".to_string(), String::new());
    let b = PurchaseOrder::<Amounts>::new_rfq("PO00002".to_string(), "b".to_string(), String::new());
    let reg = PurchaseOrderRegistry::from_loaded(vec![a, b], Some(4));
    assert_eq!(reg.next_sequence(), 8);
    assert_eq!(reg.orders[0].name, "PO00002");
    assert_eq!(reg.orders[1].name, "PO00007");
}

#[test]
fn a_persisted_counter_ahead_of_the_orders_is_kept() {
    let a = PurchaseOrder::<Amounts>::new_rfq("PO00002".to_string(), "a".to_string(), String::new());
    let reg = PurchaseOrderRegistry::from_loaded(vec![a], Some(11));
    assert_eq!(reg.next_sequence(), 11);
}

#[test]
fn references_that_are_not_counters_do_not_raise_the_counter() {
    let a = PurchaseOrder::<Amounts>::new_rfq("Imported".to_string(), "a".to_string(), String::new());
    let reg = PurchaseOrderRegistry::from_loaded(vec![a], None);
    assert_eq!(reg.next_sequence(), 1);
}

#[test]
fn reference_numbers_parse_only_po_counters() {
    assert_eq!(parse_reference_number("PO00042"), Some(42));
    assert_eq!(parse_reference_number("PO1"), Some(1));
    assert_eq!(parse_reference_number("PO"), None);
    assert_eq!(parse_reference_number("PO+7"), Some(7));
    assert_eq!(parse_reference_number("PX00042"), None);
    assert_eq!(parse_reference_number("PO00a42"), None);
    assert_eq!(parse_reference_number("PO99999999999"), None);
}

#[test]
fn registry_lookup_remove_and_counts() {
    let mut reg: PurchaseOrderRegistry<Amounts> = PurchaseOrderRegistry::new();
    let a = reg.create_rfq_dated("a", "d".to_string());
    let b = reg.create_rfq_dated("b", "d".to_string());
    assert_eq!(reg.position(&a), Some(0));
    assert_eq!(reg.position(&b), Some(1));
    assert_eq!(reg.position("PO00009"), None);
    assert_eq!(reg.rfq_count(), 2);
    assert_eq!(reg.order_count(), 0);
    {
        let o = reg.get_mut(&b).unwrap();
        o.order_line.push(line("x", 1.0, 1.0));
        o.button_confirm(false).unwrap();
    }
    assert_eq!(reg.rfq_count(), 1);
    assert_eq!(reg.order_count(), 1);
    assert!(reg.remove(&a));
    assert!(!reg.remove(&a));
    assert!(reg.get(&a).is_none());
    assert_eq!(reg.orders.len(), 1);
    assert_eq!(reg.next_sequence(), 3);
}

#[test]
fn create_rfq_dates_the_order_today() {
    let mut reg: PurchaseOrderRegistry<Amounts> = PurchaseOrderRegistry::new();
    let r = reg.create_rfq("vendor", 2026, 8, 9);
    let o = reg.get(&r).unwrap();
    assert_eq!(o.date_order, "2026-08-09");
    assert_eq!(o.state, PurchaseOrderState::Draft);
    assert_eq!(o.currency, "USD");
}

#[test]
fn wire_values_round_trip_and_unknown_values_fall_back() {
    for s in [
        PurchaseOrderState::Draft,
        PurchaseOrderState::Sent,
        PurchaseOrderState::ToApprove,
        PurchaseOrderState::Purchase,
        PurchaseOrderState::Done,
        PurchaseOrderState::Cancel,
    ] {
        assert_eq!(state_from_wire(state_to_wire(s)), s);
    }
    assert_eq!(state_to_wire(PurchaseOrderState::ToApprove), "to approve");
    assert_eq!(state_from_wire("bogus"), PurchaseOrderState::Draft);
    for d in [LineDisplayType::Product, LineDisplayType::Section, LineDisplayType::Note] {
        assert_eq!(display_from_wire(display_to_wire(d)), d);
    }
    assert_eq!(display_to_wire(LineDisplayType::Section), "line_section");
    assert_eq!(display_to_wire(LineDisplayType::Note), "line_note");
    assert_eq!(display_to_wire(LineDisplayType::Product), "");
    assert_eq!(display_from_wire("something"), LineDisplayType::Product);
}

#[test]
fn line_folders_are_padded_and_sanitised() {
    assert_eq!(line_folder(0, "Keep"), "001 Keep");
    assert_eq!(line_folder(41, "a/b:c.d"), "042 a-b-c-d");
    assert_eq!(line_folder(2, "   "), "003");
    assert_eq!(line_folder(9, "  spaced  "), "010 spaced");
    let long = "x".repeat(60);
    assert_eq!(line_folder(0, &long), format!("001 {}", "x".repeat(48)));
    assert_eq!(line_folder(999, "big"), "1000 big");
}

#[test]
fn missing_attributes_take_their_defaults() {
    let o: PurchaseOrder<Amounts> =
        order_from_document(Some("PurchaseOrder"), Some(empty_attrs()), "PO00005".to_string(), Vec::new()).unwrap();
    assert_eq!(o.name, "PO00005");
    assert_eq!(o.manufacturer_id, "");
    assert_eq!(o.state, PurchaseOrderState::Draft);
    assert_eq!(o.currency, "USD");
    assert!(o.order_line.is_empty());

    let mut attrs = empty_line_attrs();
    attrs.sequence = 7;
    attrs.product_id = Some(String::new());
    let (seq, l) = line_from_document(Some("PurchaseOrderLine"), Some(attrs), Amounts::default()).unwrap();
    assert_eq!(seq, 7);
    assert_eq!(l.sequence, 7);
    assert_eq!(l.name, "");
    assert_eq!(l.product_uom, "pcs");
    assert_eq!(l.product_id, None);
    assert_eq!(l.display_type, LineDisplayType::Product);
    assert!(line_from_document(Some("PurchaseOrder"), Some(empty_line_attrs()), Amounts::default()).is_none());
    assert!(line_from_document(Some("PurchaseOrderLine"), None, Amounts::default()).is_none());
}

#[test]
fn saved_attributes_carry_every_field() {
    let mut o = PurchaseOrder::<Amounts>::new_rfq("PO00003".to_string(), "acme".to_string(), "2026-01-02".to_string());
    o.partner_ref = Some("VQ-9".to_string());
    o.notes = Some("rush".to_string());
    o.has_invoices = true;
    o.state = PurchaseOrderState::ToApprove;
    let a = order_attributes(&o);
    assert_eq!(a.reference.as_deref(), Some("PO00003"));
    assert_eq!(a.state.as_deref(), Some("to approve"));
    assert_eq!(a.partner_ref.as_deref(), Some("VQ-9"));
    assert_eq!(a.notes.as_deref(), Some("rush"));
    assert!(a.has_invoices);
    let back = reload(&o, "ignored");
    assert_eq!(back.name, "PO00003");
    assert_eq!(back.state, PurchaseOrderState::ToApprove);
    assert_eq!(back.partner_ref.as_deref(), Some("VQ-9"));
    assert!(back.has_invoices);

    let mut l = line("Bolt", 4.0, 0.25);
    l.sequence = 30;
    l.display_type = LineDisplayType::Note;
    let la = line_attributes(&l);
    assert_eq!(la.sequence, 30);
    assert_eq!(la.display_type.as_deref(), Some("line_note"));
    assert_eq!(la.product_uom.as_deref(), Some("pcs"));
}

#[test]
fn dates_are_written_as_chrono_writes_them() {
    assert_eq!(iso_date(2026, 8, 9), "2026-08-09");
    assert_eq!(iso_date(999, 1, 1), "0999-01-01");
    assert_eq!(iso_date(12345, 1, 2), "+12345-01-02");
    assert_eq!(iso_date(-5, 12, 31), "-0005-12-31");
    for (y, m, d) in [(2026, 8, 9), (1, 1, 1), (0, 2, 29), (9999, 12, 31), (10000, 3, 4), (-1, 6, 7), (-262000, 1, 1)] {
        let expected = chrono::NaiveDate::from_ymd_opt(y, m, d).unwrap().format("%Y-%m-%d").to_string();
        assert_eq!(iso_date(y, m, d), expected);
    }
    let now = chrono::Utc::now().date_naive();
    let today = now.format("%Y-%m-%d").to_string();
    let mut reg: PurchaseOrderRegistry<Amounts> = PurchaseOrderRegistry::new();
    let r = reg.create_rfq("v", chrono::Datelike::year(&now), chrono::Datelike::month(&now), chrono::Datelike::day(&now));
    let o = reg.get(&r).unwrap();
    assert_eq!(o.date_order, today);
}
