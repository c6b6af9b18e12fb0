use eustress_engine::purchase::{
    format_order_reference, InvoiceStatus, LineBilling, LineDisplayType, PurchaseError, PurchaseOrder,
    PurchaseOrderLine, PurchaseOrderState,
};

#[derive(Debug, Clone, Copy, PartialEq, Default)]
struct Amounts {
    product_qty: f64,
    price_unit: f64,
}

fn line(name: &str, product_qty: f64, price_unit: f64) -> PurchaseOrderLine<Amounts> {
    PurchaseOrderLine::new(name.to_string(), Amounts { product_qty, price_unit })
}

fn rfq_with_lines() -> PurchaseOrder<Amounts> {
    let mut po = PurchaseOrder::new_rfq(
        "PO00001".to_string(),
        "mfr-acme".to_string(),
        "2026-08-09T00:00:00Z".to_string(),
    );
    po.order_line.push(line("Aluminium plate 6061", 10.0, 25.0));
    po
}

#[test]
fn state_wire_values_match_odoo_exactly() {
    assert_eq!(PurchaseOrderState::Draft.as_odoo_str(), "draft");
    assert_eq!(PurchaseOrderState::Sent.as_odoo_str(), "sent");
    assert_eq!(PurchaseOrderState::ToApprove.as_odoo_str(), "to approve");
    assert_eq!(PurchaseOrderState::Purchase.as_odoo_str(), "purchase");
    assert_eq!(PurchaseOrderState::Done.as_odoo_str(), "done");
    assert_eq!(PurchaseOrderState::Cancel.as_odoo_str(), "cancel");
    assert_eq!(PurchaseOrderState::Draft.label(), "RFQ");
}

#[test]
fn an_rfq_becomes_a_purchase_order_without_changing_identity() {
    let mut po = rfq_with_lines();
    assert!(po.is_rfq());
    let reference = po.name.clone();
    let line_count = po.order_line.len();

    po.print_quotation().unwrap();
    assert_eq!(po.state, PurchaseOrderState::Sent);
    assert!(po.is_rfq(), "a sent RFQ is still an RFQ");

    po.button_confirm(false).unwrap();
    assert_eq!(po.state, PurchaseOrderState::Purchase);
    assert!(!po.is_rfq());

    assert_eq!(po.name, reference);
    assert_eq!(po.order_line.len(), line_count);
}

#[test]
fn confirm_routes_through_approval_when_required() {
    let mut po = rfq_with_lines();
    po.button_confirm(true).unwrap();
    assert_eq!(po.state, PurchaseOrderState::ToApprove);
    assert!(po.date_approve.is_none());

    po.button_approve("2026-08-10T12:00:00Z".to_string()).unwrap();
    assert_eq!(po.state, PurchaseOrderState::Purchase);
    assert_eq!(po.date_approve.as_deref(), Some("2026-08-10T12:00:00Z"));
}

#[test]
fn empty_rfq_cannot_be_confirmed() {
    let mut po: PurchaseOrder<Amounts> = PurchaseOrder::new_rfq(
        "PO00002".to_string(),
        "mfr-acme".to_string(),
        "2026-08-09T00:00:00Z".to_string(),
    );
    assert_eq!(po.button_confirm(false), Err(PurchaseError::NoOrderLines));
    po.order_line.push(PurchaseOrderLine::section("Frame parts".to_string(), Amounts::default()));
    assert_eq!(po.button_confirm(false), Err(PurchaseError::NoOrderLines));
}

#[test]
fn illegal_transitions_are_refused_not_silently_ignored() {
    let mut po = rfq_with_lines();
    assert!(matches!(
        po.button_approve("now".to_string()),
        Err(PurchaseError::IllegalTransition { .. })
    ));
    assert!(matches!(po.button_done(), Err(PurchaseError::IllegalTransition { .. })));
    po.print_quotation().unwrap();
    assert!(matches!(po.print_quotation(), Err(PurchaseError::IllegalTransition { .. })));
}

#[test]
fn cancel_is_blocked_by_vendor_bills() {
    let mut po = rfq_with_lines();
    po.button_confirm(false).unwrap();
    po.has_invoices = true;
    assert_eq!(po.button_cancel(), Err(PurchaseError::CancelBlockedByInvoices));
    po.has_invoices = false;
    po.button_cancel().unwrap();
    assert_eq!(po.state, PurchaseOrderState::Cancel);
}

#[test]
fn locked_orders_cannot_be_reset_to_draft() {
    let mut po = rfq_with_lines();
    po.button_confirm(false).unwrap();
    po.button_done().unwrap();
    assert!(matches!(po.button_draft(), Err(PurchaseError::IllegalTransition { .. })));
    po.button_unlock().unwrap();
    po.button_draft().unwrap();
    assert_eq!(po.state, PurchaseOrderState::Draft);
    assert!(po.date_approve.is_none(), "approval stamp clears on reset");
}

#[test]
fn invoice_status_tracks_received_versus_billed() {
    let mut po = rfq_with_lines();
    // What billing reports for the single line at each step: nothing
    // received, then ten received and none billed, then ten billed.
    let nothing = vec![LineBilling { awaiting_bill: false, fully_invoiced: false }];
    let received = vec![LineBilling { awaiting_bill: true, fully_invoiced: false }];
    let billed = vec![LineBilling { awaiting_bill: false, fully_invoiced: true }];
    assert_eq!(po.invoice_status(&received), InvoiceStatus::NothingToBill);

    po.button_confirm(false).unwrap();
    assert_eq!(po.invoice_status(&nothing), InvoiceStatus::NothingToBill);
    assert_eq!(po.invoice_status(&received), InvoiceStatus::ToInvoice);
    assert_eq!(po.invoice_status(&billed), InvoiceStatus::Invoiced);
}

#[test]
fn order_reference_matches_odoo_sequence_format() {
    assert_eq!(format_order_reference(1), "PO00001");
    assert_eq!(format_order_reference(42), "PO00042");
    assert_eq!(format_order_reference(99999), "PO99999");
}

#[test]
fn section_and_note_lines_never_affect_totals() {
    let mut po = rfq_with_lines();
    po.order_line.push(PurchaseOrderLine::section("Fasteners".to_string(), Amounts { product_qty: 3.0, price_unit: 9.0 }));
    po.order_line.push(PurchaseOrderLine::note("Deliver to dock B".to_string(), Amounts { product_qty: 1.0, price_unit: 7.0 }));
    let priced = po.priced_lines();
    let untaxed: f64 = priced.iter().map(|l| l.amounts.product_qty * l.amounts.price_unit).sum();
    assert_eq!(untaxed, 250.0);
    assert_eq!(priced.len(), 1);
    assert_eq!(priced[0].name, "Aluminium plate 6061");
    assert_eq!(po.order_line[1].display_type, LineDisplayType::Section);
    assert_eq!(po.order_line[2].display_type, LineDisplayType::Note);
}

#[test]
fn new_lines_take_the_odoo_defaults() {
    let l = line("Bolt", 4.0, 0.5);
    assert_eq!(l.sequence, 10);
    assert_eq!(l.product_uom, "pcs");
    assert!(l.product_id.is_none());
    assert!(l.is_priced());
    let po = rfq_with_lines();
    assert_eq!(po.currency, "USD");
    assert_eq!(po.state, PurchaseOrderState::Draft);
}

#[test]
fn terminal_states_and_labels() {
    assert!(PurchaseOrderState::Done.is_terminal());
    assert!(PurchaseOrderState::Cancel.is_terminal());
    assert!(!PurchaseOrderState::Purchase.is_terminal());
    assert!(PurchaseOrderState::Sent.is_rfq());
    assert!(!PurchaseOrderState::ToApprove.is_rfq());
}

#[test]
fn error_messages_name_the_state() {
    let mut po = rfq_with_lines();
    let err = po.button_done().unwrap_err();
    assert_eq!(err.message(), "cannot lock an order in state 'draft' (RFQ)");
    assert_eq!(
        PurchaseError::CancelBlockedByInvoices.message(),
        "cannot cancel: the order already has vendor bills"
    );
    assert_eq!(PurchaseError::NoOrderLines.message(), "cannot confirm an order with no order lines");
}

#[test]
fn a_refused_transition_changes_nothing() {
    let mut po = rfq_with_lines();
    let before_state = po.state;
    assert!(po.button_unlock().is_err());
    assert_eq!(po.state, before_state);
    assert_eq!(po.order_line.len(), 1);
}

#[test]
fn lock_then_unlock_returns_to_purchase() {
    let mut po = rfq_with_lines();
    po.button_confirm(false).unwrap();
    po.button_done().unwrap();
    assert_eq!(po.state, PurchaseOrderState::Done);
    po.button_unlock().unwrap();
    assert_eq!(po.state, PurchaseOrderState::Purchase);
}
