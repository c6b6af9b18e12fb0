//! Purchase orders and requests for quotation, following the Odoo
//! `purchase.order` model: one record type, one lifecycle.
//!
//! An RFQ is not a separate entity: it is a [`PurchaseOrder`] in state
//! `Draft` or `Sent`, and confirming it turns that same record into a
//! purchase order. The monetary quantities of a line (quantity, unit price,
//! discount, tax, received and billed quantities) are carried in the line's
//! `amounts` payload, whose arithmetic lives outside this crate; the state
//! machine here never reads them.

use vstd::prelude::*;
use crate::text::{push_str, zero_padded, zero_padded_string};

verus! {

// ============================================================================
// State
// ============================================================================

/// Lifecycle state. Wire values match Odoo's `state` selection exactly.
#[derive(Debug, Clone, Copy, PartialEq, Eq, Structural)]
pub enum PurchaseOrderState {
    /// `draft` — labelled "RFQ".
    Draft,
    /// `sent` — "RFQ Sent". The quotation has gone to the vendor.
    Sent,
    /// `to approve` — awaiting internal approval.
    ToApprove,
    /// `purchase` — a confirmed purchase order.
    Purchase,
    /// `done` — "Locked".
    Done,
    /// `cancel`.
    Cancel,
}

/// The Odoo wire string of a state.
pub open spec fn spec_odoo_str(s: PurchaseOrderState) -> Seq<char> {
    match s {
        PurchaseOrderState::Draft => "draft"@,
        PurchaseOrderState::Sent => "sent"@,
        PurchaseOrderState::ToApprove => "to approve"@,
        PurchaseOrderState::Purchase => "purchase"@,
        PurchaseOrderState::Done => "done"@,
        PurchaseOrderState::Cancel => "cancel"@,
    }
}

/// Odoo's UI label of a state.
pub open spec fn spec_label(s: PurchaseOrderState) -> Seq<char> {
    match s {
        PurchaseOrderState::Draft => "RFQ"@,
        PurchaseOrderState::Sent => "RFQ Sent"@,
        PurchaseOrderState::ToApprove => "To Approve"@,
        PurchaseOrderState::Purchase => "Purchase Order"@,
        PurchaseOrderState::Done => "Locked"@,
        PurchaseOrderState::Cancel => "Cancelled"@,
    }
}

/// Still a request for quotation rather than a committed order.
pub open spec fn spec_is_rfq(s: PurchaseOrderState) -> bool {
    s == PurchaseOrderState::Draft || s == PurchaseOrderState::Sent
}

/// No further transitions are expected from here.
pub open spec fn spec_is_terminal(s: PurchaseOrderState) -> bool {
    s == PurchaseOrderState::Done || s == PurchaseOrderState::Cancel
}

impl PurchaseOrderState {
    /// The exact Odoo wire string.
    pub fn as_odoo_str(&self) -> (r: &'static str)
        ensures
            r@ == spec_odoo_str(*self),
    {
        match self {
            PurchaseOrderState::Draft => "draft",
            PurchaseOrderState::Sent => "sent",
            PurchaseOrderState::ToApprove => "to approve",
            PurchaseOrderState::Purchase => "purchase",
            PurchaseOrderState::Done => "done",
            PurchaseOrderState::Cancel => "cancel",
        }
    }

    /// Odoo's UI label for the state.
    pub fn label(&self) -> (r: &'static str)
        ensures
            r@ == spec_label(*self),
    {
        match self {
            PurchaseOrderState::Draft => "RFQ",
            PurchaseOrderState::Sent => "RFQ Sent",
            PurchaseOrderState::ToApprove => "To Approve",
            PurchaseOrderState::Purchase => "Purchase Order",
            PurchaseOrderState::Done => "Locked",
            PurchaseOrderState::Cancel => "Cancelled",
        }
    }

    /// True while the record is still a Request For Quote — Odoo's `draft`
    /// and `sent`.
    pub fn is_rfq(&self) -> (r: bool)
        ensures
            r == spec_is_rfq(*self),
    {
        match self {
            PurchaseOrderState::Draft | PurchaseOrderState::Sent => true,
            _ => false,
        }
    }

    /// No further transitions are expected from here.
    pub fn is_terminal(&self) -> (r: bool)
        ensures
            r == spec_is_terminal(*self),
    {
        match self {
            PurchaseOrderState::Done | PurchaseOrderState::Cancel => true,
            _ => false,
        }
    }
}

/// Odoo's `invoice_status`.
#[derive(Debug, Clone, Copy, PartialEq, Eq, Structural)]
pub enum InvoiceStatus {
    /// `no` — nothing to bill yet.
    NothingToBill,
    /// `to invoice` — received quantities are awaiting a bill.
    ToInvoice,
    /// `invoiced` — fully billed.
    Invoiced,
}

impl Default for InvoiceStatus {
    fn default() -> (r: Self)
        ensures
            r == InvoiceStatus::NothingToBill,
    {
        InvoiceStatus::NothingToBill
    }
}

/// Why a transition was refused. An illegal transition is a value the caller
/// must handle, never a panic.
#[derive(Debug, Clone, PartialEq, Eq)]
pub enum PurchaseError {
    /// The attempted transition isn't legal from the current state.
    IllegalTransition { from: PurchaseOrderState, action: &'static str },
    /// Odoo blocks cancelling an order that already has vendor bills.
    CancelBlockedByInvoices,
    /// An order must have at least one non-display line to be confirmed.
    NoOrderLines,
}

/// The human-readable text of an error.
pub open spec fn spec_error_message(e: PurchaseError) -> Seq<char> {
    match e {
        PurchaseError::IllegalTransition { from, action } =>
            "cannot "@ + action@ + " an order in state '"@ + spec_odoo_str(from) + "' ("@
                + spec_label(from) + ")"@,
        PurchaseError::CancelBlockedByInvoices =>
            "cannot cancel: the order already has vendor bills"@,
        PurchaseError::NoOrderLines => "cannot confirm an order with no order lines"@,
    }
}

impl PurchaseError {
    /// The message the error displays.
    pub fn message(&self) -> (r: String)
        ensures
            r@ == spec_error_message(*self),
    {
        match self {
            PurchaseError::IllegalTransition { from, action } => {
                let mut s = String::new();
                push_str(&mut s, "cannot ");
                push_str(&mut s, action);
                push_str(&mut s, " an order in state '");
                push_str(&mut s, from.as_odoo_str());
                push_str(&mut s, "' (");
                push_str(&mut s, from.label());
                push_str(&mut s, ")");
                s
            },
            PurchaseError::CancelBlockedByInvoices => {
                let mut s = String::new();
                push_str(&mut s, "cannot cancel: the order already has vendor bills");
                s
            },
            PurchaseError::NoOrderLines => {
                let mut s = String::new();
                push_str(&mut s, "cannot confirm an order with no order lines");
                s
            },
        }
    }
}

// ============================================================================
// Order lines
// ============================================================================

/// Odoo's `display_type` — lets a line act as a section header or a note
/// rather than a priced item.
#[derive(Debug, Clone, Copy, PartialEq, Eq, Structural)]
pub enum LineDisplayType {
    /// A normal priced product line.
    Product,
    /// Odoo `line_section` — a heading.
    Section,
    /// Odoo `line_note` — free text.
    Note,
}

impl Default for LineDisplayType {
    fn default() -> (r: Self)
        ensures
            r == LineDisplayType::Product,
    {
        LineDisplayType::Product
    }
}

/// A single line — Odoo `purchase.order.line`. `amounts` carries the line's
/// quantities and prices.
#[derive(Debug, Clone)]
pub struct PurchaseOrderLine<M> {
    /// Odoo `name` — the description shown on the order.
    pub name: String,
    /// Odoo `sequence`, default 10; controls display order.
    pub sequence: i32,
    /// Odoo `product_id`, a free-text product key.
    pub product_id: Option<String>,
    /// Odoo `product_uom` — unit of measure ("pcs", "kg", "m").
    pub product_uom: String,
    /// Odoo `date_planned` — expected arrival, ISO 8601.
    pub date_planned: Option<String>,
    /// Odoo `display_type`.
    pub display_type: LineDisplayType,
    /// Quantity, unit price, discount, tax and received/billed quantities.
    pub amounts: M,
}

/// The default line sequence.
pub open spec fn default_sequence() -> i32 {
    10
}

/// The default unit of measure.
pub open spec fn default_uom() -> Seq<char> {
    "pcs"@
}

/// Whether a line contributes to the order totals.
pub open spec fn line_is_priced<M>(l: PurchaseOrderLine<M>) -> bool {
    l.display_type == LineDisplayType::Product
}

impl<M> PurchaseOrderLine<M> {
    fn with_display(name: String, amounts: M, display_type: LineDisplayType) -> (r: Self)
        ensures
            r.name == name,
            r.sequence == default_sequence(),
            r.product_id is None,
            r.product_uom@ == default_uom(),
            r.date_planned is None,
            r.display_type == display_type,
            r.amounts == amounts,
    {
        let mut uom = String::new();
        push_str(&mut uom, "pcs");
        PurchaseOrderLine {
            name,
            sequence: 10,
            product_id: None,
            product_uom: uom,
            date_planned: None,
            display_type,
            amounts,
        }
    }

    /// A priced product line.
    pub fn new(name: String, amounts: M) -> (r: Self)
        ensures
            r.name == name,
            r.sequence == default_sequence(),
            r.product_id is None,
            r.product_uom@ == default_uom(),
            r.date_planned is None,
            r.display_type == LineDisplayType::Product,
            r.amounts == amounts,
    {
        Self::with_display(name, amounts, LineDisplayType::Product)
    }

    /// A section heading (Odoo `line_section`); its amounts never count.
    pub fn section(name: String, amounts: M) -> (r: Self)
        ensures
            r.name == name,
            r.sequence == default_sequence(),
            r.product_id is None,
            r.product_uom@ == default_uom(),
            r.date_planned is None,
            r.display_type == LineDisplayType::Section,
            r.amounts == amounts,
    {
        Self::with_display(name, amounts, LineDisplayType::Section)
    }

    /// A free-text note (Odoo `line_note`); its amounts never count.
    pub fn note(name: String, amounts: M) -> (r: Self)
        ensures
            r.name == name,
            r.sequence == default_sequence(),
            r.product_id is None,
            r.product_uom@ == default_uom(),
            r.date_planned is None,
            r.display_type == LineDisplayType::Note,
            r.amounts == amounts,
    {
        Self::with_display(name, amounts, LineDisplayType::Note)
    }

    /// Whether this line contributes to the order totals. Section and note
    /// lines never do.
    pub fn is_priced(&self) -> (r: bool)
        ensures
            r == line_is_priced(*self),
    {
        match self.display_type {
            LineDisplayType::Product => true,
            _ => false,
        }
    }
}

/// What the billing side reports about one line: whether received
/// quantities are waiting for a bill (`qty_received - qty_invoiced > 0`),
/// and whether the billed quantity has reached the ordered quantity.
#[derive(Debug, Clone, Copy, PartialEq, Eq, Structural)]
pub struct LineBilling {
    pub awaiting_bill: bool,
    pub fully_invoiced: bool,
}

// ============================================================================
// The order (and therefore the RFQ)
// ============================================================================

/// Odoo `purchase.order`. In `Draft` or `Sent` this record *is* the RFQ;
/// confirming it makes the same record a purchase order.
#[derive(Debug, Clone)]
pub struct PurchaseOrder<M> {
    /// Odoo `name` — the order reference, e.g. `"PO00001"`.
    pub name: String,
    /// The vendor: a registered manufacturer's id.
    pub manufacturer_id: String,
    /// Odoo `state`.
    pub state: PurchaseOrderState,
    /// Odoo `date_order` — order deadline, ISO 8601.
    pub date_order: String,
    /// Odoo `date_approve` — set when approved.
    pub date_approve: Option<String>,
    /// Odoo `date_planned` — expected arrival.
    pub date_planned: Option<String>,
    /// Odoo `currency_id` — ISO 4217, e.g. `"USD"`.
    pub currency: String,
    /// Odoo `partner_ref` — the vendor's own reference.
    pub partner_ref: Option<String>,
    /// Odoo `origin` — the source document.
    pub origin: Option<String>,
    /// Odoo `user_id` — the buyer.
    pub buyer: Option<String>,
    /// Odoo `notes` — terms and conditions.
    pub notes: Option<String>,
    /// Odoo `order_line`.
    pub order_line: Vec<PurchaseOrderLine<M>>,
    /// Set when a vendor bill exists; gates cancellation.
    pub has_invoices: bool,
}

/// The default currency.
pub open spec fn default_currency() -> Seq<char> {
    "USD"@
}

/// Some line of `lines` carries a price.
pub open spec fn has_priced_line<M>(lines: Seq<PurchaseOrderLine<M>>) -> bool {
    exists|i: int| 0 <= i < lines.len() && line_is_priced(#[trigger] lines[i])
}

/// The priced lines of `lines`, in order.
pub open spec fn priced_seq<M>(lines: Seq<PurchaseOrderLine<M>>) -> Seq<PurchaseOrderLine<M>>
    decreases lines.len(),
{
    if lines.len() == 0 {
        Seq::empty()
    } else {
        let rest = priced_seq(lines.drop_last());
        if line_is_priced(lines.last()) {
            rest.push(lines.last())
        } else {
            rest
        }
    }
}

/// Section and note lines never count toward an order's totals: inserting
/// one at any position leaves the priced lines, from which every amount is
/// summed, exactly as they were.
pub proof fn law_unpriced_line_leaves_priced_lines<M>(lines: Seq<PurchaseOrderLine<M>>, i: int, l: PurchaseOrderLine<M>)
    requires
        0 <= i <= lines.len(),
        !line_is_priced(l),
    ensures
        priced_seq(lines.insert(i, l)) == priced_seq(lines),
    decreases lines.len(),
{
    let t = lines.insert(i, l);
    if i == lines.len() {
        assert(t.drop_last() =~= lines);
        assert(t.last() == l);
    } else {
        assert(t.drop_last() =~= lines.drop_last().insert(i, l));
        assert(t.last() == lines.last());
        law_unpriced_line_leaves_priced_lines(lines.drop_last(), i, l);
    }
}

/// The order with only its state changed.
pub open spec fn with_state<M>(o: PurchaseOrder<M>, s: PurchaseOrderState) -> PurchaseOrder<M> {
    PurchaseOrder { state: s, ..o }
}

/// Odoo `print_quotation`: `draft` → `sent`.
pub open spec fn spec_print_quotation<M>(o: PurchaseOrder<M>) -> Result<PurchaseOrder<M>, PurchaseError> {
    if o.state == PurchaseOrderState::Draft {
        Ok(with_state(o, PurchaseOrderState::Sent))
    } else {
        Err(PurchaseError::IllegalTransition { from: o.state, action: "send" })
    }
}

/// Odoo `button_confirm`: from an RFQ state, to `to approve` when approval
/// is required and to `purchase` otherwise; an order with no priced line is
/// refused.
pub open spec fn spec_button_confirm<M>(o: PurchaseOrder<M>, requires_approval: bool) -> Result<PurchaseOrder<M>, PurchaseError> {
    if !spec_is_rfq(o.state) {
        Err(PurchaseError::IllegalTransition { from: o.state, action: "confirm" })
    } else if !has_priced_line(o.order_line@) {
        Err(PurchaseError::NoOrderLines)
    } else if requires_approval {
        Ok(with_state(o, PurchaseOrderState::ToApprove))
    } else {
        Ok(with_state(o, PurchaseOrderState::Purchase))
    }
}

/// Odoo `button_approve`: `to approve` → `purchase`, stamping `date_approve`.
pub open spec fn spec_button_approve<M>(o: PurchaseOrder<M>, approved_at: String) -> Result<PurchaseOrder<M>, PurchaseError> {
    if o.state == PurchaseOrderState::ToApprove {
        Ok(PurchaseOrder { state: PurchaseOrderState::Purchase, date_approve: Some(approved_at), ..o })
    } else {
        Err(PurchaseError::IllegalTransition { from: o.state, action: "approve" })
    }
}

/// Odoo `button_done`: `purchase` → `done` (locked).
pub open spec fn spec_button_done<M>(o: PurchaseOrder<M>) -> Result<PurchaseOrder<M>, PurchaseError> {
    if o.state == PurchaseOrderState::Purchase {
        Ok(with_state(o, PurchaseOrderState::Done))
    } else {
        Err(PurchaseError::IllegalTransition { from: o.state, action: "lock" })
    }
}

/// Odoo `button_unlock`: `done` → `purchase`.
pub open spec fn spec_button_unlock<M>(o: PurchaseOrder<M>) -> Result<PurchaseOrder<M>, PurchaseError> {
    if o.state == PurchaseOrderState::Done {
        Ok(with_state(o, PurchaseOrderState::Purchase))
    } else {
        Err(PurchaseError::IllegalTransition { from: o.state, action: "unlock" })
    }
}

/// Odoo `button_draft`: any state but `done` resets to `draft` and clears
/// the approval stamp.
pub open spec fn spec_button_draft<M>(o: PurchaseOrder<M>) -> Result<PurchaseOrder<M>, PurchaseError> {
    if o.state == PurchaseOrderState::Done {
        Err(PurchaseError::IllegalTransition { from: o.state, action: "reset to draft" })
    } else {
        Ok(PurchaseOrder { state: PurchaseOrderState::Draft, date_approve: None, ..o })
    }
}

/// Odoo `button_cancel`: refused when vendor bills exist, and from terminal
/// states.
pub open spec fn spec_button_cancel<M>(o: PurchaseOrder<M>) -> Result<PurchaseOrder<M>, PurchaseError> {
    if o.has_invoices {
        Err(PurchaseError::CancelBlockedByInvoices)
    } else if spec_is_terminal(o.state) {
        Err(PurchaseError::IllegalTransition { from: o.state, action: "cancel" })
    } else {
        Ok(with_state(o, PurchaseOrderState::Cancel))
    }
}

/// The order a transition leaves behind: the new record on success, the old
/// one untouched on refusal.
pub open spec fn after<M>(o: PurchaseOrder<M>, r: Result<PurchaseOrder<M>, PurchaseError>) -> PurchaseOrder<M> {
    match r {
        Ok(n) => n,
        Err(_) => o,
    }
}

/// What a transition returns to its caller.
pub open spec fn outcome<M>(r: Result<PurchaseOrder<M>, PurchaseError>) -> Result<(), PurchaseError> {
    match r {
        Ok(_) => Ok(()),
        Err(e) => Err(e),
    }
}

/// Odoo `invoice_status`: nothing to bill for an RFQ or an order without
/// priced lines; otherwise `to invoice` when any priced line has received
/// quantity awaiting a bill, `invoiced` when every priced line is fully
/// billed, and nothing to bill in between.
pub open spec fn spec_invoice_status<M>(o: PurchaseOrder<M>, billing: Seq<LineBilling>) -> InvoiceStatus {
    let lines = o.order_line@;
    if !has_priced_line(lines) || spec_is_rfq(o.state) {
        InvoiceStatus::NothingToBill
    } else if exists|i: int| 0 <= i < lines.len() && line_is_priced(#[trigger] lines[i]) && billing[i].awaiting_bill {
        InvoiceStatus::ToInvoice
    } else if forall|i: int| 0 <= i < lines.len() && line_is_priced(#[trigger] lines[i]) ==> billing[i].fully_invoiced {
        InvoiceStatus::Invoiced
    } else {
        InvoiceStatus::NothingToBill
    }
}

/// An order reference: `PO` and the counter zero-padded to five digits.
pub open spec fn spec_order_reference(counter: u32) -> Seq<char> {
    "PO"@ + zero_padded(counter as nat, 5)
}

impl<M> PurchaseOrder<M> {
    /// Open a new RFQ against a manufacturer, in Odoo's default `draft`.
    pub fn new_rfq(name: String, manufacturer_id: String, date_order: String) -> (r: Self)
        ensures
            r.name == name,
            r.manufacturer_id == manufacturer_id,
            r.state == PurchaseOrderState::Draft,
            r.date_order == date_order,
            r.date_approve is None,
            r.date_planned is None,
            r.currency@ == default_currency(),
            r.partner_ref is None,
            r.origin is None,
            r.buyer is None,
            r.notes is None,
            r.order_line@.len() == 0,
            !r.has_invoices,
    {
        let mut currency = String::new();
        push_str(&mut currency, "USD");
        PurchaseOrder {
            name,
            manufacturer_id,
            state: PurchaseOrderState::Draft,
            date_order,
            date_approve: None,
            date_planned: None,
            currency,
            partner_ref: None,
            origin: None,
            buyer: None,
            notes: None,
            order_line: Vec::new(),
            has_invoices: false,
        }
    }

    /// Is this record currently an RFQ rather than a committed order?
    pub fn is_rfq(&self) -> (r: bool)
        ensures
            r == spec_is_rfq(self.state),
    {
        self.state.is_rfq()
    }

    fn any_priced(&self) -> (r: bool)
        ensures
            r == has_priced_line(self.order_line@),
    {
        let mut i: usize = 0;
        while i < self.order_line.len()
            invariant
                i <= self.order_line.len(),
                forall|j: int| 0 <= j < i ==> !line_is_priced(#[trigger] self.order_line@[j]),
            decreases self.order_line.len() - i,
        {
            if self.order_line[i].is_priced() {
                return true;
            }
            i = i + 1;
        }
        false
    }

    /// Odoo `invoice_status`, from what billing reports for each line.
    pub fn invoice_status(&self, billing: &Vec<LineBilling>) -> (r: InvoiceStatus)
        requires
            billing@.len() == self.order_line@.len(),
        ensures
            r == spec_invoice_status(*self, billing@),
    {
        let n = self.order_line.len();
        if !self.any_priced() || self.state.is_rfq() {
            return InvoiceStatus::NothingToBill;
        }
        let mut i: usize = 0;
        while i < n
            invariant
                n == self.order_line@.len(),
                billing@.len() == n,
                has_priced_line(self.order_line@),
                !spec_is_rfq(self.state),
                i <= n,
                forall|j: int| 0 <= j < i && line_is_priced(#[trigger] self.order_line@[j]) ==> !billing@[j].awaiting_bill,
            decreases n - i,
        {
            if self.order_line[i].is_priced() && billing[i].awaiting_bill {
                assert(line_is_priced(self.order_line@[i as int]) && billing@[i as int].awaiting_bill);
                return InvoiceStatus::ToInvoice;
            }
            i = i + 1;
        }
        let mut k: usize = 0;
        while k < n
            invariant
                n == self.order_line@.len(),
                billing@.len() == n,
                has_priced_line(self.order_line@),
                !spec_is_rfq(self.state),
                k <= n,
                forall|j: int| 0 <= j < n && line_is_priced(#[trigger] self.order_line@[j]) ==> !billing@[j].awaiting_bill,
                forall|j: int| 0 <= j < k && line_is_priced(#[trigger] self.order_line@[j]) ==> billing@[j].fully_invoiced,
            decreases n - k,
        {
            if self.order_line[k].is_priced() && !billing[k].fully_invoiced {
                assert(line_is_priced(self.order_line@[k as int]) && !billing@[k as int].fully_invoiced);
                return InvoiceStatus::NothingToBill;
            }
            k = k + 1;
        }
        InvoiceStatus::Invoiced
    }

    /// Lines that actually carry a price, in order.
    pub fn priced_lines(&self) -> (r: Vec<&PurchaseOrderLine<M>>)
        ensures
            r@.map_values(|l: &PurchaseOrderLine<M>| *l) == priced_seq(self.order_line@),
    {
        let mut r: Vec<&PurchaseOrderLine<M>> = Vec::new();
        let mut i: usize = 0;
        while i < self.order_line.len()
            invariant
                i <= self.order_line.len(),
                r@.map_values(|l: &PurchaseOrderLine<M>| *l) == priced_seq(self.order_line@.subrange(0, i as int)),
            decreases self.order_line.len() - i,
        {
            let ghost prev = r@;
            let line = &self.order_line[i];
            proof {
                let s = self.order_line@.subrange(0, i + 1);
                assert(s.drop_last() =~= self.order_line@.subrange(0, i as int));
                assert(s.last() == self.order_line@[i as int]);
            }
            if line.is_priced() {
                r.push(line);
                proof {
                    assert(r@.map_values(|l: &PurchaseOrderLine<M>| *l) =~= prev.map_values(|l: &PurchaseOrderLine<M>| *l).push(*line));
                }
            }
            i = i + 1;
        }
        proof {
            assert(self.order_line@.subrange(0, self.order_line@.len() as int) =~= self.order_line@);
        }
        r
    }

    // --- transitions (Odoo's `button_*` / `print_quotation`) ---------------

    /// Odoo `print_quotation` — the RFQ has been sent to the vendor.
    pub fn print_quotation(&mut self) -> (r: Result<(), PurchaseError>)
        ensures
            *final(self) == after(*old(self), spec_print_quotation(*old(self))),
            r == outcome(spec_print_quotation(*old(self))),
    {
        match self.state {
            PurchaseOrderState::Draft => {
                self.state = PurchaseOrderState::Sent;
                Ok(())
            },
            from => Err(PurchaseError::IllegalTransition { from, action: "send" }),
        }
    }

    /// Odoo `button_confirm`, with approval as an explicit argument.
    pub fn button_confirm(&mut self, requires_approval: bool) -> (r: Result<(), PurchaseError>)
        ensures
            *final(self) == after(*old(self), spec_button_confirm(*old(self), requires_approval)),
            r == outcome(spec_button_confirm(*old(self), requires_approval)),
    {
        if !self.state.is_rfq() {
            return Err(PurchaseError::IllegalTransition { from: self.state, action: "confirm" });
        }
        if !self.any_priced() {
            return Err(PurchaseError::NoOrderLines);
        }
        self.state = if requires_approval {
            PurchaseOrderState::ToApprove
        } else {
            PurchaseOrderState::Purchase
        };
        Ok(())
    }

    /// Odoo `button_approve` — `to approve` → `purchase`, stamping
    /// `date_approve`.
    pub fn button_approve(&mut self, approved_at: String) -> (r: Result<(), PurchaseError>)
        ensures
            *final(self) == after(*old(self), spec_button_approve(*old(self), approved_at)),
            r == outcome(spec_button_approve(*old(self), approved_at)),
    {
        match self.state {
            PurchaseOrderState::ToApprove => {
                self.state = PurchaseOrderState::Purchase;
                self.date_approve = Some(approved_at);
                Ok(())
            },
            from => Err(PurchaseError::IllegalTransition { from, action: "approve" }),
        }
    }

    /// Odoo `button_done` — lock a confirmed order.
    pub fn button_done(&mut self) -> (r: Result<(), PurchaseError>)
        ensures
            *final(self) == after(*old(self), spec_button_done(*old(self))),
            r == outcome(spec_button_done(*old(self))),
    {
        match self.state {
            PurchaseOrderState::Purchase => {
                self.state = PurchaseOrderState::Done;
                Ok(())
            },
            from => Err(PurchaseError::IllegalTransition { from, action: "lock" }),
        }
    }

    /// Odoo `button_unlock` — `done` → `purchase`.
    pub fn button_unlock(&mut self) -> (r: Result<(), PurchaseError>)
        ensures
            *final(self) == after(*old(self), spec_button_unlock(*old(self))),
            r == outcome(spec_button_unlock(*old(self))),
    {
        match self.state {
            PurchaseOrderState::Done => {
                self.state = PurchaseOrderState::Purchase;
                Ok(())
            },
            from => Err(PurchaseError::IllegalTransition { from, action: "unlock" }),
        }
    }

    /// Odoo `button_draft` — reset to RFQ.
    pub fn button_draft(&mut self) -> (r: Result<(), PurchaseError>)
        ensures
            *final(self) == after(*old(self), spec_button_draft(*old(self))),
            r == outcome(spec_button_draft(*old(self))),
    {
        match self.state {
            PurchaseOrderState::Done => Err(
                PurchaseError::IllegalTransition { from: self.state, action: "reset to draft" },
            ),
            _ => {
                self.state = PurchaseOrderState::Draft;
                self.date_approve = None;
                Ok(())
            },
        }
    }

    /// Odoo `button_cancel`. Refused when vendor bills exist, and refused
    /// from terminal states.
    pub fn button_cancel(&mut self) -> (r: Result<(), PurchaseError>)
        ensures
            *final(self) == after(*old(self), spec_button_cancel(*old(self))),
            r == outcome(spec_button_cancel(*old(self))),
    {
        if self.has_invoices {
            return Err(PurchaseError::CancelBlockedByInvoices);
        }
        if self.state.is_terminal() {
            return Err(PurchaseError::IllegalTransition { from: self.state, action: "cancel" });
        }
        self.state = PurchaseOrderState::Cancel;
        Ok(())
    }
}

/// The fields that make a record the same order: everything but its state
/// and approval stamp.
pub open spec fn same_identity<M>(a: PurchaseOrder<M>, b: PurchaseOrder<M>) -> bool {
    &&& a.name == b.name
    &&& a.manufacturer_id == b.manufacturer_id
    &&& a.date_order == b.date_order
    &&& a.date_planned == b.date_planned
    &&& a.currency == b.currency
    &&& a.partner_ref == b.partner_ref
    &&& a.origin == b.origin
    &&& a.buyer == b.buyer
    &&& a.notes == b.notes
    &&& a.order_line == b.order_line
    &&& a.has_invoices == b.has_invoices
}

/// Every transition, accepted or refused, leaves the same record behind:
/// same reference, vendor, dates, lines and bill flag. An RFQ becomes a
/// purchase order without changing identity.
pub proof fn law_transitions_keep_identity<M>(o: PurchaseOrder<M>, requires_approval: bool, approved_at: String)
    ensures
        same_identity(o, after(o, spec_print_quotation(o))),
        same_identity(o, after(o, spec_button_confirm(o, requires_approval))),
        same_identity(o, after(o, spec_button_approve(o, approved_at))),
        same_identity(o, after(o, spec_button_done(o))),
        same_identity(o, after(o, spec_button_unlock(o))),
        same_identity(o, after(o, spec_button_draft(o))),
        same_identity(o, after(o, spec_button_cancel(o))),
{
}

/// A refused transition changes nothing.
pub proof fn law_refusal_changes_nothing<M>(o: PurchaseOrder<M>, requires_approval: bool, approved_at: String)
    ensures
        spec_print_quotation(o) is Err ==> after(o, spec_print_quotation(o)) == o,
        spec_button_confirm(o, requires_approval) is Err ==> after(o, spec_button_confirm(o, requires_approval)) == o,
        spec_button_approve(o, approved_at) is Err ==> after(o, spec_button_approve(o, approved_at)) == o,
        spec_button_done(o) is Err ==> after(o, spec_button_done(o)) == o,
        spec_button_unlock(o) is Err ==> after(o, spec_button_unlock(o)) == o,
        spec_button_draft(o) is Err ==> after(o, spec_button_draft(o)) == o,
        spec_button_cancel(o) is Err ==> after(o, spec_button_cancel(o)) == o,
{
}

/// Sending keeps a record an RFQ; a successful confirmation makes it a
/// committed order.
pub proof fn law_rfq_then_order<M>(o: PurchaseOrder<M>, requires_approval: bool)
    ensures
        spec_print_quotation(o) is Ok ==> spec_is_rfq(after(o, spec_print_quotation(o)).state),
        spec_button_confirm(o, requires_approval) is Ok ==> spec_is_rfq(o.state)
            && !spec_is_rfq(after(o, spec_button_confirm(o, requires_approval)).state),
{
}

/// Cancel is reachable from every non-terminal state of an order without
/// vendor bills, and from no other.
pub proof fn law_cancel_reachable<M>(o: PurchaseOrder<M>)
    ensures
        spec_button_cancel(o) is Ok <==> (!o.has_invoices && !spec_is_terminal(o.state)),
        spec_button_cancel(o) is Ok ==> after(o, spec_button_cancel(o)).state == PurchaseOrderState::Cancel,
{
}

/// Locking and then unlocking a confirmed order gives back the same order.
pub proof fn law_lock_unlock_roundtrip<M>(o: PurchaseOrder<M>)
    requires
        o.state == PurchaseOrderState::Purchase,
    ensures
        spec_button_done(o) is Ok,
        spec_button_unlock(after(o, spec_button_done(o))) is Ok,
        after(after(o, spec_button_done(o)), spec_button_unlock(after(o, spec_button_done(o)))) == o,
{
}

/// A locked order cannot be reset to draft; unlocking first is the route
/// back, and the reset clears the approval stamp.
pub proof fn law_locked_reset_needs_unlock<M>(o: PurchaseOrder<M>)
    requires
        o.state == PurchaseOrderState::Done,
    ensures
        spec_button_draft(o) is Err,
        ({
            let unlocked = after(o, spec_button_unlock(o));
            &&& spec_button_draft(unlocked) is Ok
            &&& after(unlocked, spec_button_draft(unlocked)).state == PurchaseOrderState::Draft
            &&& after(unlocked, spec_button_draft(unlocked)).date_approve is None
        }),
{
}

/// An RFQ with a priced line always confirms: straight to a purchase order,
/// or through approval, after which approving stamps the date.
pub proof fn law_confirm_routes<M>(o: PurchaseOrder<M>, approved_at: String)
    requires
        spec_is_rfq(o.state),
        has_priced_line(o.order_line@),
    ensures
        after(o, spec_button_confirm(o, false)).state == PurchaseOrderState::Purchase,
        after(o, spec_button_confirm(o, true)).state == PurchaseOrderState::ToApprove,
        ({
            let waiting = after(o, spec_button_confirm(o, true));
            &&& after(waiting, spec_button_approve(waiting, approved_at)).state == PurchaseOrderState::Purchase
            &&& after(waiting, spec_button_approve(waiting, approved_at)).date_approve == Some(approved_at)
        }),
{
}

/// Format a sequential reference the way Odoo's `ir.sequence` does for
/// purchase orders: `PO` + 5-digit zero-padded counter.
pub fn format_order_reference(counter: u32) -> (r: String)
    ensures
        r@ == spec_order_reference(counter),
{
    let digits = zero_padded_string(counter as u64, 5);
    let mut s = String::new();
    push_str(&mut s, "PO");
    push_str(&mut s, digits.as_str());
    s
}

/// What each invoice status says of an order: `invoiced` only when it is
/// confirmed, has a priced line, no priced line awaits a bill and every
/// priced line is fully billed; `to invoice` only when it is confirmed and
/// some priced line awaits a bill; `nothing to bill` only for an RFQ, an
/// order with no priced line, or one where no priced line awaits a bill
/// and some priced line is not yet fully billed.
pub proof fn law_invoice_status_meaning<M>(o: PurchaseOrder<M>, billing: Seq<LineBilling>)
    requires
        billing.len() == o.order_line@.len(),
    ensures
        spec_invoice_status(o, billing) == InvoiceStatus::Invoiced ==> {
            &&& !spec_is_rfq(o.state)
            &&& has_priced_line(o.order_line@)
            &&& forall|i: int| 0 <= i < billing.len() && line_is_priced(#[trigger] o.order_line@[i]) ==> billing[i].fully_invoiced && !billing[i].awaiting_bill
        },
        spec_invoice_status(o, billing) == InvoiceStatus::ToInvoice ==> {
            &&& !spec_is_rfq(o.state)
            &&& exists|i: int| 0 <= i < billing.len() && line_is_priced(#[trigger] o.order_line@[i]) && billing[i].awaiting_bill
        },
        spec_invoice_status(o, billing) == InvoiceStatus::NothingToBill ==> {
            ||| spec_is_rfq(o.state)
            ||| !has_priced_line(o.order_line@)
            ||| ((forall|i: int| 0 <= i < billing.len() && line_is_priced(#[trigger] o.order_line@[i]) ==> !billing[i].awaiting_bill)
                && exists|i: int| 0 <= i < billing.len() && line_is_priced(#[trigger] o.order_line@[i]) && !billing[i].fully_invoiced)
        },
{
}

} // verus!
