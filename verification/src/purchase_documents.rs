//! The instance documents of a Space's purchase orders: what an order's,
//! a line's and the orders folder's `_instance.toml` say, and what saving
//! writes into them. Every field lives in the `[attributes]` table; the
//! class is `[metadata].class_name`.

use vstd::prelude::*;
use crate::purchase::{spec_odoo_str, PurchaseOrder, PurchaseOrderLine};
use crate::purchase_store::{
    display_to_wire, spec_display_to_wire, line_from_document, line_reads_back_as, order_from_document, reads_back_as,
    state_to_wire, survives, LineAttributes, OrderAttributes,
};
use crate::purchase_store::{law_display_wire_roundtrip, law_state_wire_roundtrip};
use crate::toml_doc::{
    attr_bool, attr_int, attr_str, doc_class, doc_table, entries_view, instance_text,
    instance_text_is, opt_str_view, read_toml_doc, spec_attr_bool, spec_attr_int, spec_attr_str,
    spec_doc_class, spec_doc_table, spec_toml_doc, first_entry, TomlDoc, TomlField, TomlFieldView, TomlScalar,
    TomlScalarView,
};
use crate::text::str_eq;

verus! {

// ============================================================================
// Reading
// ============================================================================

/// The order attributes an `[attributes]` table gives: each string field
/// the string under its key, `has_invoices` the boolean under its key.
pub open spec fn order_attributes_read(a: Seq<(Seq<char>, TomlScalarView)>, r: OrderAttributes) -> bool {
    &&& opt_str_view(r.reference) == spec_attr_str(a, "reference"@)
    &&& opt_str_view(r.manufacturer_id) == spec_attr_str(a, "manufacturer_id"@)
    &&& opt_str_view(r.date_order) == spec_attr_str(a, "date_order"@)
    &&& opt_str_view(r.state) == spec_attr_str(a, "state"@)
    &&& opt_str_view(r.date_approve) == spec_attr_str(a, "date_approve"@)
    &&& opt_str_view(r.date_planned) == spec_attr_str(a, "date_planned"@)
    &&& opt_str_view(r.currency) == spec_attr_str(a, "currency"@)
    &&& opt_str_view(r.partner_ref) == spec_attr_str(a, "partner_ref"@)
    &&& opt_str_view(r.origin) == spec_attr_str(a, "origin"@)
    &&& opt_str_view(r.buyer) == spec_attr_str(a, "buyer"@)
    &&& opt_str_view(r.notes) == spec_attr_str(a, "notes"@)
    &&& r.has_invoices == spec_attr_bool(a, "has_invoices"@)
}

/// The line attributes an `[attributes]` table gives: the strings under
/// their keys, and the `sequence` integer (a float truncated, 0 when
/// absent).
pub open spec fn line_attributes_read(a: Seq<(Seq<char>, TomlScalarView)>, r: LineAttributes) -> bool {
    &&& opt_str_view(r.name) == spec_attr_str(a, "name"@)
    &&& r.sequence == spec_attr_int(a, "sequence"@)
    &&& opt_str_view(r.product_id) == spec_attr_str(a, "product_id"@)
    &&& opt_str_view(r.product_uom) == spec_attr_str(a, "product_uom"@)
    &&& opt_str_view(r.date_planned) == spec_attr_str(a, "date_planned"@)
    &&& opt_str_view(r.display_type) == spec_attr_str(a, "display_type"@)
}

/// The order attributes of a document: `None` when it has no
/// `[attributes]` table.
pub fn order_attributes_from_doc(doc: &TomlDoc) -> (r: Option<OrderAttributes>)
    ensures
        r is Some <==> spec_doc_table(doc@, "attributes"@) is Some,
        r matches Some(x) ==> order_attributes_read(spec_doc_table(doc@, "attributes"@)->0, x),
{
    match doc_table(doc, "attributes") {
        None => None,
        Some(a) => Some(OrderAttributes {
            reference: attr_str(a, "reference"),
            manufacturer_id: attr_str(a, "manufacturer_id"),
            date_order: attr_str(a, "date_order"),
            state: attr_str(a, "state"),
            date_approve: attr_str(a, "date_approve"),
            date_planned: attr_str(a, "date_planned"),
            currency: attr_str(a, "currency"),
            partner_ref: attr_str(a, "partner_ref"),
            origin: attr_str(a, "origin"),
            buyer: attr_str(a, "buyer"),
            notes: attr_str(a, "notes"),
            has_invoices: attr_bool(a, "has_invoices"),
        }),
    }
}

/// The line attributes of a document: `None` when it has no
/// `[attributes]` table.
pub fn line_attributes_from_doc(doc: &TomlDoc) -> (r: Option<LineAttributes>)
    ensures
        r is Some <==> spec_doc_table(doc@, "attributes"@) is Some,
        r matches Some(x) ==> line_attributes_read(spec_doc_table(doc@, "attributes"@)->0, x),
{
    match doc_table(doc, "attributes") {
        None => None,
        Some(a) => Some(LineAttributes {
            name: attr_str(a, "name"),
            sequence: attr_int(a, "sequence"),
            product_id: attr_str(a, "product_id"),
            product_uom: attr_str(a, "product_uom"),
            date_planned: attr_str(a, "date_planned"),
            display_type: attr_str(a, "display_type"),
        }),
    }
}

/// A document of class `class` with an `[attributes]` table.
pub open spec fn is_instance_of(d: Option<Seq<(Seq<char>, crate::toml_doc::TomlEntryView)>>, class: Seq<char>) -> bool {
    d matches Some(doc) && spec_doc_class(doc) == Some(class) && spec_doc_table(doc, "attributes"@) is Some
}

/// The `[attributes]` table of a parsed document.
pub open spec fn attributes_of(d: Option<Seq<(Seq<char>, crate::toml_doc::TomlEntryView)>>) -> Seq<(Seq<char>, TomlScalarView)> {
    spec_doc_table(d->0, "attributes"@)->0
}

fn class_ref(c: &Option<String>) -> (r: Option<&str>)
    ensures
        match r {
            Some(s) => opt_str_view(*c) == Some(s@),
            None => c is None,
        },
{
    match c {
        Some(s) => Some(s.as_str()),
        None => None,
    }
}

/// An order read from its document's text, with the lines read from its
/// line folders: `None` unless the text is a TOML document of class
/// `PurchaseOrder` with an `[attributes]` table. The fields are those of
/// [`order_from_document`] on the attributes found.
pub fn read_order_document<M>(
    text: &str,
    folder_name: String,
    lines: Vec<(i32, PurchaseOrderLine<M>)>,
) -> (r: Option<PurchaseOrder<M>>)
    ensures
        r is Some <==> is_instance_of(spec_toml_doc(text@), "PurchaseOrder"@),
        r matches Some(o) ==> exists|a: OrderAttributes|
            #[trigger] order_attributes_read(attributes_of(spec_toml_doc(text@)), a)
            && reads_back_as(a, folder_name@, lines@, o),
{
    let doc = match read_toml_doc(text) {
        Some(d) => d,
        None => return None,
    };
    let class = doc_class(&doc);
    let attrs = order_attributes_from_doc(&doc);
    let ghost a0 = attrs;
    let r = order_from_document(class_ref(&class), attrs, folder_name, lines);
    proof {
        if r is Some {
            assert(order_attributes_read(attributes_of(spec_toml_doc(text@)), a0->0));
        }
    }
    r
}

fn copy_scalar(s: &TomlScalar) -> (r: TomlScalar)
    ensures
        r@ == s@,
{
    match s {
        TomlScalar::Str(t) => TomlScalar::Str(t.clone()),
        TomlScalar::Int(i) => TomlScalar::Int(*i),
        TomlScalar::Float(t, w) => TomlScalar::Float(t.clone(), *w),
        TomlScalar::Bool(b) => TomlScalar::Bool(*b),
        TomlScalar::Other => TomlScalar::Other,
    }
}

fn copy_table(v: &Vec<(String, TomlScalar)>) -> (r: Vec<(String, TomlScalar)>)
    ensures
        entries_view(r@) == entries_view(v@),
{
    let mut r: Vec<(String, TomlScalar)> = Vec::new();
    let mut i: usize = 0;
    while i < v.len()
        invariant
            i <= v@.len(),
            entries_view(r@) =~= entries_view(v@.subrange(0, i as int)),
        decreases v.len() - i,
    {
        let ghost before = r@;
        let k = v[i].0.clone();
        let x = copy_scalar(&v[i].1);
        assert(k@ == v@[i as int].0@);
        r.push((k, x));
        proof {
            assert(entries_view(r@) =~= entries_view(before).push((v@[i as int].0@, v@[i as int].1@)));
            assert(v@.subrange(0, i as int + 1) =~= v@.subrange(0, i as int).push(v@[i as int]));
        }
        i = i + 1;
        proof {
            assert(entries_view(r@) =~= entries_view(v@.subrange(0, i as int)));
        }
    }
    proof {
        assert(v@.subrange(0, v@.len() as int) =~= v@);
    }
    r
}

/// A line read from its document's text, keyed by its sequence: `None`
/// unless the text is a TOML document of class `PurchaseOrderLine` with an
/// `[attributes]` table. The line's amounts are that table itself, from
/// which the caller takes the quantities and prices.
pub fn read_line_document(text: &str) -> (r: Option<(i32, PurchaseOrderLine<Vec<(String, TomlScalar)>>)>)
    ensures
        r is Some <==> is_instance_of(spec_toml_doc(text@), "PurchaseOrderLine"@),
        r matches Some(p) ==> entries_view(p.1.amounts@) == attributes_of(spec_toml_doc(text@))
            && exists|a: LineAttributes|
            #[trigger] line_attributes_read(attributes_of(spec_toml_doc(text@)), a)
            && line_reads_back_as(a, p.1.amounts, p),
{
    let doc = match read_toml_doc(text) {
        Some(d) => d,
        None => return None,
    };
    let class = doc_class(&doc);
    let attrs = line_attributes_from_doc(&doc);
    let ghost a0 = attrs;
    let table = match doc_table(&doc, "attributes") {
        Some(t) => copy_table(t),
        None => Vec::new(),
    };
    let r = line_from_document(class_ref(&class), attrs, table);
    proof {
        if r is Some {
            assert(line_attributes_read(attributes_of(spec_toml_doc(text@)), a0->0));
        }
    }
    r
}

/// The counter the orders folder's document carries: the `next_sequence`
/// attribute truncated to `u32`; `None` when the text is not a TOML
/// document or has no `[attributes]` table.
pub open spec fn spec_persisted_sequence(d: Option<Seq<(Seq<char>, crate::toml_doc::TomlEntryView)>>) -> Option<u32> {
    match d {
        Some(doc) => match spec_doc_table(doc, "attributes"@) {
            Some(a) => Some(spec_attr_int(a, "next_sequence"@) as u32),
            None => None,
        },
        None => None,
    }
}

/// The counter persisted in the orders folder's document.
pub fn read_next_sequence(text: &str) -> (r: Option<u32>)
    ensures
        r == spec_persisted_sequence(spec_toml_doc(text@)),
{
    let doc = match read_toml_doc(text) {
        Some(d) => d,
        None => return None,
    };
    match doc_table(&doc, "attributes") {
        Some(a) => {
            let n = attr_int(a, "next_sequence");
            Some(n as u32)
        },
        None => None,
    }
}

// ============================================================================
// Writing
// ============================================================================

/// An optional string field: written only when present.
pub open spec fn opt_field(key: Seq<char>, v: Option<String>) -> Seq<(Seq<char>, TomlFieldView)> {
    match v {
        Some(s) => seq![(key, TomlFieldView::Str(s@))],
        None => Seq::empty(),
    }
}

/// The fields saving an order reads back: its reference, vendor, date,
/// the state's wire value, currency and invoice flag.
pub open spec fn order_fixed_fields<M>(o: PurchaseOrder<M>) -> Seq<(Seq<char>, TomlFieldView)> {
    seq![
        ("reference"@, TomlFieldView::Str(o.name@)),
        ("manufacturer_id"@, TomlFieldView::Str(o.manufacturer_id@)),
        ("date_order"@, TomlFieldView::Str(o.date_order@)),
        ("state"@, TomlFieldView::Str(spec_odoo_str(o.state))),
        ("currency"@, TomlFieldView::Str(o.currency@)),
        ("has_invoices"@, TomlFieldView::Bool(o.has_invoices)),
    ]
}

/// The derived fields saving an order writes: its amounts (floats, by
/// their text) and its number of lines.
pub open spec fn order_derived_fields<M>(
    o: PurchaseOrder<M>,
    amount_untaxed: Seq<char>,
    amount_tax: Seq<char>,
    amount_total: Seq<char>,
) -> Seq<(Seq<char>, TomlFieldView)> {
    seq![
        ("amount_tax"@, TomlFieldView::Float(amount_tax)),
        ("amount_total"@, TomlFieldView::Float(amount_total)),
        ("amount_untaxed"@, TomlFieldView::Float(amount_untaxed)),
        ("line_count"@, TomlFieldView::Int(o.order_line@.len() as i64)),
    ]
}

/// The `[attributes]` saving an order writes: the fields a reload reads,
/// each optional string when present, then the derived amounts and line
/// count. (`toml` writes a table's keys in sorted order whatever the order
/// here.)
pub open spec fn spec_order_fields<M>(
    o: PurchaseOrder<M>,
    amount_untaxed: Seq<char>,
    amount_tax: Seq<char>,
    amount_total: Seq<char>,
) -> Seq<(Seq<char>, TomlFieldView)> {
    order_fixed_fields(o)
    + opt_field("date_approve"@, o.date_approve)
    + opt_field("date_planned"@, o.date_planned)
    + opt_field("partner_ref"@, o.partner_ref)
    + opt_field("origin"@, o.origin)
    + opt_field("buyer"@, o.buyer)
    + opt_field("notes"@, o.notes)
    + order_derived_fields(o, amount_untaxed, amount_tax, amount_total)
}

fn push_field(v: &mut Vec<(String, TomlField)>, key: &str, f: TomlField)
    ensures
        entries_view(final(v)@) == entries_view(old(v)@).push((key@, f@)),
{
    let ghost before = v@;
    v.push((key.to_owned(), f));
    proof {
        assert(entries_view(v@) =~= entries_view(before).push((key@, f@)));
    }
}

fn push_opt(v: &mut Vec<(String, TomlField)>, key: &str, s: &Option<String>)
    ensures
        entries_view(final(v)@) == entries_view(old(v)@) + opt_field(key@, *s),
{
    match s {
        Some(t) => push_field(v, key, TomlField::Str(t.clone())),
        None => {
            assert(entries_view(v@) + opt_field(key@, *s) =~= entries_view(v@));
        },
    }
}

/// The `[attributes]` saving an order writes; the amounts are the texts of
/// its derived totals.
pub fn order_fields<M>(
    o: &PurchaseOrder<M>,
    amount_untaxed: String,
    amount_tax: String,
    amount_total: String,
) -> (r: Vec<(String, TomlField)>)
    ensures
        entries_view(r@) == spec_order_fields(*o, amount_untaxed@, amount_tax@, amount_total@),
{
    let ghost (u, t, tot) = (amount_untaxed@, amount_tax@, amount_total@);
    let mut v: Vec<(String, TomlField)> = Vec::new();
    push_field(&mut v, "reference", TomlField::Str(o.name.clone()));
    push_field(&mut v, "manufacturer_id", TomlField::Str(o.manufacturer_id.clone()));
    push_field(&mut v, "date_order", TomlField::Str(o.date_order.clone()));
    push_field(&mut v, "state", TomlField::Str(state_to_wire(o.state).to_owned()));
    push_field(&mut v, "currency", TomlField::Str(o.currency.clone()));
    push_field(&mut v, "has_invoices", TomlField::Bool(o.has_invoices));
    push_opt(&mut v, "date_approve", &o.date_approve);
    push_opt(&mut v, "date_planned", &o.date_planned);
    push_opt(&mut v, "partner_ref", &o.partner_ref);
    push_opt(&mut v, "origin", &o.origin);
    push_opt(&mut v, "buyer", &o.buyer);
    push_opt(&mut v, "notes", &o.notes);
    push_field(&mut v, "amount_tax", TomlField::Float(amount_tax));
    push_field(&mut v, "amount_total", TomlField::Float(amount_total));
    push_field(&mut v, "amount_untaxed", TomlField::Float(amount_untaxed));
    push_field(&mut v, "line_count", TomlField::Int(o.order_line.len() as i64));
    proof {
        assert(entries_view(v@) =~= spec_order_fields(*o, u, t, tot));
    }
    v
}

/// The texts of a line's quantities and prices, as `f64` displays them.
pub struct LineFigures {
    pub product_qty: String,
    pub price_unit: String,
    pub discount: String,
    pub tax_percent: String,
    pub qty_received: String,
    pub qty_invoiced: String,
    pub price_subtotal: String,
}

/// The fields saving a line reads back: its name, sequence, unit and the
/// display type's wire value.
pub open spec fn line_fixed_fields<M>(l: PurchaseOrderLine<M>) -> Seq<(Seq<char>, TomlFieldView)> {
    seq![
        ("name"@, TomlFieldView::Str(l.name@)),
        ("sequence"@, TomlFieldView::Int(l.sequence as i64)),
        ("product_uom"@, TomlFieldView::Str(l.product_uom@)),
        ("display_type"@, TomlFieldView::Str(spec_display_to_wire(l.display_type))),
    ]
}

/// A line's figures as saving writes them (floats, by their text).
pub open spec fn line_figure_fields(f: LineFigures) -> Seq<(Seq<char>, TomlFieldView)> {
    seq![
        ("product_qty"@, TomlFieldView::Float(f.product_qty@)),
        ("price_unit"@, TomlFieldView::Float(f.price_unit@)),
        ("discount"@, TomlFieldView::Float(f.discount@)),
        ("tax_percent"@, TomlFieldView::Float(f.tax_percent@)),
        ("qty_received"@, TomlFieldView::Float(f.qty_received@)),
        ("qty_invoiced"@, TomlFieldView::Float(f.qty_invoiced@)),
        ("price_subtotal"@, TomlFieldView::Float(f.price_subtotal@)),
    ]
}

/// The `[attributes]` saving a line writes: the fields a reload reads,
/// each optional string when present, then its figures.
pub open spec fn spec_line_fields<M>(l: PurchaseOrderLine<M>, f: LineFigures) -> Seq<(Seq<char>, TomlFieldView)> {
    line_fixed_fields(l)
    + opt_field("product_id"@, l.product_id)
    + opt_field("date_planned"@, l.date_planned)
    + line_figure_fields(f)
}

/// The `[attributes]` saving a line writes.
pub fn line_fields<M>(l: &PurchaseOrderLine<M>, f: LineFigures) -> (r: Vec<(String, TomlField)>)
    ensures
        entries_view(r@) == spec_line_fields(*l, f),
{
    let ghost f0 = f;
    let mut v: Vec<(String, TomlField)> = Vec::new();
    push_field(&mut v, "name", TomlField::Str(l.name.clone()));
    push_field(&mut v, "sequence", TomlField::Int(l.sequence as i64));
    push_field(&mut v, "product_uom", TomlField::Str(l.product_uom.clone()));
    push_field(&mut v, "display_type", TomlField::Str(display_to_wire(l.display_type).to_owned()));
    push_opt(&mut v, "product_id", &l.product_id);
    push_opt(&mut v, "date_planned", &l.date_planned);
    push_field(&mut v, "product_qty", TomlField::Float(f.product_qty));
    push_field(&mut v, "price_unit", TomlField::Float(f.price_unit));
    push_field(&mut v, "discount", TomlField::Float(f.discount));
    push_field(&mut v, "tax_percent", TomlField::Float(f.tax_percent));
    push_field(&mut v, "qty_received", TomlField::Float(f.qty_received));
    push_field(&mut v, "qty_invoiced", TomlField::Float(f.qty_invoiced));
    push_field(&mut v, "price_subtotal", TomlField::Float(f.price_subtotal));
    proof {
        assert(entries_view(v@) =~= spec_line_fields(*l, f0));
    }
    v
}

/// The document saving an order writes.
pub fn order_document<M>(
    o: &PurchaseOrder<M>,
    amount_untaxed: String,
    amount_tax: String,
    amount_total: String,
) -> (r: String)
    ensures
        instance_text_is(
            "PurchaseOrder"@,
            o.name@,
            spec_order_fields(*o, amount_untaxed@, amount_tax@, amount_total@),
            r@,
        ),
{
    let fields = order_fields(o, amount_untaxed, amount_tax, amount_total);
    instance_text("PurchaseOrder", o.name.as_str(), fields)
}

/// The document saving a line writes.
pub fn line_document<M>(l: &PurchaseOrderLine<M>, f: LineFigures) -> (r: String)
    ensures
        instance_text_is("PurchaseOrderLine"@, l.name@, spec_line_fields(*l, f), r@),
{
    let ghost f0 = f;
    let fields = line_fields(l, f);
    instance_text("PurchaseOrderLine", l.name.as_str(), fields)
}

/// The orders folder's document, carrying the counter.
pub fn folder_document(next_sequence: u32) -> (r: String)
    ensures
        instance_text_is(
            "Folder"@,
            "PurchaseOrders"@,
            seq![("next_sequence"@, TomlFieldView::Int(next_sequence as i64))],
            r@,
        ),
{
    let mut fields: Vec<(String, TomlField)> = Vec::new();
    push_field(&mut fields, "next_sequence", TomlField::Int(next_sequence as i64));
    proof {
        assert(entries_view(fields@) =~= seq![("next_sequence"@, TomlFieldView::Int(next_sequence as i64))]);
    }
    instance_text("Folder", "PurchaseOrders", fields)
}

// ============================================================================
// Stale line folders
// ============================================================================

pub open spec fn strings_view(v: Seq<String>) -> Seq<Seq<char>> {
    v.map_values(|s: String| s@)
}

/// The folders of `existing`, in order, that are not among `keep`.
pub open spec fn spec_stale(existing: Seq<Seq<char>>, keep: Seq<Seq<char>>) -> Seq<Seq<char>>
    decreases existing.len(),
{
    if existing.len() == 0 {
        Seq::empty()
    } else {
        let rest = spec_stale(existing.drop_last(), keep);
        if keep.contains(existing.last()) {
            rest
        } else {
            rest.push(existing.last())
        }
    }
}

fn contains_str(v: &Vec<String>, s: &str) -> (r: bool)
    ensures
        r == strings_view(v@).contains(s@),
{
    let ghost w = strings_view(v@);
    let mut i: usize = 0;
    while i < v.len()
        invariant
            i <= v@.len(),
            w == strings_view(v@),
            forall|j: int| 0 <= j < i ==> (#[trigger] w[j]) != s@,
        decreases v.len() - i,
    {
        if str_eq(v[i].as_str(), s) {
            assert(w[i as int] == s@);
            return true;
        }
        i = i + 1;
    }
    false
}

/// The line folders an order's folder holds that no current line names:
/// saving removes them, so a deleted line cannot load again.
pub fn stale_line_folders(existing: &Vec<String>, keep: &Vec<String>) -> (r: Vec<String>)
    ensures
        strings_view(r@) == spec_stale(strings_view(existing@), strings_view(keep@)),
{
    let ghost e = strings_view(existing@);
    let ghost k = strings_view(keep@);
    let mut r: Vec<String> = Vec::new();
    let mut i: usize = 0;
    while i < existing.len()
        invariant
            i <= existing@.len(),
            e == strings_view(existing@),
            k == strings_view(keep@),
            strings_view(r@) == spec_stale(e.subrange(0, i as int), k),
        decreases existing.len() - i,
    {
        let name = existing[i].as_str();
        let ghost before = r@;
        proof {
            let p = e.subrange(0, i as int + 1);
            assert(p.drop_last() =~= e.subrange(0, i as int));
            assert(p.last() == e[i as int]);
        }
        if !contains_str(keep, name) {
            r.push(existing[i].clone());
            proof {
                assert(strings_view(r@) =~= strings_view(before).push(name@));
            }
        }
        i = i + 1;
    }
    proof {
        assert(e.subrange(0, e.len() as int) =~= e);
    }
    r
}

proof fn lemma_stale_member(existing: Seq<Seq<char>>, keep: Seq<Seq<char>>, f: Seq<char>)
    ensures
        spec_stale(existing, keep).contains(f) <==> (existing.contains(f) && !keep.contains(f)),
    decreases existing.len(),
{
    if existing.len() > 0 {
        let rest = existing.drop_last();
        let last = existing.last();
        let s = spec_stale(rest, keep);
        lemma_stale_member(rest, keep, f);
        if existing.contains(f) && !keep.contains(f) {
            let j = choose|j: int| 0 <= j < existing.len() && existing[j] == f;
            if j < existing.len() - 1 {
                assert(rest[j] == f);
                assert(s.contains(f));
                let k = choose|k: int| 0 <= k < s.len() && s[k] == f;
                if !keep.contains(last) {
                    assert(s.push(last)[k] == f);
                }
            } else {
                assert(last == f);
                assert(s.push(last)[s.len() as int] == f);
            }
        }
        if spec_stale(existing, keep).contains(f) {
            if keep.contains(last) {
                assert(s.contains(f));
            } else {
                let t = s.push(last);
                let j = choose|j: int| 0 <= j < t.len() && t[j] == f;
                if j < s.len() {
                    assert(s[j] == f);
                    assert(s.contains(f));
                } else {
                    assert(f == last);
                }
            }
            if rest.contains(f) {
                let j = choose|j: int| 0 <= j < rest.len() && rest[j] == f;
                assert(existing[j] == f);
            } else {
                assert(f == last);
                assert(existing[existing.len() - 1] == f);
            }
        }
    }
}

/// Saving removes exactly the stale folders: a folder of `existing` is
/// removed if and only if no current line names it, so afterwards every
/// line folder that remains belongs to a current line, and no current
/// line's folder is removed.
pub proof fn law_save_keeps_only_current_line_folders(existing: Seq<Seq<char>>, keep: Seq<Seq<char>>)
    ensures
        forall|f: Seq<char>| #[trigger] spec_stale(existing, keep).contains(f)
            <==> (existing.contains(f) && !keep.contains(f)),
{
    assert forall|f: Seq<char>| #[trigger] spec_stale(existing, keep).contains(f)
        <==> (existing.contains(f) && !keep.contains(f)) by {
        lemma_stale_member(existing, keep, f);
    }
}

// ============================================================================
// What a reload gives back
// ============================================================================

/// A value read back is the value written: the same string, integer or
/// boolean, a float with the same text, or absent where nothing was
/// written.
pub open spec fn value_reads_as_written(r: Option<TomlScalarView>, w: Option<TomlFieldView>) -> bool {
    match (r, w) {
        (None, None) => true,
        (Some(TomlScalarView::Str(a)), Some(TomlFieldView::Str(b))) => a == b,
        (Some(TomlScalarView::Int(a)), Some(TomlFieldView::Int(b))) => a == b,
        (Some(TomlScalarView::Bool(a)), Some(TomlFieldView::Bool(b))) => a == b,
        (Some(TomlScalarView::Float(a, _)), Some(TomlFieldView::Float(b))) => a == b,
        _ => false,
    }
}

/// Under every key, a table read back holds what was written under it.
pub open spec fn table_reads_as_written(read: Seq<(Seq<char>, TomlScalarView)>, written: Seq<(Seq<char>, TomlFieldView)>) -> bool {
    forall|k: Seq<char>| value_reads_as_written(#[trigger] first_entry(read, k), first_entry(written, k))
}

proof fn lemma_first_entry_concat<T>(a: Seq<(Seq<char>, T)>, b: Seq<(Seq<char>, T)>, k: Seq<char>)
    ensures
        first_entry(a + b, k) == (if first_entry(a, k) is Some { first_entry(a, k) } else { first_entry(b, k) }),
    decreases a.len(),
{
    if a.len() == 0 {
        assert(a + b =~= b);
    } else {
        assert((a + b)[0] == a[0]);
        assert((a + b).drop_first() =~= a.drop_first() + b);
        lemma_first_entry_concat(a.drop_first(), b, k);
    }
}

/// An optional string, as what is written under its key.
pub open spec fn written_opt(v: Option<String>) -> Option<TomlFieldView> {
    match v {
        Some(s) => Some(TomlFieldView::Str(s@)),
        None => None,
    }
}

pub open spec fn pick<T>(a: Option<T>, b: Option<T>) -> Option<T> {
    if a is Some { a } else { b }
}

proof fn lemma_order_lookup_chain<M>(o: PurchaseOrder<M>, u: Seq<char>, t: Seq<char>, tot: Seq<char>, k: Seq<char>)
    ensures
        first_entry(spec_order_fields(o, u, t, tot), k) == pick(pick(pick(pick(pick(pick(pick(
            first_entry(order_fixed_fields(o), k),
            first_entry(opt_field("date_approve"@, o.date_approve), k)),
            first_entry(opt_field("date_planned"@, o.date_planned), k)),
            first_entry(opt_field("partner_ref"@, o.partner_ref), k)),
            first_entry(opt_field("origin"@, o.origin), k)),
            first_entry(opt_field("buyer"@, o.buyer), k)),
            first_entry(opt_field("notes"@, o.notes), k)),
            first_entry(order_derived_fields(o, u, t, tot), k)),
{
    let p0 = order_fixed_fields(o);
    let p1 = p0 + opt_field("date_approve"@, o.date_approve);
    let p2 = p1 + opt_field("date_planned"@, o.date_planned);
    let p3 = p2 + opt_field("partner_ref"@, o.partner_ref);
    let p4 = p3 + opt_field("origin"@, o.origin);
    let p5 = p4 + opt_field("buyer"@, o.buyer);
    let p6 = p5 + opt_field("notes"@, o.notes);
    lemma_first_entry_concat(p0, opt_field("date_approve"@, o.date_approve), k);
    lemma_first_entry_concat(p1, opt_field("date_planned"@, o.date_planned), k);
    lemma_first_entry_concat(p2, opt_field("partner_ref"@, o.partner_ref), k);
    lemma_first_entry_concat(p3, opt_field("origin"@, o.origin), k);
    lemma_first_entry_concat(p4, opt_field("buyer"@, o.buyer), k);
    lemma_first_entry_concat(p5, opt_field("notes"@, o.notes), k);
    lemma_first_entry_concat(p6, order_derived_fields(o, u, t, tot), k);
}

proof fn lemma_key_literals()
    ensures
        "amount_tax"@.len() == 10 && "amount_tax"@[0] == 'a',
        "amount_total"@.len() == 12 && "amount_total"@[0] == 'a',
        "amount_untaxed"@.len() == 14 && "amount_untaxed"@[0] == 'a',
        "buyer"@.len() == 5 && "buyer"@[0] == 'b',
        "currency"@.len() == 8 && "currency"@[0] == 'c',
        "date_approve"@.len() == 12 && "date_approve"@[0] == 'd' && "date_approve"@[5] == 'a',
        "date_order"@.len() == 10 && "date_order"@[0] == 'd',
        "date_planned"@.len() == 12 && "date_planned"@[0] == 'd' && "date_planned"@[5] == 'p',
        "has_invoices"@.len() == 12 && "has_invoices"@[0] == 'h',
        "line_count"@.len() == 10 && "line_count"@[0] == 'l',
        "manufacturer_id"@.len() == 15 && "manufacturer_id"@[0] == 'm',
        "notes"@.len() == 5 && "notes"@[0] == 'n',
        "origin"@.len() == 6 && "origin"@[0] == 'o',
        "partner_ref"@.len() == 11 && "partner_ref"@[0] == 'p',
        "reference"@.len() == 9 && "reference"@[0] == 'r',
        "state"@.len() == 5 && "state"@[0] == 's',
{
    reveal_strlit("amount_tax");
    reveal_strlit("amount_total");
    reveal_strlit("amount_untaxed");
    reveal_strlit("buyer");
    reveal_strlit("currency");
    reveal_strlit("date_approve");
    reveal_strlit("date_order");
    reveal_strlit("date_planned");
    reveal_strlit("has_invoices");
    reveal_strlit("line_count");
    reveal_strlit("manufacturer_id");
    reveal_strlit("notes");
    reveal_strlit("origin");
    reveal_strlit("partner_ref");
    reveal_strlit("reference");
    reveal_strlit("state");
}

/// What the saved order's fields hold under the keys a reload reads.
proof fn lemma_order_field_lookups<M>(o: PurchaseOrder<M>, u: Seq<char>, t: Seq<char>, tot: Seq<char>)
    ensures
        first_entry(spec_order_fields(o, u, t, tot), "reference"@) == Some(TomlFieldView::Str(o.name@)),
        first_entry(spec_order_fields(o, u, t, tot), "manufacturer_id"@) == Some(TomlFieldView::Str(o.manufacturer_id@)),
        first_entry(spec_order_fields(o, u, t, tot), "date_order"@) == Some(TomlFieldView::Str(o.date_order@)),
        first_entry(spec_order_fields(o, u, t, tot), "state"@) == Some(TomlFieldView::Str(spec_odoo_str(o.state))),
        first_entry(spec_order_fields(o, u, t, tot), "currency"@) == Some(TomlFieldView::Str(o.currency@)),
        first_entry(spec_order_fields(o, u, t, tot), "has_invoices"@) == Some(TomlFieldView::Bool(o.has_invoices)),
        first_entry(spec_order_fields(o, u, t, tot), "date_approve"@) == written_opt(o.date_approve),
        first_entry(spec_order_fields(o, u, t, tot), "date_planned"@) == written_opt(o.date_planned),
        first_entry(spec_order_fields(o, u, t, tot), "partner_ref"@) == written_opt(o.partner_ref),
        first_entry(spec_order_fields(o, u, t, tot), "origin"@) == written_opt(o.origin),
        first_entry(spec_order_fields(o, u, t, tot), "buyer"@) == written_opt(o.buyer),
        first_entry(spec_order_fields(o, u, t, tot), "notes"@) == written_opt(o.notes),
{
    lemma_key_literals();
    reveal_with_fuel(first_entry, 7);
    let keys = seq!["reference"@, "manufacturer_id"@, "date_order"@, "state"@, "currency"@, "has_invoices"@,
        "date_approve"@, "date_planned"@, "partner_ref"@, "origin"@, "buyer"@, "notes"@];
    assert forall|i: int| 0 <= i < keys.len() implies {
        let k = #[trigger] keys[i];
        first_entry(spec_order_fields(o, u, t, tot), k) == pick(pick(pick(pick(pick(pick(pick(
            first_entry(order_fixed_fields(o), k),
            first_entry(opt_field("date_approve"@, o.date_approve), k)),
            first_entry(opt_field("date_planned"@, o.date_planned), k)),
            first_entry(opt_field("partner_ref"@, o.partner_ref), k)),
            first_entry(opt_field("origin"@, o.origin), k)),
            first_entry(opt_field("buyer"@, o.buyer), k)),
            first_entry(opt_field("notes"@, o.notes), k)),
            first_entry(order_derived_fields(o, u, t, tot), k))
    } by {
        lemma_order_lookup_chain(o, u, t, tot, keys[i]);
    }
    assert(keys[0] == "reference"@);
    assert(keys[1] == "manufacturer_id"@);
    assert(keys[2] == "date_order"@);
    assert(keys[3] == "state"@);
    assert(keys[4] == "currency"@);
    assert(keys[5] == "has_invoices"@);
    assert(keys[6] == "date_approve"@);
    assert(keys[7] == "date_planned"@);
    assert(keys[8] == "partner_ref"@);
    assert(keys[9] == "origin"@);
    assert(keys[10] == "buyer"@);
    assert(keys[11] == "notes"@);
}

/// A saved order reloads as itself: where the document its save writes is
/// read back as of the class written, with each attribute holding what was
/// written (what the `toml` crate's rendering and parsing are for), the
/// order read from it has the same reference, vendor, state, date,
/// currency, invoice flag and optional values (those not present but
/// empty).
pub proof fn law_saved_order_document_reads_back<M>(
    o: PurchaseOrder<M>,
    amount_untaxed: Seq<char>,
    amount_tax: Seq<char>,
    amount_total: Seq<char>,
    text: Seq<char>,
    folder_name: Seq<char>,
    lines: Seq<(i32, PurchaseOrderLine<M>)>,
    a: OrderAttributes,
    r: PurchaseOrder<M>,
)
    requires
        instance_text_is("PurchaseOrder"@, o.name@, spec_order_fields(o, amount_untaxed, amount_tax, amount_total), text),
        is_instance_of(spec_toml_doc(text), "PurchaseOrder"@),
        table_reads_as_written(attributes_of(spec_toml_doc(text)), spec_order_fields(o, amount_untaxed, amount_tax, amount_total)),
        order_attributes_read(attributes_of(spec_toml_doc(text)), a),
        reads_back_as(a, folder_name, lines, r),
        survives(o.date_approve),
        survives(o.date_planned),
        survives(o.partner_ref),
        survives(o.origin),
        survives(o.buyer),
        survives(o.notes),
    ensures
        r.name@ == o.name@,
        r.manufacturer_id@ == o.manufacturer_id@,
        r.state == o.state,
        r.date_order@ == o.date_order@,
        r.currency@ == o.currency@,
        r.has_invoices == o.has_invoices,
        opt_str_view(r.date_approve) == opt_str_view(o.date_approve),
        opt_str_view(r.date_planned) == opt_str_view(o.date_planned),
        opt_str_view(r.partner_ref) == opt_str_view(o.partner_ref),
        opt_str_view(r.origin) == opt_str_view(o.origin),
        opt_str_view(r.buyer) == opt_str_view(o.buyer),
        opt_str_view(r.notes) == opt_str_view(o.notes),
{
    let tb = attributes_of(spec_toml_doc(text));
    let w = spec_order_fields(o, amount_untaxed, amount_tax, amount_total);
    lemma_order_field_lookups(o, amount_untaxed, amount_tax, amount_total);
    assert(value_reads_as_written(first_entry(tb, "reference"@), first_entry(w, "reference"@)));
    assert(value_reads_as_written(first_entry(tb, "manufacturer_id"@), first_entry(w, "manufacturer_id"@)));
    assert(value_reads_as_written(first_entry(tb, "date_order"@), first_entry(w, "date_order"@)));
    assert(value_reads_as_written(first_entry(tb, "state"@), first_entry(w, "state"@)));
    assert(value_reads_as_written(first_entry(tb, "currency"@), first_entry(w, "currency"@)));
    assert(value_reads_as_written(first_entry(tb, "has_invoices"@), first_entry(w, "has_invoices"@)));
    assert(value_reads_as_written(first_entry(tb, "date_approve"@), first_entry(w, "date_approve"@)));
    assert(value_reads_as_written(first_entry(tb, "date_planned"@), first_entry(w, "date_planned"@)));
    assert(value_reads_as_written(first_entry(tb, "partner_ref"@), first_entry(w, "partner_ref"@)));
    assert(value_reads_as_written(first_entry(tb, "origin"@), first_entry(w, "origin"@)));
    assert(value_reads_as_written(first_entry(tb, "buyer"@), first_entry(w, "buyer"@)));
    assert(value_reads_as_written(first_entry(tb, "notes"@), first_entry(w, "notes"@)));
    law_state_wire_roundtrip(o.state);
}

proof fn lemma_line_key_literals()
    ensures
        "name"@.len() == 4,
        "sequence"@.len() == 8 && "sequence"@[0] == 's',
        "product_uom"@.len() == 11 && "product_uom"@[0] == 'p' && "product_uom"@[8] == 'u',
        "display_type"@.len() == 12 && "display_type"@[0] == 'd' && "display_type"@[1] == 'i',
        "product_id"@.len() == 10 && "product_id"@[0] == 'p' && "product_id"@[2] == 'o',
        "date_planned"@.len() == 12 && "date_planned"@[0] == 'd' && "date_planned"@[1] == 'a',
        "product_qty"@.len() == 11 && "product_qty"@[8] == 'q',
        "price_unit"@.len() == 10 && "price_unit"@[2] == 'i',
        "discount"@.len() == 8 && "discount"@[0] == 'd',
        "tax_percent"@.len() == 11 && "tax_percent"@[0] == 't',
        "qty_received"@.len() == 12 && "qty_received"@[0] == 'q',
        "qty_invoiced"@.len() == 12 && "qty_invoiced"@[0] == 'q',
        "price_subtotal"@.len() == 14,
{
    reveal_strlit("name");
    reveal_strlit("sequence");
    reveal_strlit("product_uom");
    reveal_strlit("display_type");
    reveal_strlit("product_id");
    reveal_strlit("date_planned");
    reveal_strlit("product_qty");
    reveal_strlit("price_unit");
    reveal_strlit("discount");
    reveal_strlit("tax_percent");
    reveal_strlit("qty_received");
    reveal_strlit("qty_invoiced");
    reveal_strlit("price_subtotal");
}

/// What the saved line's fields hold under the keys a reload reads.
proof fn lemma_line_field_lookups<M>(l: PurchaseOrderLine<M>, f: LineFigures)
    ensures
        first_entry(spec_line_fields(l, f), "name"@) == Some(TomlFieldView::Str(l.name@)),
        first_entry(spec_line_fields(l, f), "sequence"@) == Some(TomlFieldView::Int(l.sequence as i64)),
        first_entry(spec_line_fields(l, f), "product_uom"@) == Some(TomlFieldView::Str(l.product_uom@)),
        first_entry(spec_line_fields(l, f), "display_type"@) == Some(TomlFieldView::Str(spec_display_to_wire(l.display_type))),
        first_entry(spec_line_fields(l, f), "product_id"@) == written_opt(l.product_id),
        first_entry(spec_line_fields(l, f), "date_planned"@) == written_opt(l.date_planned),
{
    lemma_line_key_literals();
    reveal_with_fuel(first_entry, 8);
    let p0 = line_fixed_fields(l);
    let p1 = p0 + opt_field("product_id"@, l.product_id);
    let p2 = p1 + opt_field("date_planned"@, l.date_planned);
    let keys = seq!["name"@, "sequence"@, "product_uom"@, "display_type"@, "product_id"@, "date_planned"@];
    assert forall|i: int| 0 <= i < keys.len() implies {
        let k = #[trigger] keys[i];
        first_entry(spec_line_fields(l, f), k) == pick(pick(pick(
            first_entry(p0, k),
            first_entry(opt_field("product_id"@, l.product_id), k)),
            first_entry(opt_field("date_planned"@, l.date_planned), k)),
            first_entry(line_figure_fields(f), k))
    } by {
        lemma_first_entry_concat(p0, opt_field("product_id"@, l.product_id), keys[i]);
        lemma_first_entry_concat(p1, opt_field("date_planned"@, l.date_planned), keys[i]);
        lemma_first_entry_concat(p2, line_figure_fields(f), keys[i]);
    }
    assert(keys[0] == "name"@);
    assert(keys[1] == "sequence"@);
    assert(keys[2] == "product_uom"@);
    assert(keys[3] == "display_type"@);
    assert(keys[4] == "product_id"@);
    assert(keys[5] == "date_planned"@);
}

/// A saved line reloads as itself: where the document its save writes is
/// read back as of the class written, with each attribute holding what
/// was written, the line read from it is keyed by its sequence and has the
/// same name, sequence, unit, display type and optional values (those not
/// present but empty).
pub proof fn law_saved_line_document_reads_back<M, A>(
    l: PurchaseOrderLine<M>,
    f: LineFigures,
    text: Seq<char>,
    a: LineAttributes,
    amounts: A,
    p: (i32, PurchaseOrderLine<A>),
)
    requires
        instance_text_is("PurchaseOrderLine"@, l.name@, spec_line_fields(l, f), text),
        is_instance_of(spec_toml_doc(text), "PurchaseOrderLine"@),
        table_reads_as_written(attributes_of(spec_toml_doc(text)), spec_line_fields(l, f)),
        line_attributes_read(attributes_of(spec_toml_doc(text)), a),
        line_reads_back_as(a, amounts, p),
        survives(l.product_id),
        survives(l.date_planned),
    ensures
        p.0 == l.sequence,
        p.1.sequence == l.sequence,
        p.1.name@ == l.name@,
        p.1.product_uom@ == l.product_uom@,
        p.1.display_type == l.display_type,
        opt_str_view(p.1.product_id) == opt_str_view(l.product_id),
        opt_str_view(p.1.date_planned) == opt_str_view(l.date_planned),
{
    let tb = attributes_of(spec_toml_doc(text));
    let w = spec_line_fields(l, f);
    lemma_line_field_lookups(l, f);
    assert(value_reads_as_written(first_entry(tb, "name"@), first_entry(w, "name"@)));
    assert(value_reads_as_written(first_entry(tb, "sequence"@), first_entry(w, "sequence"@)));
    assert(value_reads_as_written(first_entry(tb, "product_uom"@), first_entry(w, "product_uom"@)));
    assert(value_reads_as_written(first_entry(tb, "display_type"@), first_entry(w, "display_type"@)));
    assert(value_reads_as_written(first_entry(tb, "product_id"@), first_entry(w, "product_id"@)));
    assert(value_reads_as_written(first_entry(tb, "date_planned"@), first_entry(w, "date_planned"@)));
    law_display_wire_roundtrip(l.display_type);
}

} // verus!
