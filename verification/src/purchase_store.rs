//! Purchase order storage: the wire vocabulary of persisted orders, the
//! folder names of their lines, and the registry of every order in a Space,
//! including the counter that names the next one.
//!
//! Orders live under the Space's `DataService/PurchaseOrders` folder as
//! instance documents; what those documents say is read and written by
//! the `purchase_documents` module, from the attribute values this module
//! turns into orders and back.

use vstd::prelude::*;
use crate::purchase::{
    format_order_reference, spec_odoo_str, spec_is_rfq, spec_order_reference, LineDisplayType,
    PurchaseOrder, PurchaseOrderLine, PurchaseOrderState,
};
use crate::text::{
    chars_lt, lemma_lex_le_transitive, lemma_lex_total, lex_le, lex_lt,
    chars_of, digit_value, is_digit, is_whitespace, push_char, push_str, str_eq, string_of, trim,
    trim_end, trimmed, trimmed_end, zero_padded, zero_padded_string,
};

verus! {

// ============================================================================
// Wire values
// ============================================================================

/// The state a persisted wire value names; anything unknown reads as `draft`.
pub open spec fn spec_state_from_wire(w: Seq<char>) -> PurchaseOrderState {
    if w == "sent"@ {
        PurchaseOrderState::Sent
    } else if w == "to approve"@ {
        PurchaseOrderState::ToApprove
    } else if w == "purchase"@ {
        PurchaseOrderState::Purchase
    } else if w == "done"@ {
        PurchaseOrderState::Done
    } else if w == "cancel"@ {
        PurchaseOrderState::Cancel
    } else {
        PurchaseOrderState::Draft
    }
}

/// Odoo's exact wire value, which is also what the domain model persists.
pub fn state_from_wire(w: &str) -> (r: PurchaseOrderState)
    ensures
        r == spec_state_from_wire(w@),
{
    if str_eq(w, "sent") {
        PurchaseOrderState::Sent
    } else if str_eq(w, "to approve") {
        PurchaseOrderState::ToApprove
    } else if str_eq(w, "purchase") {
        PurchaseOrderState::Purchase
    } else if str_eq(w, "done") {
        PurchaseOrderState::Done
    } else if str_eq(w, "cancel") {
        PurchaseOrderState::Cancel
    } else {
        PurchaseOrderState::Draft
    }
}

/// The wire value persisted for a state.
pub fn state_to_wire(s: PurchaseOrderState) -> (r: &'static str)
    ensures
        r@ == spec_odoo_str(s),
{
    s.as_odoo_str()
}

/// The wire value of a line's display type.
pub open spec fn spec_display_to_wire(d: LineDisplayType) -> Seq<char> {
    match d {
        LineDisplayType::Product => ""@,
        LineDisplayType::Section => "line_section"@,
        LineDisplayType::Note => "line_note"@,
    }
}

/// The display type a wire value names; anything unknown is a product line.
pub open spec fn spec_display_from_wire(w: Seq<char>) -> LineDisplayType {
    if w == "line_section"@ {
        LineDisplayType::Section
    } else if w == "line_note"@ {
        LineDisplayType::Note
    } else {
        LineDisplayType::Product
    }
}

/// Reads a line's display type from its wire value.
pub fn display_from_wire(w: &str) -> (r: LineDisplayType)
    ensures
        r == spec_display_from_wire(w@),
{
    if str_eq(w, "line_section") {
        LineDisplayType::Section
    } else if str_eq(w, "line_note") {
        LineDisplayType::Note
    } else {
        LineDisplayType::Product
    }
}

/// The wire value persisted for a line's display type.
pub fn display_to_wire(d: LineDisplayType) -> (r: &'static str)
    ensures
        r@ == spec_display_to_wire(d),
{
    match d {
        LineDisplayType::Product => "",
        LineDisplayType::Section => "line_section",
        LineDisplayType::Note => "line_note",
    }
}

/// Every state survives a write and a read of its wire value.
pub proof fn law_state_wire_roundtrip(s: PurchaseOrderState)
    ensures
        spec_state_from_wire(spec_odoo_str(s)) == s,
{
    reveal_strlit("draft");
    reveal_strlit("sent");
    reveal_strlit("to approve");
    reveal_strlit("purchase");
    reveal_strlit("done");
    reveal_strlit("cancel");
    assert("draft"@.len() == 5 && "sent"@.len() == 4 && "to approve"@.len() == 10);
    assert("purchase"@.len() == 8 && "done"@.len() == 4 && "cancel"@.len() == 6);
    assert("done"@[0] == 'd' && "sent"@[0] == 's');
}

/// Every display type survives a write and a read of its wire value.
pub proof fn law_display_wire_roundtrip(d: LineDisplayType)
    ensures
        spec_display_from_wire(spec_display_to_wire(d)) == d,
{
    reveal_strlit("");
    reveal_strlit("line_section");
    reveal_strlit("line_note");
    assert(""@.len() == 0 && "line_section"@.len() == 12 && "line_note"@.len() == 9);
}

// ============================================================================
// Line folders
// ============================================================================

/// Characters that are not safe in a folder name on every filesystem.
pub open spec fn is_unsafe_folder_char(c: char) -> bool {
    c == '\\' || c == '/' || c == ':' || c == '*' || c == '?' || c == '"' || c == '<' || c == '>'
        || c == '|' || c == '.'
}

/// `s` with every unsafe character replaced by `-`.
pub open spec fn sanitize(s: Seq<char>) -> Seq<char> {
    s.map_values(|c: char| if is_unsafe_folder_char(c) { '-' } else { c })
}

/// The first `n` characters of `s` (all of them when there are fewer).
pub open spec fn take_chars(s: Seq<char>, n: nat) -> Seq<char> {
    if s.len() <= n { s } else { s.subrange(0, n as int) }
}

/// Folder name for the line at `index`: its 1-based position zero-padded to
/// three digits, then the sanitised name trimmed and cut to 48 characters.
pub open spec fn spec_line_folder(index: nat, name: Seq<char>) -> Seq<char> {
    let safe = trim_end(take_chars(trim(sanitize(name)), 48));
    let num = zero_padded(index + 1, 3);
    if safe.len() == 0 {
        num
    } else {
        num + seq![' '] + safe
    }
}

/// Folder name for a child line: safe on every filesystem, and ordered.
pub fn line_folder(index: usize, name: &str) -> (r: String)
    requires
        index < usize::MAX,
    ensures
        r@ == spec_line_folder(index as nat, name@),
{
    let chars = chars_of(name);
    let mut safe: Vec<char> = Vec::new();
    let mut i: usize = 0;
    while i < chars.len()
        invariant
            i <= chars@.len(),
            chars@ == name@,
            safe@ == sanitize(name@.subrange(0, i as int)),
        decreases chars.len() - i,
    {
        let c = chars[i];
        let mapped = if c == '\\' || c == '/' || c == ':' || c == '*' || c == '?' || c == '"'
            || c == '<' || c == '>' || c == '|' || c == '.' {
            '-'
        } else {
            c
        };
        safe.push(mapped);
        i = i + 1;
        proof {
            assert(safe@ =~= sanitize(name@.subrange(0, i as int)));
        }
    }
    proof {
        assert(name@.subrange(0, name@.len() as int) =~= name@);
    }
    let t = trimmed(&safe);
    let mut cut: Vec<char> = Vec::new();
    let mut k: usize = 0;
    while k < t.len() && k < 48
        invariant
            k <= t@.len(),
            k <= 48,
            cut@ == t@.subrange(0, k as int),
        decreases t.len() - k,
    {
        cut.push(t[k]);
        k = k + 1;
    }
    proof {
        assert(cut@ =~= take_chars(t@, 48));
    }
    let safe_final = trimmed_end(&cut);
    let num = zero_padded_string((index + 1) as u64, 3);
    if safe_final.len() == 0 {
        num
    } else {
        let mut out = num;
        push_char(&mut out, ' ');
        let tail = string_of(&safe_final);
        push_str(&mut out, tail.as_str());
        proof {
            assert(out@ =~= zero_padded((index + 1) as nat, 3) + seq![' '] + safe_final@);
        }
        out
    }
}

// ============================================================================
// Order references
// ============================================================================

/// Every character of `s` is an ASCII digit.
pub open spec fn all_digits(s: Seq<char>) -> bool {
    forall|i: int| 0 <= i < s.len() ==> is_digit(#[trigger] s[i])
}

/// The number a string of digits spells.
pub open spec fn digits_value(s: Seq<char>) -> nat
    decreases s.len(),
{
    if s.len() == 0 {
        0
    } else {
        digits_value(s.drop_last()) * 10 + digit_value(s.last())
    }
}

/// What `str::parse::<u32>` gives: an optional `+`, then one or more
/// decimal digits whose value fits in a `u32`.
pub open spec fn spec_parse_u32(s: Seq<char>) -> Option<u32> {
    let d = if s.len() > 0 && s[0] == '+' { s.drop_first() } else { s };
    if d.len() > 0 && all_digits(d) && digits_value(d) <= u32::MAX {
        Some(digits_value(d) as u32)
    } else {
        None
    }
}

/// The counter an order reference carries: the number after a `PO` prefix.
pub open spec fn reference_number(name: Seq<char>) -> Option<u32> {
    if name.len() >= 2 && name[0] == 'P' && name[1] == 'O' {
        spec_parse_u32(name.skip(2))
    } else {
        None
    }
}

proof fn lemma_digits_value_prefix(s: Seq<char>, i: int)
    requires
        0 <= i <= s.len(),
        all_digits(s),
    ensures
        digits_value(s.subrange(0, i)) <= digits_value(s),
    decreases s.len() - i,
{
    if i < s.len() {
        lemma_digits_value_prefix(s, i + 1);
        let p = s.subrange(0, i + 1);
        assert(p.drop_last() =~= s.subrange(0, i));
        assert(digits_value(p) == digits_value(s.subrange(0, i)) * 10 + digit_value(p.last()));
    } else {
        assert(s.subrange(0, i) =~= s);
    }
}

/// Parses a `u32` from `v[start..]` as `str::parse::<u32>` does.
fn parse_u32_from(v: &Vec<char>, start: usize) -> (r: Option<u32>)
    requires
        start <= v@.len(),
    ensures
        r == spec_parse_u32(v@.skip(start as int)),
{
    let ghost s = v@.skip(start as int);
    let mut i = start;
    if i < v.len() && v[i] == '+' {
        i = i + 1;
    }
    let ghost d = v@.skip(i as int);
    proof {
        if s.len() > 0 && s[0] == '+' {
            assert(d =~= s.drop_first());
        } else {
            assert(d =~= s);
        }
    }
    if i >= v.len() {
        return None;
    }
    let mut acc: u64 = 0;
    let mut k: usize = i;
    while k < v.len()
        invariant
            i <= k <= v@.len(),
            i < v@.len(),
            d == v@.skip(i as int),
            spec_parse_u32(v@.skip(start as int)) == (if d.len() > 0 && all_digits(d) && digits_value(d) <= u32::MAX {
                Some(digits_value(d) as u32)
            } else {
                None::<u32>
            }),
            acc <= u32::MAX,
            all_digits(v@.subrange(i as int, k as int)),
            acc == digits_value(v@.subrange(i as int, k as int)),
        decreases v.len() - k,
    {
        let c = v[k];
        if !('0' <= c && c <= '9') {
            proof {
                assert(d[k - i] == c);
            }
            return None;
        }
        let digit: u64 = (c as u32 - '0' as u32) as u64;
        let ghost prefix = v@.subrange(i as int, k + 1);
        proof {
            assert(prefix.drop_last() =~= v@.subrange(i as int, k as int));
            assert(prefix.last() == c);
        }
        let next = acc * 10 + digit;
        if next > 4294967295 {
            proof {
                assert(all_digits(prefix));
                assert(digits_value(prefix) == next);
                if all_digits(d) {
                    assert(prefix =~= d.subrange(0, (k + 1 - i) as int));
                    lemma_digits_value_prefix(d, (k + 1 - i) as int);
                }
            }
            return None;
        }
        acc = next;
        k = k + 1;
    }
    proof {
        assert(v@.subrange(i as int, v@.len() as int) =~= d);
    }
    Some(acc as u32)
}

/// The counter carried by an order reference, if it has one.
pub fn parse_reference_number(name: &str) -> (r: Option<u32>)
    ensures
        r == reference_number(name@),
{
    let v = chars_of(name);
    if v.len() >= 2 && v[0] == 'P' && v[1] == 'O' {
        parse_u32_from(&v, 2)
    } else {
        None
    }
}

// ============================================================================
// Ordering orders by reference
// ============================================================================

/// Orders listed by reference, in `String` order.
pub open spec fn names_sorted<M>(s: Seq<PurchaseOrder<M>>) -> bool {
    forall|i: int, j: int| 0 <= i < j < s.len() ==> lex_le(#[trigger] s[i].name@, #[trigger] s[j].name@)
}

proof fn lemma_insert_keeps_sorted<M>(s: Seq<PurchaseOrder<M>>, p: int, x: PurchaseOrder<M>)
    requires
        names_sorted(s),
        0 <= p <= s.len(),
        p > 0 ==> lex_le(s[p - 1].name@, x.name@),
        forall|j: int| p <= j < s.len() ==> lex_lt(x.name@, #[trigger] s[j].name@),
    ensures
        names_sorted(s.insert(p, x)),
{
    let t = s.insert(p, x);
    s.insert_ensures(p, x);
    assert forall|a: int, b: int| 0 <= a < b < t.len() implies lex_le(#[trigger] t[a].name@, #[trigger] t[b].name@) by {
        if b < p {
            assert(t[a] == s[a] && t[b] == s[b]);
        } else if b == p {
            assert(t[b] == x);
            assert(t[a] == s[a]);
            if a < p - 1 {
                assert(lex_le(s[a].name@, s[p - 1].name@));
                lemma_lex_le_transitive(s[a].name@, s[p - 1].name@, x.name@);
            }
        } else if a < p {
            assert(t[a] == s[a] && t[b] == s[b - 1]);
        } else if a == p {
            assert(t[a] == x && t[b] == s[b - 1]);
            assert(lex_lt(x.name@, s[b - 1].name@));
            lemma_lex_total(x.name@, s[b - 1].name@);
        } else {
            assert(t[a] == s[a - 1] && t[b] == s[b - 1]);
        }
    }
}

/// Orders sorted by reference; a stable insertion sort.
fn sort_by_name<M>(v: Vec<PurchaseOrder<M>>) -> (r: Vec<PurchaseOrder<M>>)
    ensures
        names_sorted(r@),
        r@.to_multiset() =~= v@.to_multiset(),
{
    broadcast use vstd::multiset::group_multiset_axioms;

    let mut rest = v;
    let mut out: Vec<PurchaseOrder<M>> = Vec::new();
    let ghost total = rest@.to_multiset();
    proof {
        vstd::seq_lib::to_multiset_len(out@);
        vstd::multiset::lemma_multiset_empty_len(out@.to_multiset());
    }
    while rest.len() > 0
        invariant
            names_sorted(out@),
            out@.to_multiset().add(rest@.to_multiset()) =~= total,
        decreases rest.len(),
    {
        let ghost before = rest@;
        let x = rest.remove(0);
        proof {
            vstd::seq_lib::to_multiset_remove(before, 0);
            assert(rest@ == before.remove(0));
            assert(before.to_multiset().count(x) > 0) by {
                vstd::seq_lib::to_multiset_contains(before, x);
                assert(before.contains(x)) by { assert(before[0] == x); }
            }
        }
        let xn = chars_of(x.name.as_str());
        let mut p = out.len();
        let mut scanning = true;
        while scanning && p > 0
            invariant
                p <= out@.len(),
                xn@ == x.name@,
                names_sorted(out@),
                forall|j: int| p <= j < out@.len() ==> lex_lt(x.name@, #[trigger] out@[j].name@),
                !scanning ==> p > 0 && !lex_lt(x.name@, out@[p - 1].name@),
            decreases (if scanning { p + 1 } else { p as int }),
        {
            let yn = chars_of(out[p - 1].name.as_str());
            if chars_lt(&xn, &yn) {
                p = p - 1;
            } else {
                scanning = false;
            }
        }
        proof {
            lemma_insert_keeps_sorted(out@, p as int, x);
            vstd::seq_lib::to_multiset_insert(out@, p as int, x);
        }
        let ghost out_before = out@;
        out.insert(p, x);
        proof {
            assert(out@.to_multiset() == out_before.to_multiset().insert(x));
            assert(out@.to_multiset().add(rest@.to_multiset()) =~= total);
        }
    }
    proof {
        vstd::seq_lib::to_multiset_len(rest@);
        vstd::multiset::lemma_multiset_empty_len(rest@.to_multiset());
    }
    out
}

// ============================================================================
// Reference-number facts
// ============================================================================

proof fn lemma_decimal_digits(n: nat)
    ensures
        all_digits(crate::text::decimal(n)),
        digits_value(crate::text::decimal(n)) == n,
    decreases n,
{
    let d = crate::text::decimal(n);
    if n < 10 {
        crate::text::lemma_digit_char(n);
        assert(d.drop_last() =~= Seq::<char>::empty());
        assert(digits_value(d.drop_last()) == 0);
    } else {
        crate::text::lemma_digit_char(n % 10);
        lemma_decimal_digits(n / 10);
        assert((n / 10) * 10 + n % 10 == n) by (nonlinear_arith);
        assert(d.drop_last() =~= crate::text::decimal(n / 10));
        assert(d.last() == crate::text::digit_char(n % 10));
        assert forall|i: int| 0 <= i < d.len() implies is_digit(#[trigger] d[i]) by {
            if i < d.len() - 1 {
                assert(d[i] == crate::text::decimal(n / 10)[i]);
            }
        }
    }
}

proof fn lemma_leading_zeros(k: nat, d: Seq<char>)
    ensures
        digits_value(Seq::new(k, |i: int| '0') + d) == digits_value(d),
        all_digits(d) ==> all_digits(Seq::new(k, |i: int| '0') + d),
    decreases d.len(),
{
    let z = Seq::new(k, |i: int| '0');
    if d.len() == 0 {
        assert(z + d =~= z);
        lemma_zeros_value(k);
    } else {
        lemma_leading_zeros(k, d.drop_last());
        assert((z + d).drop_last() =~= z + d.drop_last());
        assert((z + d).last() == d.last());
    }
    if all_digits(d) {
        assert forall|i: int| 0 <= i < (z + d).len() implies is_digit(#[trigger] (z + d)[i]) by {
            if i >= k {
                assert((z + d)[i] == d[i - k]);
            }
        }
    }
}

proof fn lemma_zeros_value(k: nat)
    ensures
        digits_value(Seq::new(k, |i: int| '0')) == 0,
    decreases k,
{
    if k > 0 {
        lemma_zeros_value((k - 1) as nat);
        assert(Seq::new(k, |i: int| '0').drop_last() =~= Seq::new((k - 1) as nat, |i: int| '0'));
    }
}

/// A formatted reference carries exactly the counter it was formatted from.
pub proof fn law_reference_number_of_formatted(counter: u32)
    ensures
        reference_number(spec_order_reference(counter)) == Some(counter),
{
    let d = crate::text::decimal(counter as nat);
    lemma_decimal_digits(counter as nat);
    crate::text::lemma_decimal_nonempty(counter as nat);
    let zp = zero_padded(counter as nat, 5);
    if d.len() >= 5 {
        assert(zp == d);
    } else {
        lemma_leading_zeros((5 - d.len()) as nat, d);
    }
    reveal_strlit("PO");
    let full = spec_order_reference(counter);
    assert(full.skip(2) =~= zp);
    assert(full[0] == 'P' && full[1] == 'O');
    assert(is_digit(zp[0]));
}

proof fn lemma_decimal_at_most_five(n: nat)
    requires
        n < 100000,
    ensures
        crate::text::decimal(n).len() <= 5,
{
    reveal_with_fuel(crate::text::decimal, 5);
}

proof fn lemma_five_digits_value(s: Seq<char>)
    requires
        s.len() == 5,
    ensures
        digits_value(s) == 10000 * digit_value(s[0]) + 1000 * digit_value(s[1]) + 100 * digit_value(s[2])
            + 10 * digit_value(s[3]) + digit_value(s[4]),
{
    let s4 = s.drop_last();
    let s3 = s4.drop_last();
    let s2 = s3.drop_last();
    let s1 = s2.drop_last();
    let s0 = s1.drop_last();
    assert(s0.len() == 0);
    assert(s1.last() == s[0] && s2.last() == s[1] && s3.last() == s[2] && s4.last() == s[3]);
    assert(digits_value(s0) == 0);
    assert(digits_value(s1) == digit_value(s[0]));
    assert(digits_value(s2) == digits_value(s1) * 10 + digit_value(s[1]));
    assert(digits_value(s3) == digits_value(s2) * 10 + digit_value(s[2]));
    assert(digits_value(s4) == digits_value(s3) * 10 + digit_value(s[3]));
    assert(digits_value(s) == digits_value(s4) * 10 + digit_value(s[4]));
}

proof fn lemma_five_chars_lex(s: Seq<char>, t: Seq<char>)
    requires
        s.len() == 5,
        t.len() == 5,
    ensures
        lex_lt(s, t) <==> (s[0] < t[0] || (s[0] == t[0] && (s[1] < t[1] || (s[1] == t[1] && (s[2] < t[2]
            || (s[2] == t[2] && (s[3] < t[3] || (s[3] == t[3] && s[4] < t[4])))))))),
{
    let (a1, b1) = (s.drop_first(), t.drop_first());
    let (a2, b2) = (a1.drop_first(), b1.drop_first());
    let (a3, b3) = (a2.drop_first(), b2.drop_first());
    let (a4, b4) = (a3.drop_first(), b3.drop_first());
    let (a5, b5) = (a4.drop_first(), b4.drop_first());
    assert(a1[0] == s[1] && b1[0] == t[1]);
    assert(a2[0] == s[2] && b2[0] == t[2]);
    assert(a3[0] == s[3] && b3[0] == t[3]);
    assert(a4[0] == s[4] && b4[0] == t[4]);
    assert(a5.len() == 0 && b5.len() == 0);
    assert(!lex_lt(a5, b5));
    assert(lex_lt(a4, b4) == (a4[0] < b4[0]));
    assert(lex_lt(a3, b3) == (a3[0] < b3[0] || (a3[0] == b3[0] && lex_lt(a4, b4))));
    assert(lex_lt(a2, b2) == (a2[0] < b2[0] || (a2[0] == b2[0] && lex_lt(a3, b3))));
    assert(lex_lt(a1, b1) == (a1[0] < b1[0] || (a1[0] == b1[0] && lex_lt(a2, b2))));
    assert(lex_lt(s, t) == (s[0] < t[0] || (s[0] == t[0] && lex_lt(a1, b1))));
}

proof fn lemma_reference_digits(counter: u32)
    requires
        counter <= 99999,
    ensures
        spec_order_reference(counter).len() == 7,
        spec_order_reference(counter)[0] == 'P',
        spec_order_reference(counter)[1] == 'O',
        all_digits(spec_order_reference(counter).skip(2)),
        digits_value(spec_order_reference(counter).skip(2)) == counter,
{
    let d = crate::text::decimal(counter as nat);
    lemma_decimal_digits(counter as nat);
    lemma_decimal_at_most_five(counter as nat);
    let zp = zero_padded(counter as nat, 5);
    if d.len() >= 5 {
        assert(zp == d);
    } else {
        lemma_leading_zeros((5 - d.len()) as nat, d);
    }
    reveal_strlit("PO");
    let full = spec_order_reference(counter);
    assert(full.skip(2) =~= zp);
}

/// References sort as their counters do: for counters of at most five
/// digits, one reference is less than another, in `String` order, exactly
/// when its counter is smaller. So listing orders by reference lists them
/// in the order they were raised.
pub proof fn law_reference_order_is_counter_order(a: u32, b: u32)
    requires
        a <= 99999,
        b <= 99999,
    ensures
        lex_lt(spec_order_reference(a), spec_order_reference(b)) <==> a < b,
{
    lemma_reference_digits(a);
    lemma_reference_digits(b);
    let (s, t) = (spec_order_reference(a), spec_order_reference(b));
    let (x, y) = (s.skip(2), t.skip(2));
    assert(s.drop_first().drop_first() =~= x);
    assert(t.drop_first().drop_first() =~= y);
    assert(s.drop_first()[0] == 'O' && t.drop_first()[0] == 'O');
    assert(lex_lt(s, t) == lex_lt(s.drop_first(), t.drop_first()));
    assert(lex_lt(s.drop_first(), t.drop_first()) == lex_lt(x, y));
    lemma_five_digits_value(x);
    lemma_five_digits_value(y);
    lemma_five_chars_lex(x, y);
    assert(is_digit(x[0]) && is_digit(x[1]) && is_digit(x[2]) && is_digit(x[3]) && is_digit(x[4]));
    assert(is_digit(y[0]) && is_digit(y[1]) && is_digit(y[2]) && is_digit(y[3]) && is_digit(y[4]));
}

// ============================================================================
// Registry
// ============================================================================

/// The largest counter among the references of `s`.
pub open spec fn max_reference<M>(s: Seq<PurchaseOrder<M>>) -> Option<u32>
    decreases s.len(),
{
    if s.len() == 0 {
        None
    } else {
        let rest = max_reference(s.drop_last());
        match (rest, reference_number(s.last().name@)) {
            (Some(a), Some(b)) => Some(if a >= b { a } else { b }),
            (Some(a), None) => Some(a),
            (None, x) => x,
        }
    }
}

/// One past the highest reference actually present; 1 when there is none.
pub open spec fn observed_next<M>(s: Seq<PurchaseOrder<M>>) -> u32 {
    match max_reference(s) {
        Some(hi) => (hi + 1) as u32,
        None => 1,
    }
}

/// The counter a registry starts from: the greater of the persisted counter
/// (1 when none was stored) and one past the highest reference present, and
/// never below 1.
pub open spec fn spec_next_sequence<M>(orders: Seq<PurchaseOrder<M>>, persisted: Option<u32>) -> u32 {
    let p = match persisted { Some(v) => v, None => 1u32 };
    let o = observed_next(orders);
    let m = if p >= o { p } else { o };
    if m >= 1 { m } else { 1 }
}

/// Every counter carried by a reference in `s` is below `next`.
pub open spec fn numbers_below<M>(s: Seq<PurchaseOrder<M>>, next: u32) -> bool {
    forall|i: int| 0 <= i < s.len() ==> match #[trigger] reference_number(s[i].name@) {
        Some(k) => k < next,
        None => true,
    }
}

/// Position of the first order named `name`.
pub open spec fn first_index<M>(s: Seq<PurchaseOrder<M>>, name: Seq<char>) -> Option<int>
    decreases s.len(),
{
    if s.len() == 0 {
        None
    } else if s[0].name@ == name {
        Some(0)
    } else {
        match first_index(s.drop_first(), name) {
            Some(i) => Some(i + 1),
            None => None,
        }
    }
}

/// How many records of `s` are still RFQs.
pub open spec fn spec_rfq_count<M>(s: Seq<PurchaseOrder<M>>) -> nat
    decreases s.len(),
{
    if s.len() == 0 {
        0
    } else {
        spec_rfq_count(s.drop_last()) + if spec_is_rfq(s.last().state) { 1nat } else { 0nat }
    }
}

/// Whether a record is a committed order: confirmed or locked.
pub open spec fn is_committed(s: PurchaseOrderState) -> bool {
    s == PurchaseOrderState::Purchase || s == PurchaseOrderState::Done
}

/// How many records of `s` are committed orders.
pub open spec fn spec_order_count<M>(s: Seq<PurchaseOrder<M>>) -> nat
    decreases s.len(),
{
    if s.len() == 0 {
        0
    } else {
        spec_order_count(s.drop_last()) + if is_committed(s.last().state) { 1nat } else { 0nat }
    }
}

/// `o` is the RFQ that `create_rfq` opens.
pub open spec fn is_new_rfq<M>(o: PurchaseOrder<M>, name: Seq<char>, manufacturer_id: Seq<char>, date_order: Seq<char>) -> bool {
    &&& o.name@ == name
    &&& o.manufacturer_id@ == manufacturer_id
    &&& o.state == PurchaseOrderState::Draft
    &&& o.date_order@ == date_order
    &&& o.date_approve is None
    &&& o.date_planned is None
    &&& o.currency@ == crate::purchase::default_currency()
    &&& o.partner_ref is None
    &&& o.origin is None
    &&& o.buyer is None
    &&& o.notes is None
    &&& o.order_line@.len() == 0
    &&& !o.has_invoices
}

/// Every purchase order and RFQ in the open Space, plus the counter that
/// names the next one. RFQs and purchase orders are the same records.
pub struct PurchaseOrderRegistry<M> {
    /// All orders, RFQs included, sorted by reference.
    pub orders: Vec<PurchaseOrder<M>>,
    next_sequence: u32,
}

impl<M> PurchaseOrderRegistry<M> {
    /// The registry's invariant: the counter is positive and above every
    /// counter already carried by a reference, so the next reference it
    /// mints is new.
    pub closed spec fn wf(&self) -> bool {
        &&& self.next_sequence >= 1
        &&& numbers_below(self.orders@, self.next_sequence)
    }

    /// The orders, as a sequence.
    pub closed spec fn listed(&self) -> Seq<PurchaseOrder<M>> {
        self.orders@
    }

    /// The counter the next reference is minted from.
    pub closed spec fn spec_next(&self) -> u32 {
        self.next_sequence
    }

    /// The counter the next reference is minted from.
    pub fn next_sequence(&self) -> (r: u32)
        ensures
            r == self.spec_next(),
    {
        self.next_sequence
    }

    /// An empty registry, as a Space that has not bought anything has.
    pub fn new() -> (r: Self)
        ensures
            r.listed().len() == 0,
            r.spec_next() == 1,
            r.wf(),
    {
        PurchaseOrderRegistry { orders: Vec::new(), next_sequence: 1 }
    }

    /// Build the registry from the orders found in a Space and the counter
    /// persisted beside them, if any. Orders are sorted by reference; the
    /// counter is the greater of the persisted one and one past the highest
    /// reference actually present, so a lost counter cannot mint a
    /// duplicate.
    pub fn from_loaded(orders: Vec<PurchaseOrder<M>>, persisted: Option<u32>) -> (r: Self)
        requires
            max_reference(orders@) != Some(u32::MAX),
        ensures
            names_sorted(r.listed()),
            r.listed().to_multiset() == orders@.to_multiset(),
            r.spec_next() == spec_next_sequence(orders@, persisted),
            r.wf(),
    {
        let mut hi: Option<u32> = None;
        let mut i: usize = 0;
        while i < orders.len()
            invariant
                i <= orders@.len(),
                hi == max_reference(orders@.subrange(0, i as int)),
            decreases orders.len() - i,
        {
            let n = parse_reference_number(orders[i].name.as_str());
            proof {
                let t = orders@.subrange(0, i + 1);
                assert(t.drop_last() =~= orders@.subrange(0, i as int));
                assert(t.last() == orders@[i as int]);
            }
            hi = match (hi, n) {
                (Some(a), Some(b)) => Some(if a >= b { a } else { b }),
                (Some(a), None) => Some(a),
                (None, x) => x,
            };
            i = i + 1;
        }
        proof {
            assert(orders@.subrange(0, orders@.len() as int) =~= orders@);
        }
        let observed: u32 = match hi {
            Some(h) => h + 1,
            None => 1,
        };
        let p: u32 = match persisted {
            Some(v) => v,
            None => 1,
        };
        let m = if p >= observed { p } else { observed };
        let next = if m >= 1 { m } else { 1 };
        let ghost input = orders@;
        let sorted = sort_by_name(orders);
        proof {
            assert forall|j: int| 0 <= j < sorted@.len() implies match #[trigger] reference_number(sorted@[j].name@) {
                Some(k) => k < next,
                None => true,
            } by {
                let o = sorted@[j];
                vstd::seq_lib::to_multiset_contains(sorted@, o);
                vstd::seq_lib::to_multiset_contains(input, o);
                assert(sorted@.contains(o));
                let w = choose|w: int| 0 <= w < input.len() && input[w] == o;
                lemma_max_reference_bounds(input, w);
            }
        }
        PurchaseOrderRegistry { orders: sorted, next_sequence: next }
    }

    /// How many records are still RFQs.
    pub fn rfq_count(&self) -> (r: usize)
        ensures
            r == spec_rfq_count(self.listed()),
    {
        let mut c: usize = 0;
        let mut i: usize = 0;
        while i < self.orders.len()
            invariant
                i <= self.orders@.len(),
                c == spec_rfq_count(self.orders@.subrange(0, i as int)),
                c <= i,
            decreases self.orders.len() - i,
        {
            proof {
                let t = self.orders@.subrange(0, i + 1);
                assert(t.drop_last() =~= self.orders@.subrange(0, i as int));
            }
            if self.orders[i].is_rfq() {
                c = c + 1;
            }
            i = i + 1;
        }
        proof {
            assert(self.orders@.subrange(0, self.orders@.len() as int) =~= self.orders@);
        }
        c
    }

    /// How many records are committed orders (confirmed or locked).
    pub fn order_count(&self) -> (r: usize)
        ensures
            r == spec_order_count(self.listed()),
    {
        let mut c: usize = 0;
        let mut i: usize = 0;
        while i < self.orders.len()
            invariant
                i <= self.orders@.len(),
                c == spec_order_count(self.orders@.subrange(0, i as int)),
                c <= i,
            decreases self.orders.len() - i,
        {
            proof {
                let t = self.orders@.subrange(0, i + 1);
                assert(t.drop_last() =~= self.orders@.subrange(0, i as int));
            }
            match self.orders[i].state {
                PurchaseOrderState::Purchase | PurchaseOrderState::Done => {
                    c = c + 1;
                },
                _ => {},
            }
            i = i + 1;
        }
        proof {
            assert(self.orders@.subrange(0, self.orders@.len() as int) =~= self.orders@);
        }
        c
    }

    /// Position of the first order with reference `reference`.
    pub fn position(&self, reference: &str) -> (r: Option<usize>)
        ensures
            match r {
                Some(k) => first_index(self.listed(), reference@) == Some(k as int),
                None => first_index(self.listed(), reference@) is None,
            },
            r matches Some(i) ==> i < self.listed().len() && self.listed()[i as int].name@ == reference@,
    {
        let mut i: usize = 0;
        while i < self.orders.len()
            invariant
                i <= self.orders@.len(),
                forall|j: int| 0 <= j < i ==> #[trigger] self.orders@[j].name@ != reference@,
            decreases self.orders.len() - i,
        {
            if str_eq(self.orders[i].name.as_str(), reference) {
                proof {
                    lemma_first_index_at(self.orders@, reference@, i as int);
                }
                return Some(i);
            }
            i = i + 1;
        }
        proof {
            lemma_first_index_none(self.orders@, reference@);
        }
        None
    }

    /// The first order with reference `reference`.
    pub fn get(&self, reference: &str) -> (r: Option<&PurchaseOrder<M>>)
        ensures
            match first_index(self.listed(), reference@) {
                Some(i) => r == Some(&self.listed()[i]),
                None => r is None,
            },
    {
        proof {
            lemma_first_index_range(self.orders@, reference@);
        }
        match self.position(reference) {
            Some(i) => {
                assert(first_index(self.listed(), reference@) == Some(i as int));
                assert(self.listed()[i as int] == self.orders@[i as int]);
                Some(&self.orders[i])
            },
            None => None,
        }
    }

    /// The first order with reference `reference`, for editing in place.
    pub fn get_mut(&mut self, reference: &str) -> (r: Option<&mut PurchaseOrder<M>>)
        ensures
            match first_index(old(self).listed(), reference@) {
                Some(i) => r matches Some(m) && *m == old(self).listed()[i]
                    && final(self).listed() == old(self).listed().update(i, *final(m)),
                None => r is None && final(self).listed() == old(self).listed(),
            },
            final(self).spec_next() == old(self).spec_next(),
    {
        proof {
            lemma_first_index_range(self.orders@, reference@);
        }
        match self.position(reference) {
            Some(i) => Some(&mut self.orders[i]),
            None => None,
        }
    }

    /// Remove an order from the registry; `false` when there is none.
    pub fn remove(&mut self, reference: &str) -> (r: bool)
        ensures
            match first_index(old(self).listed(), reference@) {
                Some(i) => r && 0 <= i < old(self).listed().len() && final(self).listed() == old(self).listed().remove(i),
                None => !r && final(self).listed() == old(self).listed(),
            },
            final(self).spec_next() == old(self).spec_next(),
            old(self).wf() ==> final(self).wf(),
    {
        proof {
            lemma_first_index_range(self.orders@, reference@);
        }
        match self.position(reference) {
            Some(idx) => {
                let ghost before = self.orders@;
                self.orders.remove(idx);
                proof {
                    before.remove_ensures(idx as int);
                    if old(self).wf() {
                    assert forall|j: int| 0 <= j < self.orders@.len() implies match #[trigger] reference_number(self.orders@[j].name@) {
                        Some(k) => k < self.next_sequence,
                        None => true,
                    } by {
                        if old(self).wf() {
                            assert(numbers_below(before, self.next_sequence));
                            if j < idx {
                                assert(self.orders@[j] == before[j]);
                                assert(match reference_number(before[j].name@) { Some(k) => k < self.next_sequence, None => true });
                            } else {
                                assert(self.orders@[j] == before[j + 1]);
                                assert(match reference_number(before[j + 1].name@) { Some(k) => k < self.next_sequence, None => true });
                            }
                        }
                    }
                    }
                    assert(first_index(old(self).listed(), reference@) == Some(idx as int));
                    assert(self.listed() == before.remove(idx as int));
                }
                true
            },
            None => false,
        }
    }

    /// Open a new RFQ dated `date_order` against a vendor, allocating the
    /// next reference, and return that reference. The orders stay sorted.
    pub fn create_rfq_dated(&mut self, manufacturer_id: &str, date_order: String) -> (r: String)
        requires
            old(self).spec_next() < u32::MAX,
        ensures
            r@ == spec_order_reference(old(self).spec_next()),
            final(self).spec_next() == old(self).spec_next() + 1,
            names_sorted(final(self).listed()),
            exists|i: int| 0 <= i < final(self).listed().len()
                && is_new_rfq(#[trigger] final(self).listed()[i], r@, manufacturer_id@, date_order@)
                && final(self).listed().remove(i).to_multiset() == old(self).listed().to_multiset(),
            old(self).wf() ==> final(self).wf(),
            old(self).wf() ==> forall|i: int| 0 <= i < old(self).listed().len() ==> #[trigger] old(self).listed()[i].name@ != r@,
    {
        broadcast use vstd::multiset::group_multiset_axioms;

        let counter = self.next_sequence;
        let reference = format_order_reference(counter);
        self.next_sequence = counter + 1;
        let mut mid = String::new();
        push_str(&mut mid, manufacturer_id);
        let order = PurchaseOrder::new_rfq(reference.clone(), mid, date_order);
        let ghost order_v = order;
        let ghost before = self.orders@;
        let mut orders = Vec::new();
        std::mem::swap(&mut orders, &mut self.orders);
        orders.push(order);
        let ghost pushed = orders@;
        let sorted = sort_by_name(orders);
        self.orders = sorted;
        proof {
            assert(reference@ == spec_order_reference(counter));
            vstd::seq_lib::to_multiset_build(before, order_v);
            assert(self.orders@.to_multiset() == before.to_multiset().insert(order_v));
            vstd::seq_lib::to_multiset_contains(self.orders@, order_v);
            assert(self.orders@.to_multiset().count(order_v) > 0);
            let i = choose|i: int| 0 <= i < self.orders@.len() && self.orders@[i] == order_v;
            vstd::seq_lib::to_multiset_remove(self.orders@, i);
            assert(self.orders@.remove(i).to_multiset() =~= before.to_multiset());
            assert(is_new_rfq(self.orders@[i], reference@, manufacturer_id@, date_order@));
            assert(self.listed()[i] == self.orders@[i]);
            assert(self.listed().remove(i).to_multiset() == old(self).listed().to_multiset());
            law_reference_number_of_formatted(counter);
            if old(self).wf() {
                assert forall|k: int| 0 <= k < before.len() implies #[trigger] before[k].name@ != reference@ by {
                    if before[k].name@ == reference@ {
                        assert(reference_number(before[k].name@) == Some(counter));
                    }
                }
                assert forall|j: int| 0 <= j < self.orders@.len() implies match #[trigger] reference_number(self.orders@[j].name@) {
                    Some(k) => k < self.next_sequence,
                    None => true,
                } by {
                    let o = self.orders@[j];
                    vstd::seq_lib::to_multiset_contains(self.orders@, o);
                    vstd::seq_lib::to_multiset_contains(pushed, o);
                    assert(pushed.contains(o));
                    let w = choose|w: int| 0 <= w < pushed.len() && pushed[w] == o;
                    if w < before.len() {
                        assert(pushed[w] == before[w]);
                    } else {
                        assert(o == order_v);
                    }
                }
            }
        }
        reference
    }

    /// Open a new RFQ against a vendor, dated the given day (the caller
    /// reads today's UTC date), written as `%Y-%m-%d`; see
    /// [`Self::create_rfq_dated`].
    pub fn create_rfq(&mut self, manufacturer_id: &str, year: i32, month: u32, day: u32) -> (r: String)
        requires
            old(self).spec_next() < u32::MAX,
        ensures
            r@ == spec_order_reference(old(self).spec_next()),
            final(self).spec_next() == old(self).spec_next() + 1,
            names_sorted(final(self).listed()),
            exists|i: int| 0 <= i < final(self).listed().len()
                && is_new_rfq(#[trigger] final(self).listed()[i], r@, manufacturer_id@, spec_iso_date(year, month, day))
                && final(self).listed().remove(i).to_multiset() == old(self).listed().to_multiset(),
            old(self).wf() ==> final(self).wf(),
            old(self).wf() ==> forall|i: int| 0 <= i < old(self).listed().len() ==> #[trigger] old(self).listed()[i].name@ != r@,
    {
        let today = iso_date(year, month, day);
        self.create_rfq_dated(manufacturer_id, today)
    }
}

/// A year as `%Y` writes it: four digits, zero-padded, for years 0 to
/// 9999; otherwise a sign, then at least four digits.
pub open spec fn year_text(y: i32) -> Seq<char> {
    if 0 <= y <= 9999 {
        zero_padded(y as nat, 4)
    } else if y > 9999 {
        seq!['+'] + zero_padded(y as nat, 4)
    } else {
        seq!['-'] + zero_padded((-y) as nat, 4)
    }
}

/// A date as `%Y-%m-%d` writes it.
pub open spec fn spec_iso_date(y: i32, m: u32, d: u32) -> Seq<char> {
    year_text(y) + seq!['-'] + zero_padded(m as nat, 2) + seq!['-'] + zero_padded(d as nat, 2)
}

/// A date written as `%Y-%m-%d`, e.g. `2026-08-09`.
pub fn iso_date(year: i32, month: u32, day: u32) -> (r: String)
    ensures
        r@ == spec_iso_date(year, month, day),
{
    let mut s = String::new();
    if 0 <= year && year <= 9999 {
        let y = zero_padded_string(year as u64, 4);
        push_str(&mut s, y.as_str());
    } else if year > 9999 {
        push_str(&mut s, "+");
        let y = zero_padded_string(year as u64, 4);
        push_str(&mut s, y.as_str());
    } else {
        push_str(&mut s, "-");
        let a: i64 = -(year as i64);
        let y = zero_padded_string(a as u64, 4);
        push_str(&mut s, y.as_str());
    }
    push_str(&mut s, "-");
    let m = zero_padded_string(month as u64, 2);
    push_str(&mut s, m.as_str());
    push_str(&mut s, "-");
    let d = zero_padded_string(day as u64, 2);
    push_str(&mut s, d.as_str());
    proof {
        reveal_strlit("+");
        reveal_strlit("-");
        assert(s@ =~= spec_iso_date(year, month, day));
    }
    s
}

proof fn lemma_max_reference_bounds<M>(s: Seq<PurchaseOrder<M>>, w: int)
    requires
        0 <= w < s.len(),
    ensures
        match reference_number(s[w].name@) {
            Some(k) => max_reference(s) matches Some(h) && k <= h,
            None => true,
        },
    decreases s.len(),
{
    if w < s.len() - 1 {
        lemma_max_reference_bounds(s.drop_last(), w);
        assert(s.drop_last()[w] == s[w]);
    }
}

/// The first index, when there is one, names an order of that reference.
pub proof fn lemma_first_index_range<M>(s: Seq<PurchaseOrder<M>>, name: Seq<char>)
    ensures
        first_index(s, name) matches Some(i) ==> 0 <= i < s.len() && s[i].name@ == name,
    decreases s.len(),
{
    if s.len() > 0 && s[0].name@ != name {
        lemma_first_index_range(s.drop_first(), name);
    }
}

proof fn lemma_first_index_at<M>(s: Seq<PurchaseOrder<M>>, name: Seq<char>, i: int)
    requires
        0 <= i < s.len(),
        s[i].name@ == name,
        forall|j: int| 0 <= j < i ==> #[trigger] s[j].name@ != name,
    ensures
        first_index(s, name) == Some(i),
    decreases i,
{
    if i > 0 {
        assert(s[0].name@ != name);
        assert forall|j: int| 0 <= j < i - 1 implies #[trigger] s.drop_first()[j].name@ != name by {
            assert(s.drop_first()[j] == s[j + 1]);
        }
        lemma_first_index_at(s.drop_first(), name, i - 1);
    }
}

proof fn lemma_first_index_none<M>(s: Seq<PurchaseOrder<M>>, name: Seq<char>)
    requires
        forall|j: int| 0 <= j < s.len() ==> #[trigger] s[j].name@ != name,
    ensures
        first_index(s, name) is None,
    decreases s.len(),
{
    if s.len() > 0 {
        assert(s[0].name@ != name);
        assert forall|j: int| 0 <= j < s.drop_first().len() implies #[trigger] s.drop_first()[j].name@ != name by {
            assert(s.drop_first()[j] == s[j + 1]);
        }
        lemma_first_index_none(s.drop_first(), name);
    }
}

// ============================================================================
// Reading persisted documents
// ============================================================================

/// The `[attributes]` of a persisted order document, each string attribute
/// as found (absent when the document has no string under that key).
pub struct OrderAttributes {
    pub reference: Option<String>,
    pub manufacturer_id: Option<String>,
    pub date_order: Option<String>,
    pub state: Option<String>,
    pub date_approve: Option<String>,
    pub date_planned: Option<String>,
    pub currency: Option<String>,
    pub partner_ref: Option<String>,
    pub origin: Option<String>,
    pub buyer: Option<String>,
    pub notes: Option<String>,
    /// The `has_invoices` flag; `false` when absent.
    pub has_invoices: bool,
}

/// The `[attributes]` of a persisted line document.
pub struct LineAttributes {
    pub name: Option<String>,
    /// The `sequence` attribute as an integer; 0 when absent.
    pub sequence: i64,
    pub product_id: Option<String>,
    pub product_uom: Option<String>,
    pub date_planned: Option<String>,
    pub display_type: Option<String>,
}

/// An optional attribute that reads as absent when it is empty.
pub open spec fn non_empty(v: Option<String>) -> Option<String> {
    match v {
        Some(s) => if s@.len() > 0 { Some(s) } else { None },
        None => None,
    }
}

fn keep_non_empty(v: Option<String>) -> (r: Option<String>)
    ensures
        r == non_empty(v),
{
    match v {
        Some(s) => {
            if s.as_str().unicode_len() > 0 {
                Some(s)
            } else {
                None
            }
        },
        None => None,
    }
}

fn or_empty(v: Option<String>) -> (r: String)
    ensures
        r@ == match v { Some(s) => s@, None => Seq::<char>::empty() },
{
    match v {
        Some(s) => s,
        None => String::new(),
    }
}

fn or_literal(v: Option<String>, fallback: &str) -> (r: String)
    ensures
        r@ == match v { Some(s) => s@, None => fallback@ },
{
    match v {
        Some(s) => s,
        None => {
            let mut f = String::new();
            push_str(&mut f, fallback);
            f
        },
    }
}

/// The line a document's attributes give: the sequence is the attribute
/// truncated to `i32` and keys the line; missing values take the defaults
/// (empty name, `pcs`, product line); empty optional values read as absent.
pub open spec fn line_reads_back_as<M>(a: LineAttributes, amounts: M, p: (i32, PurchaseOrderLine<M>)) -> bool {
    &&& p.0 == a.sequence as i32
    &&& p.1.sequence == a.sequence as i32
    &&& p.1.name@ == (match a.name { Some(s) => s@, None => Seq::<char>::empty() })
    &&& p.1.product_id == non_empty(a.product_id)
    &&& p.1.product_uom@ == (match a.product_uom { Some(s) => s@, None => "pcs"@ })
    &&& p.1.date_planned == non_empty(a.date_planned)
    &&& p.1.display_type == spec_display_from_wire(match a.display_type { Some(s) => s@, None => Seq::<char>::empty() })
    &&& p.1.amounts == amounts
}

/// The order a document's attributes and lines give: the reference falls
/// back to the folder name, the vendor and date to empty, the state to
/// `draft`, the currency to `USD`; empty optional values read as absent;
/// the lines are ordered by their sequence.
pub open spec fn reads_back_as<M>(
    a: OrderAttributes,
    folder_name: Seq<char>,
    lines: Seq<(i32, PurchaseOrderLine<M>)>,
    o: PurchaseOrder<M>,
) -> bool {
    &&& o.name@ == (match a.reference { Some(s) => s@, None => folder_name })
    &&& o.manufacturer_id@ == (match a.manufacturer_id { Some(s) => s@, None => Seq::<char>::empty() })
    &&& o.date_order@ == (match a.date_order { Some(s) => s@, None => Seq::<char>::empty() })
    &&& o.state == spec_state_from_wire(match a.state { Some(s) => s@, None => "draft"@ })
    &&& o.date_approve == non_empty(a.date_approve)
    &&& o.date_planned == non_empty(a.date_planned)
    &&& o.currency@ == (match a.currency { Some(s) => s@, None => "USD"@ })
    &&& o.partner_ref == non_empty(a.partner_ref)
    &&& o.origin == non_empty(a.origin)
    &&& o.buyer == non_empty(a.buyer)
    &&& o.notes == non_empty(a.notes)
    &&& o.has_invoices == a.has_invoices
    &&& exists|p: Seq<(i32, PurchaseOrderLine<M>)>| keys_sorted(p) && p.to_multiset() == lines.to_multiset()
        && o.order_line@ == seconds(p)
}

/// What saving an order writes into its document's attributes: its
/// reference, vendor, state's wire value, date, currency and invoice flag,
/// and each optional value it has.
pub open spec fn writes_attributes<M>(o: PurchaseOrder<M>, a: OrderAttributes) -> bool {
    &&& a.reference == Some(o.name)
    &&& a.manufacturer_id == Some(o.manufacturer_id)
    &&& (a.state matches Some(s) && s@ == spec_odoo_str(o.state))
    &&& a.date_order == Some(o.date_order)
    &&& a.currency == Some(o.currency)
    &&& a.date_approve == o.date_approve
    &&& a.date_planned == o.date_planned
    &&& a.partner_ref == o.partner_ref
    &&& a.origin == o.origin
    &&& a.buyer == o.buyer
    &&& a.notes == o.notes
    &&& a.has_invoices == o.has_invoices
}

/// What saving a line writes into its document's attributes.
pub open spec fn writes_line_attributes<M>(l: PurchaseOrderLine<M>, a: LineAttributes) -> bool {
    &&& a.name == Some(l.name)
    &&& a.sequence == l.sequence as i64
    &&& a.product_id == l.product_id
    &&& a.product_uom == Some(l.product_uom)
    &&& a.date_planned == l.date_planned
    &&& (a.display_type matches Some(d) && d@ == spec_display_to_wire(l.display_type))
}

fn copy_opt(v: &Option<String>) -> (r: Option<String>)
    ensures
        r == *v,
{
    match v {
        Some(s) => Some(s.clone()),
        None => None,
    }
}

/// The attributes saving an order writes (its amounts are derived and
/// written by the caller).
pub fn order_attributes<M>(order: &PurchaseOrder<M>) -> (a: OrderAttributes)
    ensures
        writes_attributes(*order, a),
{
    let mut state = String::new();
    push_str(&mut state, state_to_wire(order.state));
    OrderAttributes {
        reference: Some(order.name.clone()),
        manufacturer_id: Some(order.manufacturer_id.clone()),
        date_order: Some(order.date_order.clone()),
        state: Some(state),
        date_approve: copy_opt(&order.date_approve),
        date_planned: copy_opt(&order.date_planned),
        currency: Some(order.currency.clone()),
        partner_ref: copy_opt(&order.partner_ref),
        origin: copy_opt(&order.origin),
        buyer: copy_opt(&order.buyer),
        notes: copy_opt(&order.notes),
        has_invoices: order.has_invoices,
    }
}

/// The attributes saving a line writes (its amounts are written by the
/// caller).
pub fn line_attributes<M>(line: &PurchaseOrderLine<M>) -> (a: LineAttributes)
    ensures
        writes_line_attributes(*line, a),
{
    let mut display = String::new();
    push_str(&mut display, display_to_wire(line.display_type));
    LineAttributes {
        name: Some(line.name.clone()),
        sequence: line.sequence as i64,
        product_id: copy_opt(&line.product_id),
        product_uom: Some(line.product_uom.clone()),
        date_planned: copy_opt(&line.date_planned),
        display_type: Some(display),
    }
}

/// An optional value that does not read back as absent: none, or not
/// empty.
pub open spec fn survives(v: Option<String>) -> bool {
    v matches Some(s) ==> s@.len() > 0
}

/// An order saved and read back has the same reference, vendor, state,
/// date, currency, invoice flag and optional values (where none of those
/// was present but empty). How its lines come back is stated by
/// [`order_from_document`] and [`law_saved_line_reads_back`].
pub proof fn law_saved_order_reads_back<M>(
    o: PurchaseOrder<M>,
    a: OrderAttributes,
    folder_name: Seq<char>,
    lines: Seq<(i32, PurchaseOrderLine<M>)>,
    r: PurchaseOrder<M>,
)
    requires
        writes_attributes(o, a),
        reads_back_as(a, folder_name, lines, r),
        survives(o.date_approve),
        survives(o.date_planned),
        survives(o.partner_ref),
        survives(o.origin),
        survives(o.buyer),
        survives(o.notes),
    ensures
        r.name@ == o.name@,
        r.manufacturer_id@ == o.manufacturer_id@,
        r.state == o.state,
        r.date_order@ == o.date_order@,
        r.currency@ == o.currency@,
        r.has_invoices == o.has_invoices,
        r.date_approve == o.date_approve,
        r.date_planned == o.date_planned,
        r.partner_ref == o.partner_ref,
        r.origin == o.origin,
        r.buyer == o.buyer,
        r.notes == o.notes,
{
    law_state_wire_roundtrip(o.state);
}

/// A line saved and read back is the same line, keyed by its sequence
/// (where its optional values were not present but empty).
pub proof fn law_saved_line_reads_back<M>(l: PurchaseOrderLine<M>, a: LineAttributes, p: (i32, PurchaseOrderLine<M>))
    requires
        writes_line_attributes(l, a),
        line_reads_back_as(a, l.amounts, p),
        survives(l.product_id),
        survives(l.date_planned),
    ensures
        p.0 == l.sequence,
        p.1.sequence == l.sequence,
        p.1.name@ == l.name@,
        p.1.product_id == l.product_id,
        p.1.product_uom@ == l.product_uom@,
        p.1.date_planned == l.date_planned,
        p.1.display_type == l.display_type,
        p.1.amounts == l.amounts,
{
    law_display_wire_roundtrip(l.display_type);
}

/// A line read back from its document: `None` unless the document's class is
/// `PurchaseOrderLine` and it has attributes. Missing values take the
/// defaults (empty name, `pcs`, product line); empty optional values read as
/// absent; the sequence is the attribute truncated to `i32`.
pub fn line_from_document<M>(class_name: Option<&str>, attrs: Option<LineAttributes>, amounts: M) -> (r: Option<(i32, PurchaseOrderLine<M>)>)
    ensures
        r is Some <==> (class_name matches Some(c) && c@ == "PurchaseOrderLine"@ && attrs is Some),
        r matches Some(p) ==> line_reads_back_as(attrs->0, amounts, p),
{
    let is_line = match class_name {
        Some(c) => str_eq(c, "PurchaseOrderLine"),
        None => false,
    };
    if !is_line {
        return None;
    }
    let a = match attrs {
        Some(a) => a,
        None => return None,
    };
    let seq = a.sequence as i32;
    let name = or_empty(a.name);
    let display = or_empty(a.display_type);
    let mut line = PurchaseOrderLine::new(name, amounts);
    line.sequence = seq;
    line.product_id = keep_non_empty(a.product_id);
    line.product_uom = or_literal(a.product_uom, "pcs");
    line.date_planned = keep_non_empty(a.date_planned);
    line.display_type = display_from_wire(display.as_str());
    Some((seq, line))
}

/// Lines keyed by sequence, in non-decreasing sequence order.
pub open spec fn keys_sorted<T>(s: Seq<(i32, T)>) -> bool {
    forall|i: int, j: int| 0 <= i < j < s.len() ==> (#[trigger] s[i]).0 <= (#[trigger] s[j]).0
}

/// Pairs sorted by their key; a stable insertion sort.
fn sort_by_key<T>(v: Vec<(i32, T)>) -> (r: Vec<(i32, T)>)
    ensures
        keys_sorted(r@),
        r@.to_multiset() =~= v@.to_multiset(),
{
    broadcast use vstd::multiset::group_multiset_axioms;

    let mut rest = v;
    let mut out: Vec<(i32, T)> = Vec::new();
    let ghost total = rest@.to_multiset();
    proof {
        vstd::seq_lib::to_multiset_len(out@);
        vstd::multiset::lemma_multiset_empty_len(out@.to_multiset());
    }
    while rest.len() > 0
        invariant
            keys_sorted(out@),
            out@.to_multiset().add(rest@.to_multiset()) =~= total,
        decreases rest.len(),
    {
        let ghost before = rest@;
        let x = rest.remove(0);
        proof {
            vstd::seq_lib::to_multiset_remove(before, 0);
            assert(before.to_multiset().count(x) > 0) by {
                vstd::seq_lib::to_multiset_contains(before, x);
                assert(before.contains(x)) by { assert(before[0] == x); }
            }
        }
        let mut p = out.len();
        while p > 0 && x.0 < out[p - 1].0
            invariant
                p <= out@.len(),
                keys_sorted(out@),
                forall|j: int| p <= j < out@.len() ==> x.0 < (#[trigger] out@[j]).0,
            decreases p,
        {
            p = p - 1;
        }
        proof {
            let s = out@;
            let t = s.insert(p as int, x);
            s.insert_ensures(p as int, x);
            assert forall|a: int, b: int| 0 <= a < b < t.len() implies (#[trigger] t[a]).0 <= (#[trigger] t[b]).0 by {
                if b < p {
                    assert(t[a] == s[a] && t[b] == s[b]);
                } else if b == p {
                    assert(t[a] == s[a]);
                    assert(s[a].0 <= s[p - 1].0);
                } else if a < p {
                    assert(t[a] == s[a] && t[b] == s[b - 1]);
                } else if a == p {
                    assert(t[b] == s[b - 1]);
                } else {
                    assert(t[a] == s[a - 1] && t[b] == s[b - 1]);
                }
            }
            vstd::seq_lib::to_multiset_insert(out@, p as int, x);
        }
        let ghost out_before = out@;
        out.insert(p, x);
        proof {
            assert(out@.to_multiset() == out_before.to_multiset().insert(x));
            assert(out@.to_multiset().add(rest@.to_multiset()) =~= total);
        }
    }
    proof {
        vstd::seq_lib::to_multiset_len(rest@);
        vstd::multiset::lemma_multiset_empty_len(rest@.to_multiset());
    }
    out
}

/// The second components of a sequence of pairs.
pub open spec fn seconds<T>(s: Seq<(i32, T)>) -> Seq<T> {
    s.map_values(|p: (i32, T)| p.1)
}

/// An order read back from its document: `None` unless the document's class
/// is `PurchaseOrder` and it has attributes. The reference falls back to the
/// folder name, the vendor and date to empty, the state to `draft`, the
/// currency to `USD`; empty optional values read as absent; the lines are
/// ordered by their `sequence` attribute, not by folder name.
pub fn order_from_document<M>(
    class_name: Option<&str>,
    attrs: Option<OrderAttributes>,
    folder_name: String,
    lines: Vec<(i32, PurchaseOrderLine<M>)>,
) -> (r: Option<PurchaseOrder<M>>)
    ensures
        r is Some <==> (class_name matches Some(c) && c@ == "PurchaseOrder"@ && attrs is Some),
        r matches Some(o) ==> reads_back_as(attrs->0, folder_name@, lines@, o),
{
    let is_order = match class_name {
        Some(c) => str_eq(c, "PurchaseOrder"),
        None => false,
    };
    if !is_order {
        return None;
    }
    let a = match attrs {
        Some(a) => a,
        None => return None,
    };
    let name = match a.reference {
        Some(s) => s,
        None => folder_name,
    };
    let mut order = PurchaseOrder::new_rfq(name, or_empty(a.manufacturer_id), or_empty(a.date_order));
    let state_wire = or_literal(a.state, "draft");
    order.state = state_from_wire(state_wire.as_str());
    order.date_approve = keep_non_empty(a.date_approve);
    order.date_planned = keep_non_empty(a.date_planned);
    order.currency = or_literal(a.currency, "USD");
    order.partner_ref = keep_non_empty(a.partner_ref);
    order.origin = keep_non_empty(a.origin);
    order.buyer = keep_non_empty(a.buyer);
    order.notes = keep_non_empty(a.notes);
    order.has_invoices = a.has_invoices;
    let sorted = sort_by_key(lines);
    let mut out: Vec<PurchaseOrderLine<M>> = Vec::new();
    let mut rest = sorted;
    let ghost p = rest@;
    let total_len = rest.len();
    let mut i: usize = 0;
    while rest.len() > 0
        invariant
            total_len == p.len(),
            i + rest@.len() == p.len(),
            rest@ == p.subrange(i as int, p.len() as int),
            out@ == seconds(p.subrange(0, i as int)),
        decreases rest.len(),
    {
        let (_, line) = rest.remove(0);
        out.push(line);
        i = i + 1;
        proof {
            assert(out@ =~= seconds(p.subrange(0, i as int)));
            assert(rest@ =~= p.subrange(i as int, p.len() as int));
        }
    }
    proof {
        assert(p.subrange(0, p.len() as int) =~= p);
    }
    order.order_line = out;
    Some(order)
}

/// The reference a freshly loaded registry mints next is carried by none of
/// the orders it was loaded from, whatever counter was persisted: a lost,
/// stale or hand-edited counter cannot mint a duplicate reference.
pub proof fn law_next_reference_is_fresh<M>(orders: Seq<PurchaseOrder<M>>, persisted: Option<u32>)
    requires
        max_reference(orders) != Some(u32::MAX),
    ensures
        forall|i: int| 0 <= i < orders.len() ==>
            (#[trigger] orders[i]).name@ != spec_order_reference(spec_next_sequence(orders, persisted)),
{
    let next = spec_next_sequence(orders, persisted);
    law_reference_number_of_formatted(next);
    assert forall|i: int| 0 <= i < orders.len() implies
        (#[trigger] orders[i]).name@ != spec_order_reference(next) by {
        lemma_max_reference_bounds(orders, i);
    }
}

/// The folder name of every line of an order, in line order.
pub fn line_folders<M>(order: &PurchaseOrder<M>) -> (r: Vec<String>)
    ensures
        r@.len() == order.order_line@.len(),
        forall|i: int| 0 <= i < r@.len() ==> (#[trigger] r@[i])@ == spec_line_folder(i as nat, order.order_line@[i].name@),
{
    let mut r: Vec<String> = Vec::new();
    let mut i: usize = 0;
    while i < order.order_line.len()
        invariant
            i <= order.order_line@.len(),
            r@.len() == i,
            forall|j: int| 0 <= j < i ==> (#[trigger] r@[j])@ == spec_line_folder(j as nat, order.order_line@[j].name@),
        decreases order.order_line.len() - i,
    {
        let f = line_folder(i, order.order_line[i].name.as_str());
        r.push(f);
        i = i + 1;
    }
    r
}

} // verus!
