//! Sales quotes and purchase orders: commitments, not financial events. They
//! post nothing; only converting one into an invoice has a financial effect,
//! and a quote converts at most once.
use vstd::prelude::*;
use crate::text::same_text;

verus! {

/// Why a quote or purchase order was refused.
#[derive(Debug, Clone, Copy, PartialEq, Eq, Structural)]
pub enum QuoteError {
    /// QT-001
    BadKind,
    /// QT-002
    NoLines,
    /// QT-003: the quantity of this row (counted from one) is not above zero.
    BadQuantity(usize),
    /// QT-004: the price of this row is negative.
    NegativePrice(usize),
    /// QT-005: the discount of this row is negative or above its amount.
    BadDiscount(usize),
    /// QT-006
    BadVat,
    /// QT-012
    ConvertedNotEditable,
    /// QT-013
    CancelledNotEditable,
    /// QT-017
    ConvertThroughButton,
    /// QT-018
    TransitionNotAllowed,
    /// QT-019
    AlreadyConverted,
    /// QT-020
    NotAccepted,
    /// A total does not fit in 64 bits.
    OutOfRange,
}

/// The document kind a text names, if it names one.
pub open spec fn kind_of(kind: Seq<char>) -> Result<Seq<char>, QuoteError> {
    if kind == "sales_quote"@ {
        Ok("sales_quote"@)
    } else if kind == "purchase_order"@ {
        Ok("purchase_order"@)
    } else {
        Err(QuoteError::BadKind)
    }
}

/// Reads a document kind: a sales quote or a purchase order.
pub fn parse_kind(kind: &str) -> (r: Result<&'static str, QuoteError>)
    ensures
        match r {
            Ok(k) => kind_of(kind@) == Ok::<Seq<char>, QuoteError>(k@),
            Err(e) => kind_of(kind@) == Err::<Seq<char>, QuoteError>(e),
        },
{
    if same_text(kind, "sales_quote") {
        Ok("sales_quote")
    } else if same_text(kind, "purchase_order") {
        Ok("purchase_order")
    } else {
        Err(QuoteError::BadKind)
    }
}

/// The label of a document kind.
pub open spec fn kind_label_of(kind: Seq<char>) -> Seq<char> {
    if kind == "sales_quote"@ {
        "پیش‌فاکتور فروش"@
    } else if kind == "purchase_order"@ {
        "سفارش خرید"@
    } else {
        "نامشخص"@
    }
}

/// The label of a document kind.
pub fn kind_label(kind: &str) -> (r: &'static str)
    ensures
        r@ == kind_label_of(kind@),
{
    if same_text(kind, "sales_quote") {
        "پیش‌فاکتور فروش"
    } else if same_text(kind, "purchase_order") {
        "سفارش خرید"
    } else {
        "نامشخص"
    }
}

/// The label of a status.
pub open spec fn status_label_of(status: Seq<char>) -> Seq<char> {
    if status == "draft"@ {
        "پیش‌نویس"@
    } else if status == "sent"@ {
        "ارسال‌شده"@
    } else if status == "accepted"@ {
        "پذیرفته‌شده"@
    } else if status == "rejected"@ {
        "ردشده"@
    } else if status == "expired"@ {
        "منقضی"@
    } else if status == "converted"@ {
        "تبدیل به فاکتور"@
    } else if status == "cancelled"@ {
        "باطل‌شده"@
    } else {
        "نامشخص"@
    }
}

/// The label of a document status.
pub fn status_label(status: &str) -> (r: &'static str)
    ensures
        r@ == status_label_of(status@),
{
    if same_text(status, "draft") {
        "پیش‌نویس"
    } else if same_text(status, "sent") {
        "ارسال‌شده"
    } else if same_text(status, "accepted") {
        "پذیرفته‌شده"
    } else if same_text(status, "rejected") {
        "ردشده"
    } else if same_text(status, "expired") {
        "منقضی"
    } else if same_text(status, "converted") {
        "تبدیل به فاکتور"
    } else if same_text(status, "cancelled") {
        "باطل‌شده"
    } else {
        "نامشخص"
    }
}

/// The statuses a document may move to from `status`. A converted or
/// cancelled document, or one in an unknown status, moves nowhere.
pub open spec fn next_statuses(status: Seq<char>) -> Seq<Seq<char>> {
    if status == "draft"@ {
        seq!["sent"@, "cancelled"@]
    } else if status == "sent"@ {
        seq!["accepted"@, "rejected"@, "expired"@, "cancelled"@]
    } else if status == "accepted"@ {
        seq!["converted"@, "cancelled"@]
    } else if status == "rejected"@ {
        seq!["draft"@]
    } else if status == "expired"@ {
        seq!["draft"@]
    } else {
        Seq::empty()
    }
}

/// The statuses a document may move to from `status`.
pub fn allowed_next(status: &str) -> (r: Vec<&'static str>)
    ensures
        r@.map_values(|s: &'static str| s@) == next_statuses(status@),
{
    let v: Vec<&'static str> = if same_text(status, "draft") {
        vec!["sent", "cancelled"]
    } else if same_text(status, "sent") {
        vec!["accepted", "rejected", "expired", "cancelled"]
    } else if same_text(status, "accepted") {
        vec!["converted", "cancelled"]
    } else if same_text(status, "rejected") {
        vec!["draft"]
    } else if same_text(status, "expired") {
        vec!["draft"]
    } else {
        Vec::new()
    };
    assert(v@.map_values(|s: &'static str| s@) =~= next_statuses(status@));
    v
}


/// A status a document may move to, with its label.
#[derive(Debug)]
pub struct QuoteTransition {
    pub status: String,
    pub label: String,
}

/// The moves offered for a document in `status`, each with its label; the
/// interface builds no list of its own.
pub fn quote_transitions(status: &str) -> (r: Vec<QuoteTransition>)
    ensures
        r@.len() == next_statuses(status@).len(),
        forall|i: int| 0 <= i < r@.len() ==> (#[trigger] r@[i]).status@ == next_statuses(status@)[i]
            && r@[i].label@ == status_label_of(next_statuses(status@)[i]),
{
    let next = allowed_next(status);
    let ghost views = next@.map_values(|s: &'static str| s@);
    let mut out: Vec<QuoteTransition> = Vec::new();
    let mut i: usize = 0;
    while i < next.len()
        invariant
            0 <= i <= next@.len(),
            views == next@.map_values(|s: &'static str| s@),
            views == next_statuses(status@),
            out@.len() == i,
            forall|j: int| 0 <= j < i ==> (#[trigger] out@[j]).status@ == views[j] && out@[j].label@ == status_label_of(views[j]),
        decreases next@.len() - i,
    {
        let value = next[i];
        out.push(QuoteTransition { status: String::from_str(value), label: String::from_str(status_label(value)) });
        i = i + 1;
    }
    out
}

/// Whether `target` is among the moves allowed from `current`.
fn is_allowed(current: &str, target: &str) -> (r: bool)
    ensures
        r == next_statuses(current@).contains(target@),
{
    let next = allowed_next(current);
    let ghost views = next@.map_values(|s: &'static str| s@);
    let mut i: usize = 0;
    while i < next.len()
        invariant
            0 <= i <= next@.len(),
            views == next@.map_values(|s: &'static str| s@),
            views == next_statuses(current@),
            forall|j: int| 0 <= j < i ==> views[j] != target@,
        decreases next@.len() - i,
    {
        if same_text(next[i], target) {
            assert(views[i as int] == target@);
            return true;
        }
        i = i + 1;
    }
    false
}

/// A change of status by hand: moving to `converted` is refused outright
/// (conversion makes an invoice and has its own command); any other move
/// must be one the current status allows.
pub fn check_status_change(current: &str, target: &str) -> (r: Result<(), QuoteError>)
    ensures
        target@ == "converted"@ ==> r == Err::<(), QuoteError>(QuoteError::ConvertThroughButton),
        target@ != "converted"@ && !next_statuses(current@).contains(target@) ==> r == Err::<(), QuoteError>(QuoteError::TransitionNotAllowed),
        target@ != "converted"@ && next_statuses(current@).contains(target@) ==> r is Ok,
{
    if same_text(target, "converted") {
        return Err(QuoteError::ConvertThroughButton);
    }
    if !is_allowed(current, target) {
        return Err(QuoteError::TransitionNotAllowed);
    }
    Ok(())
}

/// A document can be edited unless it was converted or cancelled.
pub fn check_editable(status: &str) -> (r: Result<(), QuoteError>)
    ensures
        status@ == "converted"@ ==> r == Err::<(), QuoteError>(QuoteError::ConvertedNotEditable),
        status@ != "converted"@ && status@ == "cancelled"@ ==> r == Err::<(), QuoteError>(QuoteError::CancelledNotEditable),
        status@ != "converted"@ && status@ != "cancelled"@ ==> r is Ok,
{
    if same_text(status, "converted") {
        Err(QuoteError::ConvertedNotEditable)
    } else if same_text(status, "cancelled") {
        Err(QuoteError::CancelledNotEditable)
    } else {
        Ok(())
    }
}

/// A document converts into an invoice once, and only once accepted.
pub fn check_convertible(status: &str, has_invoice: bool) -> (r: Result<(), QuoteError>)
    ensures
        (has_invoice || status@ == "converted"@) ==> r == Err::<(), QuoteError>(QuoteError::AlreadyConverted),
        !(has_invoice || status@ == "converted"@) && status@ != "accepted"@ ==> r == Err::<(), QuoteError>(QuoteError::NotAccepted),
        !(has_invoice || status@ == "converted"@) && status@ == "accepted"@ ==> r is Ok,
{
    if has_invoice || same_text(status, "converted") {
        return Err(QuoteError::AlreadyConverted);
    }
    if !same_text(status, "accepted") {
        return Err(QuoteError::NotAccepted);
    }
    Ok(())
}

/// A document shows as expired when its validity date has passed, unless it
/// was converted or cancelled. Expiry is computed, never stored.
pub fn shows_expired(status: &str, validity_passed: bool) -> (r: bool)
    ensures
        r == (status@ != "converted"@ && status@ != "cancelled"@ && validity_passed),
{
    !same_text(status, "converted") && !same_text(status, "cancelled") && validity_passed
}

/// The permission that creating or listing a document of this kind needs.
pub fn permission_for(kind: &str) -> (r: &'static str)
    ensures
        kind@ == "sales_quote"@ ==> r@ == "sales.invoice.create"@,
        kind@ != "sales_quote"@ ==> r@ == "purchase.invoice.create"@,
{
    if same_text(kind, "sales_quote") {
        "sales.invoice.create"
    } else {
        "purchase.invoice.create"
    }
}

/// A converted or cancelled document is final: no move leads out of it.
pub proof fn lemma_final_statuses()
    ensures
        next_statuses("converted"@).len() == 0,
        next_statuses("cancelled"@).len() == 0,
{
    reveal_strlit("converted");
    reveal_strlit("cancelled");
    reveal_strlit("draft");
    reveal_strlit("sent");
    reveal_strlit("accepted");
    reveal_strlit("rejected");
    reveal_strlit("expired");
    assert("converted"@.len() != "draft"@.len());
    assert("converted"@.len() != "sent"@.len());
    assert("converted"@.len() != "accepted"@.len());
    assert("converted"@.len() != "rejected"@.len());
    assert("converted"@.len() != "expired"@.len());
    assert("cancelled"@.len() != "draft"@.len());
    assert("cancelled"@.len() != "sent"@.len());
    assert("cancelled"@.len() != "accepted"@.len());
    assert("cancelled"@.len() != "rejected"@.len());
    assert("cancelled"@.len() != "expired"@.len());
}

/// No move by hand ever converts a document, and a converted document never
/// converts again: conversion happens once, through its own command.
pub proof fn lemma_conversion_only_once(current: Seq<char>)
    ensures
        !next_statuses("converted"@).contains(current),
{
    lemma_final_statuses();
}

proof fn lemma_status_names_differ()
    ensures
        "draft"@ != "sent"@,
        "draft"@ != "accepted"@,
        "draft"@ != "rejected"@,
        "draft"@ != "expired"@,
        "draft"@ != "converted"@,
        "draft"@ != "cancelled"@,
        "sent"@ != "accepted"@,
        "sent"@ != "rejected"@,
        "sent"@ != "expired"@,
        "sent"@ != "converted"@,
        "sent"@ != "cancelled"@,
        "accepted"@ != "rejected"@,
        "accepted"@ != "expired"@,
        "accepted"@ != "converted"@,
        "accepted"@ != "cancelled"@,
        "rejected"@ != "expired"@,
        "rejected"@ != "converted"@,
        "rejected"@ != "cancelled"@,
        "expired"@ != "converted"@,
        "expired"@ != "cancelled"@,
        "converted"@ != "cancelled"@,
{
    reveal_strlit("draft");
    reveal_strlit("sent");
    reveal_strlit("accepted");
    reveal_strlit("rejected");
    reveal_strlit("expired");
    reveal_strlit("converted");
    reveal_strlit("cancelled");
    assert("draft"@.len() != "sent"@.len());
    assert("draft"@.len() != "accepted"@.len());
    assert("draft"@.len() != "rejected"@.len());
    assert("draft"@.len() != "expired"@.len());
    assert("draft"@.len() != "converted"@.len());
    assert("draft"@.len() != "cancelled"@.len());
    assert("sent"@.len() != "accepted"@.len());
    assert("sent"@.len() != "rejected"@.len());
    assert("sent"@.len() != "expired"@.len());
    assert("sent"@.len() != "converted"@.len());
    assert("sent"@.len() != "cancelled"@.len());
    assert("accepted"@[0] != "rejected"@[0]);
    assert("accepted"@.len() != "expired"@.len());
    assert("accepted"@.len() != "converted"@.len());
    assert("accepted"@.len() != "cancelled"@.len());
    assert("rejected"@.len() != "expired"@.len());
    assert("rejected"@.len() != "converted"@.len());
    assert("rejected"@.len() != "cancelled"@.len());
    assert("expired"@.len() != "converted"@.len());
    assert("expired"@.len() != "cancelled"@.len());
    assert("converted"@[1] != "cancelled"@[1]);
}

/// A document that was sent and then turned down or left to expire is not
/// lost: the only move out of it is back to draft, from where it can be
/// sent again.
pub proof fn lemma_unsuccessful_outcomes_reopen(t: Seq<char>)
    requires
        next_statuses("sent"@).contains(t),
        t != "accepted"@,
        t != "cancelled"@,
    ensures
        next_statuses(t) == seq!["draft"@],
        next_statuses("draft"@).contains("sent"@),
{
    lemma_status_names_differ();
    let k = choose|k: int| 0 <= k < next_statuses("sent"@).len() && next_statuses("sent"@)[k] == t;
    assert(next_statuses("sent"@) == seq!["accepted"@, "rejected"@, "expired"@, "cancelled"@]);
    assert(t == "rejected"@ || t == "expired"@);
    assert(next_statuses("draft"@)[0] == "sent"@);
}

/// Only conversion and cancellation end a document's life: every status a
/// move leads to, other than those two, has a move out of it in turn.
pub proof fn lemma_no_dead_ends(s: Seq<char>, t: Seq<char>)
    requires
        next_statuses(s).contains(t),
        t != "converted"@,
        t != "cancelled"@,
    ensures
        next_statuses(t).len() > 0,
{
    lemma_status_names_differ();
    let k = choose|k: int| 0 <= k < next_statuses(s).len() && next_statuses(s)[k] == t;
    assert(t == "sent"@ || t == "accepted"@ || t == "rejected"@ || t == "expired"@ || t == "draft"@);
}

/// A line of a quote as the totals read it. The quantity is a decimal, so
/// whether it is above zero, and the line's amount (quantity times price,
/// rounded), come with the line.
#[derive(Debug, Clone, Copy)]
pub struct QuoteLineAmounts {
    pub quantity_positive: bool,
    pub unit_price: i64,
    pub gross: i64,
    pub discount: i64,
}

/// The totals of a document.
#[derive(Debug)]
pub struct QuotePreview {
    pub subtotal: i64,
    pub discount: i64,
    pub net: i64,
    pub tax: i64,
    pub total: i64,
}

/// The first line, from `i` on, that breaks a rule, with its error.
pub open spec fn first_line_error(lines: Seq<QuoteLineAmounts>, i: int) -> Option<QuoteError>
    decreases lines.len() - i,
{
    if i < 0 || i >= lines.len() {
        None
    } else if !lines[i].quantity_positive {
        Some(QuoteError::BadQuantity((i + 1) as usize))
    } else if lines[i].unit_price < 0 {
        Some(QuoteError::NegativePrice((i + 1) as usize))
    } else if lines[i].discount < 0 || lines[i].discount > lines[i].gross {
        Some(QuoteError::BadDiscount((i + 1) as usize))
    } else {
        first_line_error(lines, i + 1)
    }
}

/// The sum of the amounts of the lines.
pub open spec fn gross_sum(lines: Seq<QuoteLineAmounts>) -> int
    decreases lines.len(),
{
    if lines.len() == 0 {
        0
    } else {
        gross_sum(lines.drop_last()) + lines.last().gross
    }
}

/// The sum of the discounts of the lines.
pub open spec fn discount_sum(lines: Seq<QuoteLineAmounts>) -> int
    decreases lines.len(),
{
    if lines.len() == 0 {
        0
    } else {
        discount_sum(lines.drop_last()) + lines.last().discount
    }
}

/// Whether a number fits in 64 bits.
pub open spec fn fits_i64(x: int) -> bool {
    i64::MIN <= x <= i64::MAX
}

/// The totals of a document, or why it is refused: it needs lines; each line
/// needs a positive quantity, a price not below zero and a discount between
/// zero and its amount; the VAT rate lies between 0 and 10000 basis points.
/// Tax is charged on the amount after discount, rounded down.
pub open spec fn quote_totals(lines: Seq<QuoteLineAmounts>, vat: i64) -> Result<(int, int, int, int, int), QuoteError> {
    if lines.len() == 0 {
        Err(QuoteError::NoLines)
    } else {
        match first_line_error(lines, 0) {
            Some(e) => Err(e),
            None => if !(0 <= vat <= 10_000) {
                Err(QuoteError::BadVat)
            } else {
                let subtotal = gross_sum(lines);
                let discount = discount_sum(lines);
                let net = subtotal - discount;
                let tax = net * vat / 10_000;
                Ok((subtotal, discount, net, tax, net + tax))
            },
        }
    }
}

proof fn lemma_quote_sums_step(lines: Seq<QuoteLineAmounts>, i: int)
    requires
        0 <= i < lines.len(),
    ensures
        gross_sum(lines.take(i + 1)) == gross_sum(lines.take(i)) + lines[i].gross,
        discount_sum(lines.take(i + 1)) == discount_sum(lines.take(i)) + lines[i].discount,
{
    assert(lines.take(i + 1).drop_last() =~= lines.take(i));
}

spec fn acceptable_quote_line(l: QuoteLineAmounts) -> bool {
    l.quantity_positive && l.unit_price >= 0 && 0 <= l.discount <= l.gross
}

proof fn lemma_no_quote_line_error_from(lines: Seq<QuoteLineAmounts>, i: int)
    requires
        0 <= i,
        forall|j: int| 0 <= j < lines.len() ==> acceptable_quote_line(#[trigger] lines[j]),
    ensures
        first_line_error(lines, i) is None,
    decreases lines.len() - i,
{
    if i < lines.len() {
        assert(acceptable_quote_line(lines[i]));
        lemma_no_quote_line_error_from(lines, i + 1);
    }
}

proof fn lemma_quote_sums_bounds(lines: Seq<QuoteLineAmounts>)
    requires
        forall|j: int| 0 <= j < lines.len() ==> acceptable_quote_line(#[trigger] lines[j]),
    ensures
        0 <= discount_sum(lines) <= gross_sum(lines),
    decreases lines.len(),
{
    if lines.len() > 0 {
        let rest = lines.drop_last();
        assert forall|j: int| 0 <= j < rest.len() implies acceptable_quote_line(#[trigger] rest[j]) by {
            assert(rest[j] == lines[j]);
        }
        lemma_quote_sums_bounds(rest);
        assert(acceptable_quote_line(lines[lines.len() - 1]));
    }
}

/// A document whose lines all meet the rules, with a VAT rate between 0 and
/// 10000 basis points, is accepted, a line given away whole included: its
/// net amount is the subtotal less the discount and never below zero, its
/// tax is that net amount at the rate rounded down, and its total is the
/// net amount plus the tax.
pub proof fn lemma_acceptable_quote(lines: Seq<QuoteLineAmounts>, vat: i64)
    requires
        lines.len() > 0,
        forall|j: int| 0 <= j < lines.len() ==> {
            let l = #[trigger] lines[j];
            l.quantity_positive && l.unit_price >= 0 && 0 <= l.discount <= l.gross
        },
        0 <= vat <= 10_000,
    ensures
        quote_totals(lines, vat) matches Ok(t) && 0 <= t.1 <= t.0 && t.2 == t.0 - t.1 && 0 <= t.2
            && t.3 * 10_000 <= t.2 * vat < t.3 * 10_000 + 10_000 && t.4 == t.2 + t.3,
{
    assert forall|j: int| 0 <= j < lines.len() implies acceptable_quote_line(#[trigger] lines[j]) by {
        let l = lines[j];
    }
    lemma_no_quote_line_error_from(lines, 0);
    lemma_quote_sums_bounds(lines);
    let net = gross_sum(lines) - discount_sum(lines);
    let x = net * vat;
    assert(x >= 0) by (nonlinear_arith)
        requires
            x == net * vat,
            net >= 0,
            vat >= 0,
    ;
    vstd::arithmetic::div_mod::lemma_fundamental_div_mod(x, 10_000);
    vstd::arithmetic::div_mod::lemma_mod_pos_bound(x, 10_000);
}

/// The totals of a document; where a total leaves 64 bits, `OutOfRange`.
pub fn preview_quote(lines: &Vec<QuoteLineAmounts>, vat_basis_points: i64) -> (r: Result<QuotePreview, QuoteError>)
    requires
        lines@.len() <= 0x800_0000_0000,
    ensures
        match quote_totals(lines@, vat_basis_points) {
            Err(e) => r == Err::<QuotePreview, QuoteError>(e),
            Ok(t) => if fits_i64(t.0) && fits_i64(t.1) && fits_i64(t.2) && fits_i64(t.3) && fits_i64(t.4) {
                r matches Ok(p) && p.subtotal == t.0 && p.discount == t.1 && p.net == t.2 && p.tax == t.3 && p.total == t.4
            } else {
                r == Err::<QuotePreview, QuoteError>(QuoteError::OutOfRange)
            },
        },
{
    if lines.len() == 0 {
        return Err(QuoteError::NoLines);
    }
    let mut subtotal: i128 = 0;
    let mut discount: i128 = 0;
    let bound: i128 = 0x8000_0000_0000_0000;
    let mut i: usize = 0;
    while i < lines.len()
        invariant
            0 <= i <= lines@.len(),
            lines@.len() > 0,
            lines@.len() <= 0x800_0000_0000,
            first_line_error(lines@, 0) == first_line_error(lines@, i as int),
            subtotal == gross_sum(lines@.take(i as int)),
            discount == discount_sum(lines@.take(i as int)),
            -(i * bound) <= subtotal <= i * bound,
            0 <= discount <= subtotal,
            bound == 0x8000_0000_0000_0000,
        decreases lines@.len() - i,
    {
        let l = lines[i];
        if !l.quantity_positive {
            return Err(QuoteError::BadQuantity(i + 1));
        }
        if l.unit_price < 0 {
            return Err(QuoteError::NegativePrice(i + 1));
        }
        if l.discount < 0 || l.discount > l.gross {
            return Err(QuoteError::BadDiscount(i + 1));
        }
        proof {
            lemma_quote_sums_step(lines@, i as int);
        }
        subtotal = subtotal + l.gross as i128;
        discount = discount + l.discount as i128;
        i = i + 1;
    }
    proof {
        assert(lines@.take(lines@.len() as int) =~= lines@);
    }
    if !(vat_basis_points >= 0 && vat_basis_points <= 10_000) {
        return Err(QuoteError::BadVat);
    }
    let net: i128 = subtotal - discount;
    assert(-0x800_0000_0000_0000_0000_0000_0000 <= net <= 0x800_0000_0000_0000_0000_0000_0000);
    assert(-0x200_0000_0000_0000_0000_0000_0000_0000 <= net * vat_basis_points <= 0x200_0000_0000_0000_0000_0000_0000_0000) by (nonlinear_arith)
        requires
            -0x800_0000_0000_0000_0000_0000_0000 <= net <= 0x800_0000_0000_0000_0000_0000_0000,
            0 <= vat_basis_points <= 10_000,
    ;
    assert(net >= 0);
    assert(net * vat_basis_points >= 0) by (nonlinear_arith)
        requires
            net >= 0,
            vat_basis_points >= 0,
    ;
    let tax: i128 = net * vat_basis_points as i128 / 10_000;
    let total: i128 = net + tax;
    let max: i128 = 0x7fff_ffff_ffff_ffff;
    let min: i128 = -0x8000_0000_0000_0000;
    if subtotal < min || subtotal > max || discount < min || discount > max || net < min || net > max || tax < min
        || tax > max || total < min || total > max {
        return Err(QuoteError::OutOfRange);
    }
    Ok(QuotePreview {
        subtotal: subtotal as i64,
        discount: discount as i64,
        net: net as i64,
        tax: tax as i64,
        total: total as i64,
    })
}

} // verus!
