//! Sales and purchase returns: the tax a return gives back, in proportion to
//! the original invoice, and the balanced entry that posts it.
use vstd::prelude::*;
use crate::journal::{
    JournalLine, JournalError, journal_line, line_is, debit_sum, credit_sum, journal_check, first_invalid_from,
    line_is_valid,
};
use crate::text::same_text;

verus! {

/// The tables that hold the invoices and returns of one side.
#[derive(Debug, Clone, Copy)]
pub struct Tables {
    pub invoices: &'static str,
    pub invoice_lines: &'static str,
    pub returns: &'static str,
    pub return_lines: &'static str,
}

/// The tables of sales or of purchases.
pub fn tables(sale: bool) -> (r: Tables)
    ensures
        sale ==> r.invoices@ == "sales_invoices"@ && r.invoice_lines@ == "sales_invoice_lines"@
            && r.returns@ == "sales_returns"@ && r.return_lines@ == "sales_return_lines"@,
        !sale ==> r.invoices@ == "purchase_invoices"@ && r.invoice_lines@ == "purchase_invoice_lines"@
            && r.returns@ == "purchase_returns"@ && r.return_lines@ == "purchase_return_lines"@,
{
    if sale {
        Tables {
            invoices: "sales_invoices",
            invoice_lines: "sales_invoice_lines",
            returns: "sales_returns",
            return_lines: "sales_return_lines",
        }
    } else {
        Tables {
            invoices: "purchase_invoices",
            invoice_lines: "purchase_invoice_lines",
            returns: "purchase_returns",
            return_lines: "purchase_return_lines",
        }
    }
}

/// A return as the list shows it.
#[derive(Debug)]
pub struct ReturnRow {
    pub id: String,
    pub number: i64,
    pub return_date: String,
    pub original_invoice_id: String,
    pub original_invoice_number: Option<i64>,
    pub contact_id: Option<String>,
    pub contact_name: Option<String>,
    pub warehouse_name: Option<String>,
    pub status: String,
    pub status_label: String,
    pub total: i64,
    pub tax: i64,
    pub grand_total: i64,
    pub journal_id: Option<String>,
    pub line_count: i64,
}

/// The label of a return's status.
pub open spec fn return_status_label(status: Seq<char>) -> Seq<char> {
    if status == "draft"@ {
        "پیش‌نویس"@
    } else if status == "posted"@ {
        "ثبت‌شده"@
    } else if status == "cancelled"@ {
        "باطل‌شده"@
    } else {
        "نامشخص"@
    }
}

/// The label of a return's status.
pub fn status_label(status: &str) -> (r: &'static str)
    ensures
        r@ == return_status_label(status@),
{
    if same_text(status, "draft") {
        "پیش‌نویس"
    } else if same_text(status, "posted") {
        "ثبت‌شده"
    } else if same_text(status, "cancelled") {
        "باطل‌شده"
    } else {
        "نامشخص"
    }
}

/// Integer division rounding toward zero, as Rust divides.
pub open spec fn div_toward_zero(a: int, b: int) -> int {
    if a >= 0 {
        a / b
    } else {
        -((-a) / b)
    }
}

/// The tax a return of `total` gives back: the original invoice's tax in
/// the proportion of the returned amount to the invoice's subtotal, rounded
/// toward zero and kept to 64 bits; none where the invoice had no subtotal.
/// The rate is the invoice's own, not today's.
pub open spec fn return_tax(total: i64, invoice_subtotal: i64, invoice_tax: i64) -> i64 {
    if invoice_subtotal > 0 {
        div_toward_zero(total * invoice_tax, invoice_subtotal as int) as i64
    } else {
        0
    }
}

/// The tax a return carries: its share of the invoice's tax, in proportion
/// to its total against the invoice's subtotal.
pub fn proportional_tax(total: i64, invoice_subtotal: i64, invoice_tax: i64) -> (r: i64)
    ensures
        r == return_tax(total, invoice_subtotal, invoice_tax),
{
    if invoice_subtotal > 0 {
        assert(-0x4000_0000_0000_0000_0000_0000_0000_0000 <= (total as int) * (invoice_tax as int) <= 0x4000_0000_0000_0000_0000_0000_0000_0000) by (nonlinear_arith)
            requires
                -0x8000_0000_0000_0000 <= total <= 0x7fff_ffff_ffff_ffff,
                -0x8000_0000_0000_0000 <= invoice_tax <= 0x7fff_ffff_ffff_ffff,
        ;
        let p: i128 = total as i128 * invoice_tax as i128;
        let q: i128 = if p >= 0 {
            p / (invoice_subtotal as i128)
        } else {
            -((-p) / (invoice_subtotal as i128))
        };
        #[verifier::truncate]
        (q as i64)
    } else {
        0
    }
}

/// A return's tax is its exact share of the invoice's tax, rounded toward
/// zero: for a returned amount between zero and the invoice's subtotal,
/// the tax given back times the subtotal falls short of the returned
/// amount times the invoice's tax by less than one subtotal, and it never
/// exceeds the invoice's tax in size nor changes its sign.
pub proof fn lemma_return_tax_proportional(total: i64, invoice_subtotal: i64, invoice_tax: i64)
    requires
        0 < invoice_subtotal,
        0 <= total <= invoice_subtotal,
    ensures
        ({
            let r = return_tax(total, invoice_subtotal, invoice_tax) as int;
            let p = total as int * invoice_tax as int;
            let s = invoice_subtotal as int;
            &&& p >= 0 ==> r * s <= p < r * s + s
            &&& p < 0 ==> r * s - s < p <= r * s
            &&& invoice_tax >= 0 ==> 0 <= r <= invoice_tax
            &&& invoice_tax < 0 ==> invoice_tax <= r <= 0
        }),
{
    let p = total as int * invoice_tax as int;
    let s = invoice_subtotal as int;
    let t = invoice_tax as int;
    let n = total as int;
    if p >= 0 {
        let q = p / s;
        vstd::arithmetic::div_mod::lemma_fundamental_div_mod(p, s);
        vstd::arithmetic::div_mod::lemma_mod_pos_bound(p, s);
        assert(s * q <= p < s * q + s);
        if t >= 0 {
            assert(p <= s * t) by (nonlinear_arith)
                requires
                    p == n * t,
                    0 <= n <= s,
                    t >= 0,
            ;
            assert(0 <= q <= t) by (nonlinear_arith)
                requires
                    s * q <= p,
                    p < s * q + s,
                    p <= s * t,
                    0 <= p,
                    s > 0,
            ;
        } else {
            assert(p <= 0) by (nonlinear_arith)
                requires
                    p == n * t,
                    0 <= n,
                    t < 0,
            ;
            assert(q == 0) by (nonlinear_arith)
                requires
                    s * q <= p,
                    p < s * q + s,
                    p == 0,
                    s > 0,
            ;
        }
        assert(div_toward_zero(p, s) == q);
        assert(q * s == s * q) by (nonlinear_arith);
    } else {
        let m = -p;
        let q = m / s;
        vstd::arithmetic::div_mod::lemma_fundamental_div_mod(m, s);
        vstd::arithmetic::div_mod::lemma_mod_pos_bound(m, s);
        assert(s * q <= m < s * q + s);
        assert(t < 0) by (nonlinear_arith)
            requires
                p == n * t,
                0 <= n,
                p < 0,
        ;
        assert(m <= s * (-t)) by (nonlinear_arith)
            requires
                m == -(n * t),
                0 <= n <= s,
                t < 0,
        ;
        assert(0 <= q <= -t) by (nonlinear_arith)
            requires
                s * q <= m,
                m < s * q + s,
                m <= s * (-t),
                0 < m,
                s > 0,
        ;
        assert(div_toward_zero(p, s) == -q);
        assert((-q) * s == -(s * q)) by (nonlinear_arith);
    }
}

/// Returning the whole of an invoice's subtotal gives back exactly the
/// invoice's tax.
pub proof fn lemma_full_return_gives_back_tax(invoice_subtotal: i64, invoice_tax: i64)
    requires
        0 < invoice_subtotal,
    ensures
        return_tax(invoice_subtotal, invoice_subtotal, invoice_tax) == invoice_tax,
{
    let s = invoice_subtotal as int;
    let t = invoice_tax as int;
    lemma_return_tax_proportional(invoice_subtotal, invoice_subtotal, invoice_tax);
    let r = return_tax(invoice_subtotal, invoice_subtotal, invoice_tax) as int;
    if s * t >= 0 {
        assert(r == t) by (nonlinear_arith)
            requires
                r * s <= s * t,
                s * t < r * s + s,
                s > 0,
        ;
    } else {
        assert(r == t) by (nonlinear_arith)
            requires
                r * s - s < s * t,
                s * t <= r * s,
                s > 0,
        ;
    }
}

/// A return against an invoice without a subtotal gives back no tax.
pub proof fn lemma_no_subtotal_no_tax(total: i64, invoice_subtotal: i64, invoice_tax: i64)
    requires
        invoice_subtotal <= 0,
    ensures
        return_tax(total, invoice_subtotal, invoice_tax) == 0,
{
}

/// Why a return could not be posted or cancelled.
#[derive(Debug, Clone, Copy, PartialEq, Eq, Structural)]
pub enum ReturnError {
    /// RET-006
    NotFound,
    /// RET-007
    NotDraft,
    /// RET-010
    NoLines,
    /// RET-012: the debits and credits of the entry differ.
    Unbalanced,
    /// RET-015
    PostedNotCancellable,
}

/// A return can be posted while it is a draft and has lines.
pub fn check_postable_return(status: &str, line_count: usize) -> (r: Result<(), ReturnError>)
    ensures
        status@ != "draft"@ ==> r == Err::<(), ReturnError>(ReturnError::NotDraft),
        status@ == "draft"@ && line_count == 0 ==> r == Err::<(), ReturnError>(ReturnError::NoLines),
        status@ == "draft"@ && line_count > 0 ==> r is Ok,
{
    if !same_text(status, "draft") {
        return Err(ReturnError::NotDraft);
    }
    if line_count == 0 {
        return Err(ReturnError::NoLines);
    }
    Ok(())
}

/// The entry of a return of `total` with `tax` given back. A sales return
/// debits returns and, where there is tax, the tax account, and credits the
/// customer with the grand total; a purchase return debits the supplier
/// with the grand total and credits purchase returns and, where there is
/// tax, the tax account. The entry must balance, which fails exactly when
/// the tax is negative.
pub open spec fn return_entry(sale: bool, total: int, tax: int, lines: Seq<JournalLine>) -> bool {
    if sale {
        if tax > 0 {
            lines.len() == 3 && line_is(lines[0], "acc-4200"@, total, 0) && line_is(lines[1], "acc-2401"@, tax, 0)
                && line_is(lines[2], "acc-1201"@, 0, total + tax)
        } else {
            lines.len() == 2 && line_is(lines[0], "acc-4200"@, total, 0) && line_is(lines[1], "acc-1201"@, 0, total + tax)
        }
    } else {
        if tax > 0 {
            lines.len() == 3 && line_is(lines[0], "acc-2101"@, total + tax, 0) && line_is(lines[1], "acc-5200"@, 0, total)
                && line_is(lines[2], "acc-2401"@, 0, tax)
        } else {
            lines.len() == 2 && line_is(lines[0], "acc-2101"@, total + tax, 0) && line_is(lines[1], "acc-5200"@, 0, total)
        }
    }
}

proof fn lemma_small_sums(lines: Seq<JournalLine>)
    requires
        2 <= lines.len() <= 3,
    ensures
        lines.len() == 2 ==> debit_sum(lines) == lines[0].debit + lines[1].debit && credit_sum(lines) == lines[0].credit + lines[1].credit,
        lines.len() == 3 ==> debit_sum(lines) == lines[0].debit + lines[1].debit + lines[2].debit && credit_sum(lines) == lines[0].credit + lines[1].credit + lines[2].credit,
{
    let e = Seq::<JournalLine>::empty();
    assert(debit_sum(e) == 0);
    assert(credit_sum(e) == 0);
    assert(lines.take(1).drop_last() =~= e);
    assert(debit_sum(lines.take(1)) == lines[0].debit);
    assert(credit_sum(lines.take(1)) == lines[0].credit);
    assert(lines.take(2).drop_last() =~= lines.take(1));
    assert(debit_sum(lines.take(2)) == lines[0].debit + lines[1].debit);
    assert(credit_sum(lines.take(2)) == lines[0].credit + lines[1].credit);
    if lines.len() == 2 {
        assert(lines.take(2) =~= lines);
    } else {
        assert(lines.drop_last() =~= lines.take(2));
    }
}

/// Every entry a return posts is one the journal accepts: for a positive
/// returned amount and a tax not below zero, each line has a single
/// positive side and the entry balances on the grand total; so a tax line
/// appears exactly when there is tax.
pub proof fn lemma_return_entry_is_valid(sale: bool, total: int, tax: int, lines: Seq<JournalLine>)
    requires
        total > 0,
        tax >= 0,
        return_entry(sale, total, tax, lines),
    ensures
        journal_check(lines) == Ok::<(), JournalError>(()),
        debit_sum(lines) == total + tax,
        lines.len() == (if tax > 0 { 3int } else { 2int }),
{
    lemma_small_sums(lines);
    reveal_with_fuel(first_invalid_from, 4);
    assert(line_is_valid(lines[0]));
    assert(line_is_valid(lines[1]));
    if lines.len() == 3 {
        assert(line_is_valid(lines[2]));
    }
}

/// The entry that posts a return; refused where it would not balance.
pub fn return_journal_lines(sale: bool, total: i64, tax: i64) -> (r: Result<Vec<JournalLine>, ReturnError>)
    requires
        i64::MIN <= total + tax <= i64::MAX,
    ensures
        tax < 0 ==> r == Err::<Vec<JournalLine>, ReturnError>(ReturnError::Unbalanced),
        tax >= 0 ==> (r matches Ok(lines) && return_entry(sale, total as int, tax as int, lines@)),
        r matches Ok(lines) ==> debit_sum(lines@) == credit_sum(lines@),
{
    let grand_total = total + tax;
    let mut lines: Vec<JournalLine> = Vec::new();
    if sale {
        lines.push(journal_line("acc-4200", total, 0));
        if tax > 0 {
            lines.push(journal_line("acc-2401", tax, 0));
        }
        lines.push(journal_line("acc-1201", 0, grand_total));
    } else {
        lines.push(journal_line("acc-2101", grand_total, 0));
        lines.push(journal_line("acc-5200", 0, total));
        if tax > 0 {
            lines.push(journal_line("acc-2401", 0, tax));
        }
    }
    proof {
        lemma_small_sums(lines@);
    }
    let debit: i128 = if lines.len() == 3 {
        lines[0].debit as i128 + lines[1].debit as i128 + lines[2].debit as i128
    } else {
        lines[0].debit as i128 + lines[1].debit as i128
    };
    let credit: i128 = if lines.len() == 3 {
        lines[0].credit as i128 + lines[1].credit as i128 + lines[2].credit as i128
    } else {
        lines[0].credit as i128 + lines[1].credit as i128
    };
    if debit != credit {
        return Err(ReturnError::Unbalanced);
    }
    Ok(lines)
}

/// What cancelling a return does.
#[derive(Debug, Clone, Copy, PartialEq, Eq, Structural)]
pub enum CancelAction {
    /// The draft is marked cancelled.
    Cancel,
    /// It was cancelled already; nothing changes.
    AlreadyCancelled,
}

/// Cancelling a return: a missing one is not found; a posted one is never
/// cancelled (a reversing entry undoes it); a cancelled one stays as it is;
/// any other is cancelled.
pub fn cancel_decision(status: &Option<String>) -> (r: Result<CancelAction, ReturnError>)
    ensures
        status is None ==> r == Err::<CancelAction, ReturnError>(ReturnError::NotFound),
        status matches Some(s) ==> r == (if s@ == "posted"@ {
            Err::<CancelAction, ReturnError>(ReturnError::PostedNotCancellable)
        } else if s@ == "cancelled"@ {
            Ok(CancelAction::AlreadyCancelled)
        } else {
            Ok(CancelAction::Cancel)
        }),
{
    match status {
        None => Err(ReturnError::NotFound),
        Some(s) => if same_text(s.as_str(), "posted") {
            Err(ReturnError::PostedNotCancellable)
        } else if same_text(s.as_str(), "cancelled") {
            Ok(CancelAction::AlreadyCancelled)
        } else {
            Ok(CancelAction::Cancel)
        },
    }
}

/// The permission that creating or cancelling a return needs.
pub fn return_permission(sale: bool) -> (r: &'static str)
    ensures
        sale ==> r@ == "sales.return.create"@,
        !sale ==> r@ == "purchase.return.create"@,
{
    if sale {
        "sales.return.create"
    } else {
        "purchase.return.create"
    }
}

} // verus!
