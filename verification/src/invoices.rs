//! Sales and purchase invoices: the totals of a new invoice.
use vstd::prelude::*;

verus! {

/// A line of a new invoice as the totals read it. The quantity is a
/// decimal, so whether it is above zero, and the line's amount (quantity
/// times price, rounded), come with the line.
#[derive(Debug, Clone, Copy)]
pub struct InvoiceLineAmounts {
    pub quantity_positive: bool,
    pub unit_price: i64,
    pub discount: i64,
    pub tax: i64,
    pub gross: i64,
}

/// Why an invoice was refused.
#[derive(Debug, Clone, Copy, PartialEq, Eq, Structural)]
pub enum InvoiceError {
    /// DOC-003
    NoLines,
    /// DOC-004
    BadLine,
    /// DOC-005
    DiscountAboveAmount,
    /// A total does not fit in 64 bits.
    OutOfRange,
}

/// The totals of an invoice.
#[derive(Debug, Clone, Copy, PartialEq, Eq)]
pub struct InvoiceTotals {
    pub subtotal: i64,
    pub discount: i64,
    pub tax: i64,
    pub total: i64,
}

/// The first line, from `i` on, that breaks a rule: a quantity not above
/// zero or a negative price, discount or tax; then a discount above the
/// line's amount.
pub open spec fn first_invoice_line_error(lines: Seq<InvoiceLineAmounts>, i: int) -> Option<InvoiceError>
    decreases lines.len() - i,
{
    if i < 0 || i >= lines.len() {
        None
    } else if !lines[i].quantity_positive || lines[i].unit_price < 0 || lines[i].discount < 0 || lines[i].tax < 0 {
        Some(InvoiceError::BadLine)
    } else if lines[i].discount > lines[i].gross {
        Some(InvoiceError::DiscountAboveAmount)
    } else {
        first_invoice_line_error(lines, i + 1)
    }
}

/// The sums of the amounts, discounts and taxes of `lines`.
pub open spec fn invoice_sums(lines: Seq<InvoiceLineAmounts>) -> (int, int, int)
    decreases lines.len(),
{
    if lines.len() == 0 {
        (0, 0, 0)
    } else {
        let s = invoice_sums(lines.drop_last());
        (s.0 + lines.last().gross, s.1 + lines.last().discount, s.2 + lines.last().tax)
    }
}

/// The totals of an invoice: subtotal, discount, tax, and the total that is
/// the subtotal less the discount plus the tax.
pub open spec fn invoice_totals_of(lines: Seq<InvoiceLineAmounts>) -> Result<(int, int, int, int), InvoiceError> {
    if lines.len() == 0 {
        Err(InvoiceError::NoLines)
    } else {
        match first_invoice_line_error(lines, 0) {
            Some(e) => Err(e),
            None => {
                let s = invoice_sums(lines);
                Ok((s.0, s.1, s.2, s.0 - s.1 + s.2))
            },
        }
    }
}

/// Whether a number fits in 64 bits.
pub open spec fn fits_i64(x: int) -> bool {
    i64::MIN <= x <= i64::MAX
}

proof fn lemma_sums_step(lines: Seq<InvoiceLineAmounts>, i: int)
    requires
        0 <= i < lines.len(),
    ensures
        invoice_sums(lines.take(i + 1)) == (
            invoice_sums(lines.take(i)).0 + lines[i].gross,
            invoice_sums(lines.take(i)).1 + lines[i].discount,
            invoice_sums(lines.take(i)).2 + lines[i].tax,
        ),
{
    assert(lines.take(i + 1).drop_last() =~= lines.take(i));
}

/// The totals of a new invoice; where a total leaves 64 bits, `OutOfRange`.
pub fn invoice_total(lines: &Vec<InvoiceLineAmounts>) -> (r: Result<InvoiceTotals, InvoiceError>)
    requires
        lines@.len() <= 0x800_0000_0000,
    ensures
        match invoice_totals_of(lines@) {
            Err(e) => r == Err::<InvoiceTotals, InvoiceError>(e),
            Ok(t) => if fits_i64(t.0) && fits_i64(t.1) && fits_i64(t.2) && fits_i64(t.3) {
                r == Ok::<InvoiceTotals, InvoiceError>(InvoiceTotals { subtotal: t.0 as i64, discount: t.1 as i64, tax: t.2 as i64, total: t.3 as i64 })
            } else {
                r == Err::<InvoiceTotals, InvoiceError>(InvoiceError::OutOfRange)
            },
        },
{
    if lines.len() == 0 {
        return Err(InvoiceError::NoLines);
    }
    let mut subtotal: i128 = 0;
    let mut discount: i128 = 0;
    let mut tax: i128 = 0;
    let bound: i128 = 0x8000_0000_0000_0000;
    let mut i: usize = 0;
    while i < lines.len()
        invariant
            0 <= i <= lines@.len(),
            lines@.len() > 0,
            lines@.len() <= 0x800_0000_0000,
            first_invoice_line_error(lines@, 0) == first_invoice_line_error(lines@, i as int),
            (subtotal as int, discount as int, tax as int) == invoice_sums(lines@.take(i as int)),
            0 <= discount <= subtotal <= i * bound,
            0 <= tax <= i * bound,
            bound == 0x8000_0000_0000_0000,
        decreases lines@.len() - i,
    {
        let l = lines[i];
        if !l.quantity_positive || l.unit_price < 0 || l.discount < 0 || l.tax < 0 {
            return Err(InvoiceError::BadLine);
        }
        if l.discount > l.gross {
            return Err(InvoiceError::DiscountAboveAmount);
        }
        proof {
            lemma_sums_step(lines@, i as int);
        }
        subtotal = subtotal + l.gross as i128;
        discount = discount + l.discount as i128;
        tax = tax + l.tax as i128;
        i = i + 1;
    }
    proof {
        assert(lines@.take(lines@.len() as int) =~= lines@);
    }
    let total: i128 = subtotal - discount + tax;
    let max: i128 = 0x7fff_ffff_ffff_ffff;
    if subtotal > max || discount > max || tax > max || total > max {
        return Err(InvoiceError::OutOfRange);
    }
    Ok(InvoiceTotals { subtotal: subtotal as i64, discount: discount as i64, tax: tax as i64, total: total as i64 })
}

/// A line the rules accept: a positive quantity, and price, discount and
/// tax not below zero, with a discount no larger than the line's amount.
spec fn acceptable_line(l: InvoiceLineAmounts) -> bool {
    l.quantity_positive && l.unit_price >= 0 && l.discount >= 0 && l.tax >= 0 && l.discount <= l.gross
}

proof fn lemma_no_line_error_from(lines: Seq<InvoiceLineAmounts>, i: int)
    requires
        0 <= i,
        forall|j: int| 0 <= j < lines.len() ==> acceptable_line(#[trigger] lines[j]),
    ensures
        first_invoice_line_error(lines, i) is None,
    decreases lines.len() - i,
{
    if i < lines.len() {
        assert(acceptable_line(lines[i]));
        lemma_no_line_error_from(lines, i + 1);
    }
}

proof fn lemma_sums_bounds(lines: Seq<InvoiceLineAmounts>)
    requires
        forall|j: int| 0 <= j < lines.len() ==> acceptable_line(#[trigger] lines[j]),
    ensures
        0 <= invoice_sums(lines).1 <= invoice_sums(lines).0,
        0 <= invoice_sums(lines).2,
    decreases lines.len(),
{
    if lines.len() > 0 {
        let rest = lines.drop_last();
        assert forall|j: int| 0 <= j < rest.len() implies acceptable_line(#[trigger] rest[j]) by {
            assert(rest[j] == lines[j]);
        }
        lemma_sums_bounds(rest);
        assert(acceptable_line(lines[lines.len() - 1]));
    }
}

/// An invoice whose lines all meet the rules is accepted, a line given away
/// whole (its discount equal to its amount) included; its discount never
/// exceeds its subtotal, so its total is never below its tax.
pub proof fn lemma_acceptable_invoice(lines: Seq<InvoiceLineAmounts>)
    requires
        lines.len() > 0,
        forall|j: int| 0 <= j < lines.len() ==> {
            let l = #[trigger] lines[j];
            l.quantity_positive && l.unit_price >= 0 && l.discount >= 0 && l.tax >= 0 && l.discount <= l.gross
        },
    ensures
        invoice_totals_of(lines) matches Ok(t) && 0 <= t.1 <= t.0 && 0 <= t.2 && t.3 == t.0 - t.1 + t.2
            && t.3 >= t.2,
{
    assert forall|j: int| 0 <= j < lines.len() implies acceptable_line(#[trigger] lines[j]) by {
        let l = lines[j];
    }
    lemma_no_line_error_from(lines, 0);
    lemma_sums_bounds(lines);
}

/// An invoice is refused for a discount above a line's amount only when
/// some line's discount is strictly above its amount.
pub proof fn lemma_discount_refusal_has_cause(lines: Seq<InvoiceLineAmounts>, i: int)
    requires
        0 <= i,
        first_invoice_line_error(lines, i) == Some(InvoiceError::DiscountAboveAmount),
    ensures
        exists|j: int| i <= j < lines.len() && lines[j].discount > lines[j].gross,
    decreases lines.len() - i,
{
    if lines[i].discount > lines[i].gross {
        assert(i <= i < lines.len() && lines[i].discount > lines[i].gross);
    } else {
        lemma_discount_refusal_has_cause(lines, i + 1);
        let j = choose|j: int| i + 1 <= j < lines.len() && lines[j].discount > lines[j].gross;
        assert(i <= j < lines.len() && lines[j].discount > lines[j].gross);
    }
}

/// The permission that creating an invoice needs.
pub fn invoice_permission(sale: bool) -> (r: &'static str)
    ensures
        sale ==> r@ == "sales.invoice.create"@,
        !sale ==> r@ == "purchase.invoice.create"@,
{
    if sale {
        "sales.invoice.create"
    } else {
        "purchase.invoice.create"
    }
}

} // verus!
