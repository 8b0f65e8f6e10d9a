use desktop_host::invoices::{invoice_permission, invoice_total, InvoiceError, InvoiceLineAmounts, InvoiceTotals};

fn line(gross: i64, discount: i64, tax: i64) -> InvoiceLineAmounts {
    InvoiceLineAmounts { quantity_positive: true, unit_price: 10, discount, tax, gross }
}

#[test]
fn invoice_totals_add_up() {
    let t = invoice_total(&vec![line(1000, 100, 90), line(500, 0, 45)]).unwrap();
    assert_eq!(t, InvoiceTotals { subtotal: 1500, discount: 100, tax: 135, total: 1535 });
}

#[test]
fn invoice_errors() {
    assert_eq!(invoice_total(&vec![]), Err(InvoiceError::NoLines));
    let mut bad = line(10, 0, 0);
    bad.quantity_positive = false;
    assert_eq!(invoice_total(&vec![line(10, 0, 0), bad]), Err(InvoiceError::BadLine));
    assert_eq!(invoice_total(&vec![line(10, 0, -1)]), Err(InvoiceError::BadLine));
    assert_eq!(invoice_total(&vec![line(10, 11, 0)]), Err(InvoiceError::DiscountAboveAmount));
    assert_eq!(invoice_total(&vec![line(i64::MAX, 0, 0), line(1, 0, 0)]), Err(InvoiceError::OutOfRange));
}

#[test]
fn invoice_permission_by_direction() {
    assert_eq!(invoice_permission(true), "sales.invoice.create");
    assert_eq!(invoice_permission(false), "purchase.invoice.create");
}
