use desktop_host::quotes::{
    allowed_next, check_convertible, check_editable, check_status_change, kind_label, parse_kind,
    permission_for, preview_quote, quote_transitions, shows_expired, status_label,
    QuoteError, QuoteLineAmounts,
};

fn line(gross: i64, discount: i64) -> QuoteLineAmounts {
    QuoteLineAmounts { quantity_positive: true, unit_price: 1, gross, discount }
}

#[test]
fn kinds_and_labels() {
    assert_eq!(parse_kind("sales_quote"), Ok("sales_quote"));
    assert_eq!(parse_kind("purchase_order"), Ok("purchase_order"));
    assert_eq!(parse_kind("invoice"), Err(QuoteError::BadKind));
    assert_eq!(kind_label("purchase_order"), "سفارش خرید");
    assert_eq!(status_label("converted"), "تبدیل به فاکتور");
    assert_eq!(status_label("weird"), "نامشخص");
    assert_eq!(permission_for("sales_quote"), "sales.invoice.create");
    assert_eq!(permission_for("purchase_order"), "purchase.invoice.create");
}

#[test]
fn status_cycle() {
    assert_eq!(allowed_next("draft"), vec!["sent", "cancelled"]);
    assert_eq!(allowed_next("sent"), vec!["accepted", "rejected", "expired", "cancelled"]);
    assert_eq!(allowed_next("accepted"), vec!["converted", "cancelled"]);
    assert_eq!(allowed_next("rejected"), vec!["draft"]);
    assert!(allowed_next("converted").is_empty());
    assert!(allowed_next("cancelled").is_empty());
    let t = quote_transitions("sent");
    assert_eq!(t.len(), 4);
    assert_eq!(t[0].status, "accepted");
    assert_eq!(t[0].label, "پذیرفته‌شده");
}

#[test]
fn manual_status_changes() {
    assert_eq!(check_status_change("accepted", "converted"), Err(QuoteError::ConvertThroughButton));
    assert_eq!(check_status_change("draft", "accepted"), Err(QuoteError::TransitionNotAllowed));
    assert_eq!(check_status_change("draft", "sent"), Ok(()));
    assert_eq!(check_status_change("cancelled", "draft"), Err(QuoteError::TransitionNotAllowed));
}

#[test]
fn conversion_happens_once() {
    assert_eq!(check_convertible("accepted", false), Ok(()));
    assert_eq!(check_convertible("accepted", true), Err(QuoteError::AlreadyConverted));
    assert_eq!(check_convertible("converted", false), Err(QuoteError::AlreadyConverted));
    assert_eq!(check_convertible("sent", false), Err(QuoteError::NotAccepted));
    assert_eq!(check_editable("converted"), Err(QuoteError::ConvertedNotEditable));
    assert_eq!(check_editable("cancelled"), Err(QuoteError::CancelledNotEditable));
    assert_eq!(check_editable("draft"), Ok(()));
    assert!(shows_expired("sent", true));
    assert!(!shows_expired("converted", true));
    assert!(!shows_expired("sent", false));
}

#[test]
fn totals_charge_tax_after_discount() {
    let p = preview_quote(&vec![line(10_000, 1_000), line(5_000, 0)], 900).unwrap();
    assert_eq!((p.subtotal, p.discount, p.net, p.tax, p.total), (15_000, 1_000, 14_000, 1_260, 15_260));
    let p = preview_quote(&vec![line(999, 0)], 900).unwrap();
    assert_eq!(p.tax, 89);
}

#[test]
fn totals_refuse_bad_lines() {
    assert_eq!(preview_quote(&vec![], 0).unwrap_err(), QuoteError::NoLines);
    let bad_qty = QuoteLineAmounts { quantity_positive: false, unit_price: 5, gross: 0, discount: 0 };
    assert_eq!(preview_quote(&vec![line(1, 0), bad_qty], 0).unwrap_err(), QuoteError::BadQuantity(2));
    let bad_price = QuoteLineAmounts { quantity_positive: true, unit_price: -1, gross: 0, discount: 0 };
    assert_eq!(preview_quote(&vec![bad_price], 0).unwrap_err(), QuoteError::NegativePrice(1));
    assert_eq!(preview_quote(&vec![line(10, 11)], 0).unwrap_err(), QuoteError::BadDiscount(1));
    assert_eq!(preview_quote(&vec![line(10, -1)], 0).unwrap_err(), QuoteError::BadDiscount(1));
    assert_eq!(preview_quote(&vec![line(10, 0)], 10_001).unwrap_err(), QuoteError::BadVat);
    assert_eq!(preview_quote(&vec![line(i64::MAX, 0), line(1, 0)], 0).unwrap_err(), QuoteError::OutOfRange);
}
