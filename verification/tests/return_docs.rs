use desktop_host::journal::JournalLine;
use desktop_host::return_docs::{
    cancel_decision, check_postable_return, proportional_tax, return_journal_lines,
    return_permission, status_label, tables, CancelAction, ReturnError,
};

fn view(lines: &[JournalLine]) -> Vec<(String, i64, i64)> {
    lines.iter().map(|x| (x.account_id.clone(), x.debit, x.credit)).collect()
}

#[test]
fn tables_of_each_side() {
    let t = tables(true);
    assert_eq!((t.invoices, t.invoice_lines, t.returns, t.return_lines), ("sales_invoices", "sales_invoice_lines", "sales_returns", "sales_return_lines"));
    let t = tables(false);
    assert_eq!(t.returns, "purchase_returns");
    assert_eq!(status_label("posted"), "ثبت‌شده");
    assert_eq!(return_permission(false), "purchase.return.create");
}

#[test]
fn tax_is_returned_in_proportion() {
    assert_eq!(proportional_tax(500, 1000, 90), 45);
    assert_eq!(proportional_tax(333, 1000, 90), 29);
    assert_eq!(proportional_tax(-333, 1000, 90), -29);
    assert_eq!(proportional_tax(500, 0, 90), 0);
    assert_eq!(proportional_tax(500, -10, 90), 0);
}

#[test]
fn sales_return_entry() {
    let lines = return_journal_lines(true, 1000, 90).unwrap();
    assert_eq!(view(&lines), vec![("acc-4200".into(), 1000, 0), ("acc-2401".into(), 90, 0), ("acc-1201".into(), 0, 1090)]);
    let lines = return_journal_lines(true, 1000, 0).unwrap();
    assert_eq!(view(&lines), vec![("acc-4200".into(), 1000, 0), ("acc-1201".into(), 0, 1000)]);
}

#[test]
fn purchase_return_entry() {
    let lines = return_journal_lines(false, 1000, 90).unwrap();
    assert_eq!(view(&lines), vec![("acc-2101".into(), 1090, 0), ("acc-5200".into(), 0, 1000), ("acc-2401".into(), 0, 90)]);
}

#[test]
fn negative_tax_unbalances_the_entry() {
    assert_eq!(return_journal_lines(true, 1000, -5).unwrap_err(), ReturnError::Unbalanced);
    assert_eq!(return_journal_lines(false, 1000, -5).unwrap_err(), ReturnError::Unbalanced);
}

#[test]
fn posting_and_cancelling() {
    assert_eq!(check_postable_return("posted", 2), Err(ReturnError::NotDraft));
    assert_eq!(check_postable_return("draft", 0), Err(ReturnError::NoLines));
    assert_eq!(check_postable_return("draft", 1), Ok(()));
    assert_eq!(cancel_decision(&None), Err(ReturnError::NotFound));
    assert_eq!(cancel_decision(&Some("posted".into())), Err(ReturnError::PostedNotCancellable));
    assert_eq!(cancel_decision(&Some("cancelled".into())), Ok(CancelAction::AlreadyCancelled));
    assert_eq!(cancel_decision(&Some("draft".into())), Ok(CancelAction::Cancel));
}
