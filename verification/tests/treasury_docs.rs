use desktop_host::treasury_docs::{
    check_document_line, check_type_for, document_permission, journal_description, kind_label,
    movement_account, parse_kind, status_label, DocumentError, DocumentKind, DocumentLineInput,
};

fn line(method: &str, amount: i64) -> DocumentLineInput {
    DocumentLineInput {
        method: method.into(),
        amount,
        description: None,
        treasury_account_id: None,
        terminal_id: None,
        check_serial: None,
        check_due_date: None,
        check_bank_name: None,
        sayad_id: None,
    }
}

#[test]
fn document_kinds_and_labels() {
    assert_eq!(parse_kind("receipt"), Ok(DocumentKind::Receipt));
    assert_eq!(parse_kind("refund"), Err(DocumentError::BadKind));
    assert_eq!(document_permission(DocumentKind::Payment), "treasury.payment.create");
    assert_eq!(status_label("cancelled"), "باطل‌شده");
    assert_eq!(kind_label("receipt"), "دریافت");
    assert_eq!(kind_label("payment"), "پرداخت");
    assert_eq!(check_type_for(DocumentKind::Receipt), "received");
}

#[test]
fn line_checks() {
    assert_eq!(check_document_line(&line("gold", 5), 0, false, false).unwrap_err(), DocumentError::UnknownMethod(1));
    assert_eq!(check_document_line(&line("cash", 0), 1, true, false).unwrap_err(), DocumentError::AmountNotPositive(2));
    assert!(check_document_line(&line("cash", 5), 0, true, false).unwrap().is_none());
    let mut c = line("check", 5);
    assert_eq!(check_document_line(&c, 0, true, true).unwrap_err(), DocumentError::MissingCheckSerial(1));
    c.check_serial = Some(" 123 ".into());
    assert_eq!(check_document_line(&c, 0, true, true).unwrap_err(), DocumentError::MissingCheckDueDate(1));
    c.check_due_date = Some("1403/05/01 ".into());
    let details = check_document_line(&c, 0, true, true).unwrap().unwrap();
    assert_eq!((details.serial.as_str(), details.due_date.as_str()), ("123", "1403/05/01"));
    assert_eq!(movement_account(&c, 2).unwrap_err(), DocumentError::MissingTreasuryAccount(3));
}

#[test]
fn entry_descriptions() {
    assert_eq!(journal_description(&None, DocumentKind::Receipt, 7), "سند دریافت شماره 7");
    assert_eq!(journal_description(&Some("x".into()), DocumentKind::Payment, 7), "x");
}

#[test]
fn party_account_code_by_kind() {
    assert_eq!(desktop_host::treasury_docs::party_account_code(desktop_host::treasury_docs::DocumentKind::Receipt), "1201");
    assert_eq!(desktop_host::treasury_docs::party_account_code(desktop_host::treasury_docs::DocumentKind::Payment), "2101");
}
