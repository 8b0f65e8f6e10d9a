use desktop_host::contacts::{check_bulk_price_request, check_contact, BulkPriceError, BulkPriceMode, ContactError};

#[test]
fn quick_contact_checks() {
    assert_eq!(check_contact("Sara", "person"), Ok(()));
    assert_eq!(check_contact("Acme", "company"), Ok(()));
    assert_eq!(check_contact("  ", "person"), Err(ContactError::MissingName));
    assert_eq!(check_contact("", "robot"), Err(ContactError::MissingName));
    assert_eq!(check_contact("Sara", "Person"), Err(ContactError::BadKind));
}

#[test]
fn bulk_price_request_checks() {
    assert_eq!(check_bulk_price_request(0, "percent"), Err(BulkPriceError::NoProducts));
    assert_eq!(check_bulk_price_request(2, "percent"), Ok(BulkPriceMode::Percent));
    assert_eq!(check_bulk_price_request(1, "amount"), Ok(BulkPriceMode::Amount));
    assert_eq!(check_bulk_price_request(1, "set"), Ok(BulkPriceMode::Fixed));
    assert_eq!(check_bulk_price_request(1, "double"), Err(BulkPriceError::BadMode));
}
