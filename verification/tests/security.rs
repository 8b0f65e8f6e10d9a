use desktop_host::security::validate_identifier;

#[test]
fn accepts_normal_identifier() {
    assert_eq!(validate_identifier("sales_invoices").unwrap(), "sales_invoices");
}

#[test]
fn rejects_injection_text() {
    assert!(validate_identifier("sales_invoices; DROP TABLE users").is_err());
}

#[test]
fn identifier_error_names_the_rule() {
    assert_eq!(validate_identifier("").unwrap_err(), "SQL-001: invalid SQL identifier");
    let long = "a".repeat(65);
    assert!(validate_identifier(&long).is_err());
    let max = "a".repeat(64);
    assert_eq!(validate_identifier(&max).unwrap(), max.as_str());
    assert!(validate_identifier("جدول").is_err());
}
