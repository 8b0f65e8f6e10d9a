use desktop_host::aging::{group_aging, party_aging, AgingError, AgingInvoice, PartyAging};

fn inv(id: &str, name: &str, date: &str, amount: i64) -> AgingInvoice {
    AgingInvoice { contact_id: id.into(), contact_name: name.into(), invoice_date: date.into(), open_amount: amount }
}

fn cols(p: &PartyAging) -> (String, String, i64, i64, i64, i64, i64, i64) {
    (p.contact_id.clone(), p.contact_name.clone(), p.current, p.days_1_30, p.days_31_60, p.days_61_90, p.over_90, p.total)
}

#[test]
fn aging_splits_open_amounts_by_age() {
    let rows = vec![
        inv("a", "Ali", "2024-03-31", 100),
        inv("b", "Bita", "2024-01-31", 50),
        inv("a", "Ali B", "2024-03-01", 200),
        inv("a", "Ali", "2023-12-01", 10),
        inv("b", "Bita", "not a date", 5),
        inv("b", "Bita", "2024-01-01", 7),
        inv("c", "Cyrus", "2024-04-10", 3),
    ];
    let report = party_aging("2024-03-31", &rows).unwrap();
    let got: Vec<_> = report.iter().map(cols).collect();
    assert_eq!(got, vec![
        ("a".into(), "Ali".into(), 100, 200, 0, 0, 10, 310),
        ("b".into(), "Bita".into(), 5, 0, 50, 7, 0, 62),
        ("c".into(), "Cyrus".into(), 3, 0, 0, 0, 0, 3),
    ]);
}

#[test]
fn aging_bucket_edges() {
    let rows = vec![inv("x", "X", "", 1), inv("x", "X", "", 2), inv("x", "X", "", 4), inv("x", "X", "", 8), inv("x", "X", "", 16), inv("x", "X", "", 32)];
    let report = group_aging(&rows, &vec![0, 1, 30, 31, 90, 91]);
    assert_eq!(report.len(), 1);
    assert_eq!(cols(&report[0]), ("x".into(), "X".into(), 1, 2 + 4, 8, 16, 32, 63));
}

#[test]
fn aging_rejects_bad_report_date() {
    assert_eq!(party_aging("2024-13-01", &vec![]).err(), Some(AgingError::BadReportDate));
    assert!(party_aging("2024-02-29", &vec![]).unwrap().is_empty());
}

#[test]
fn aging_report_keeps_every_open_amount() {
    let rows = vec![inv("p", "P", "2024-01-05", 11), inv("q", "Q", "2023-06-01", 22), inv("p", "P", "2024-03-30", 33)];
    let report = party_aging("2024-03-31", &rows).unwrap();
    let shown: i64 = report.iter().map(|p| p.total).sum();
    assert_eq!(shown, 66);
    for p in &report {
        assert_eq!(p.total, p.current + p.days_1_30 + p.days_31_60 + p.days_61_90 + p.over_90);
    }
}
