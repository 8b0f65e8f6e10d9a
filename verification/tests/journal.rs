use desktop_host::journal::{
    check_action, check_balanced_totals, check_clearing_lines, check_dates, check_input,
    check_ledger_range, check_postable, check_reversible, check_settlement_amount,
    check_treasury_type, check_year_closable, invoice_journal_lines, journal_line, line_totals, nonempty,
    reverse_lines, running_balances, settlement_lines, settlement_outcome, single_line_entry,
    transfer_input, transfer_lines, treasury_movement_input, treasury_movement_lines,
    treasury_permission, CheckAction, CheckError, CheckKind, JournalError, JournalLine,
    PaymentStatus, PeriodError, SettlementError, TreasuryDirection, TreasuryEffect, TreasuryError,
};
use desktop_host::journal::check_journal_lines;

fn l(account: &str, debit: i64, credit: i64) -> JournalLine {
    journal_line(account, debit, credit)
}

fn view(lines: &[JournalLine]) -> Vec<(String, i64, i64)> {
    lines.iter().map(|x| (x.account_id.clone(), x.debit, x.credit)).collect()
}

#[test]
fn balanced_entry_is_accepted() {
    let lines = vec![l("acc-1101", 500, 0), l("acc-4100", 0, 300), l("acc-2401", 0, 200)];
    assert_eq!(check_journal_lines(&lines), Ok(()));
    assert_eq!(line_totals(&lines), (500, 500));
}

#[test]
fn entry_errors_come_in_order() {
    assert_eq!(check_journal_lines(&vec![]), Err(JournalError::NoLines));
    let unbalanced = vec![l("a", 100, 0), l("b", 0, 90)];
    assert_eq!(check_journal_lines(&unbalanced), Err(JournalError::Unbalanced));
    let zero = vec![l("a", 0, 0), l("b", 0, 0)];
    assert_eq!(check_journal_lines(&zero), Err(JournalError::Unbalanced));
    let two_sided = vec![l("a", 100, 0), l("b", 50, 50), l("c", 0, 100)];
    assert_eq!(check_journal_lines(&two_sided), Err(JournalError::InvalidLine(1)));
    let negative = vec![l("a", 100, 0), l("b", -10, 0), l("c", 0, 100)];
    assert_eq!(check_journal_lines(&negative), Err(JournalError::Unbalanced));
    let negative_balanced = vec![l("a", 110, 0), l("b", -10, 0), l("c", 0, 100)];
    assert_eq!(check_journal_lines(&negative_balanced), Err(JournalError::InvalidLine(1)));
}

#[test]
fn sums_are_exact_beyond_64_bits() {
    let lines = vec![l("a", i64::MAX, 0), l("b", i64::MAX, 0), l("c", 0, i64::MAX), l("d", 0, i64::MAX)];
    assert_eq!(check_journal_lines(&lines), Ok(()));
    assert_eq!(line_totals(&lines), (2 * i64::MAX as i128, 2 * i64::MAX as i128));
}

#[test]
fn reversal_swaps_sides_and_cancels() {
    let lines = vec![l("acc-1101", 700, 0), l("acc-4100", 0, 700)];
    let reversed = reverse_lines(&lines);
    assert_eq!(view(&reversed), vec![("acc-1101".into(), 0, 700), ("acc-4100".into(), 700, 0)]);
    assert_eq!(check_journal_lines(&reversed), check_journal_lines(&lines));
    assert_eq!(view(&reverse_lines(&reversed)), view(&lines));
    let mut net = std::collections::HashMap::new();
    for x in lines.iter().chain(reversed.iter()) {
        *net.entry(x.account_id.clone()).or_insert(0i64) += x.debit - x.credit;
    }
    assert!(net.values().all(|v| *v == 0));
}

#[test]
fn posting_and_reversing_follow_status() {
    assert_eq!(check_postable("draft"), Ok(()));
    assert_eq!(check_postable("validated"), Ok(()));
    assert_eq!(check_postable("posted"), Err(JournalError::NotPostable));
    assert_eq!(check_balanced_totals(10, 10), Ok(()));
    assert_eq!(check_balanced_totals(0, 0), Err(JournalError::Unbalanced));
    assert_eq!(check_balanced_totals(10, 9), Err(JournalError::Unbalanced));
    assert_eq!(check_reversible("posted"), Ok(()));
    assert_eq!(check_reversible("draft"), Err(JournalError::NotReversible));
}

#[test]
fn invoice_entries() {
    assert_eq!(
        view(&invoice_journal_lines(true, 1200)),
        vec![("acc-1201".into(), 1200, 0), ("acc-4100".into(), 0, 1200)]
    );
    assert_eq!(
        view(&invoice_journal_lines(false, 800)),
        vec![("acc-5100".into(), 800, 0), ("acc-2101".into(), 0, 800)]
    );
}

#[test]
fn settlements_never_exceed_the_invoice() {
    assert_eq!(check_settlement_amount(0), Err(SettlementError::AmountNotPositive));
    assert_eq!(check_settlement_amount(5), Ok(()));
    assert_eq!(settlement_outcome(1000, 1000, 1), Err(SettlementError::FullySettled));
    assert_eq!(settlement_outcome(1000, 400, 700), Err(SettlementError::ExceedsRemaining(600)));
    assert_eq!(settlement_outcome(1000, 400, 600), Ok(PaymentStatus::Paid));
    assert_eq!(settlement_outcome(1000, 400, 100), Ok(PaymentStatus::Partial));
    assert_eq!(
        view(&settlement_lines(true, 250)),
        vec![("acc-1101".into(), 250, 0), ("acc-1201".into(), 0, 250)]
    );
    assert_eq!(
        view(&settlement_lines(false, 250)),
        vec![("acc-1101".into(), 0, 250), ("acc-2101".into(), 250, 0)]
    );
}

#[test]
fn cheque_status_changes() {
    assert_eq!(check_action(TreasuryEffect::Increase, false, false), CheckAction::Settle);
    assert_eq!(check_action(TreasuryEffect::Decrease, true, true), CheckAction::Reverse);
    assert_eq!(check_action(TreasuryEffect::Unchanged, true, true), CheckAction::Reverse);
    assert_eq!(check_action(TreasuryEffect::Unchanged, false, true), CheckAction::StatusOnly);
    assert_eq!(
        view(&check_clearing_lines(true, "acc-1110", 90)),
        vec![("acc-1110".into(), 90, 0), ("acc-1201".into(), 0, 90)]
    );
    assert_eq!(
        view(&check_clearing_lines(false, "acc-1110", 90)),
        vec![("acc-2101".into(), 90, 0), ("acc-1110".into(), 0, 90)]
    );
    assert_eq!(check_treasury_type(true, false), "receipt");
    assert_eq!(check_treasury_type(false, false), "payment");
    assert_eq!(check_treasury_type(true, true), "payment");
    assert_eq!(check_treasury_type(false, true), "receipt");
}

#[test]
fn cheque_input_checks() {
    assert_eq!(check_input("gift", "1", 1), Err(CheckError::InvalidType));
    assert_eq!(check_input("received", "  ", 1), Err(CheckError::MissingNumber));
    assert_eq!(check_input("issued", "77", 0), Err(CheckError::AmountNotPositive));
    assert_eq!(check_input("issued", "77", 5), Ok(CheckKind::Issued));
    assert_eq!(check_input("received", "77", 5), Ok(CheckKind::Received));
    assert_eq!(check_dates("1403/01/10", "1403/02/01"), Ok(()));
    assert_eq!(check_dates("1403/02/01", "1403/02/01"), Ok(()));
    assert_eq!(check_dates("1403/03/01", "1403/02/01"), Err(CheckError::DueBeforeIssue));
}

#[test]
fn treasury_movements() {
    assert_eq!(treasury_movement_input("refund", 5, "x"), Err(TreasuryError::InvalidType));
    assert_eq!(treasury_movement_input("receipt", -5, "x"), Err(TreasuryError::AmountNotPositive));
    assert_eq!(treasury_movement_input("payment", 5, " "), Err(TreasuryError::MissingDescription));
    assert_eq!(treasury_movement_input("payment", 5, "rent"), Ok(TreasuryDirection::Payment));
    assert_eq!(treasury_permission(TreasuryDirection::Receipt), "treasury.receipt.create");
    assert_eq!(
        view(&treasury_movement_lines(TreasuryDirection::Receipt, "acc-1101", "acc-1201", 40)),
        vec![("acc-1101".into(), 40, 0), ("acc-1201".into(), 0, 40)]
    );
    assert_eq!(
        view(&treasury_movement_lines(TreasuryDirection::Payment, "acc-1101", "acc-6100", 40)),
        vec![("acc-6100".into(), 40, 0), ("acc-1101".into(), 0, 40)]
    );
    assert_eq!(transfer_input("t1", "t2", 0), Err(TreasuryError::AmountNotPositive));
    assert_eq!(transfer_input("t1", "t1", 3), Err(TreasuryError::SameAccount));
    assert_eq!(transfer_input("t1", "t2", 3), Ok(()));
    assert_eq!(
        view(&transfer_lines("acc-1101", "acc-1102", 3)),
        vec![("acc-1102".into(), 3, 0), ("acc-1101".into(), 0, 3)]
    );
}

#[test]
fn single_line_journal() {
    assert_eq!(single_line_entry(0, "a", &None, "b", &None).unwrap_err(), JournalError::AmountNotPositive);
    assert_eq!(single_line_entry(5, "a", &None, "a", &None).unwrap_err(), JournalError::SameAccount);
    let ok = single_line_entry(5, "a", &Some("s1".into()), "a", &Some("s2".into())).unwrap();
    assert_eq!(view(&ok), vec![("a".into(), 5, 0), ("a".into(), 0, 5)]);
    assert_eq!(nonempty(Some(String::new())), None);
    assert_eq!(nonempty(Some("p".into())), Some("p".to_string()));
}

#[test]
fn ledger_balances_run() {
    let moves = vec![(100, 0), (0, 30), (5, 5)];
    assert_eq!(running_balances(10, &moves), vec![110, 80, 80]);
    assert_eq!(check_ledger_range("1403/01/01", "1403/12/29"), Ok(()));
    assert_eq!(check_ledger_range("1403/02/01", "1403/01/01"), Err(PeriodError::BadRange));
}

#[test]
fn closing_a_year() {
    assert_eq!(check_year_closable(1, 0, 0), Err(PeriodError::DraftsRemain));
    assert_eq!(check_year_closable(0, 10, 9), Err(PeriodError::Unbalanced));
    assert_eq!(check_year_closable(0, 10, 10), Ok(()));
}

fn net_of(lines: &[desktop_host::journal::JournalLine], account: &str) -> i64 {
    lines.iter().filter(|l| l.account_id == account).map(|l| l.debit - l.credit).sum()
}

#[test]
fn paid_invoice_leaves_party_owing_nothing() {
    let mut sale = desktop_host::journal::invoice_journal_lines(true, 1000);
    sale.extend(desktop_host::journal::settlement_lines(true, 400));
    assert_eq!(net_of(&sale, "acc-1201"), 600);
    sale.extend(desktop_host::journal::settlement_lines(true, 600));
    assert_eq!(net_of(&sale, "acc-1201"), 0);
    let mut purchase = desktop_host::journal::invoice_journal_lines(false, 250);
    purchase.extend(desktop_host::journal::settlement_lines(false, 250));
    assert_eq!(net_of(&purchase, "acc-2101"), 0);
}
