use desktop_host::treasury::{
    check_treasury_account, check_treasury_deactivation, check_type_filter, default_true,
    save_permission, type_label, TreasuryAccountError, TreasuryAccountInput,
};

fn input(name: &str, kind: &str) -> TreasuryAccountInput {
    TreasuryAccountInput {
        id: None,
        name: name.into(),
        account_type: kind.into(),
        account_number: None,
        iban: None,
        card_number: None,
        branch_name: None,
        branch_code: None,
        holder_name: None,
        has_pos_terminal: false,
        negative_policy: None,
        linked_account_id: None,
        is_active: true,
    }
}

#[test]
fn labels_and_defaults() {
    assert_eq!(type_label("cash"), "صندوق");
    assert_eq!(type_label("bank"), "حساب بانکی");
    assert_eq!(type_label("petty_cash"), "تنخواه");
    assert_eq!(type_label("safe"), "نامشخص");
    assert!(default_true());
    assert_eq!(check_type_filter(&None), Ok(()));
    assert_eq!(check_type_filter(&Some("  ".into())), Ok(()));
    assert_eq!(check_type_filter(&Some("safe".into())), Err(TreasuryAccountError::BadType));
}

#[test]
fn form_checks_in_order() {
    assert_eq!(check_treasury_account(&input(" ", "cash"), "warn", true, true).unwrap_err(), TreasuryAccountError::MissingName);
    assert_eq!(check_treasury_account(&input("Box", "safe"), "warn", true, true).unwrap_err(), TreasuryAccountError::BadType);
    assert_eq!(check_treasury_account(&input("Box", "cash"), "panic", true, true).unwrap_err(), TreasuryAccountError::BadPolicy);
    let mut bank = input("Melli", "bank");
    bank.iban = Some(" IR000 ".into());
    assert_eq!(check_treasury_account(&bank, "warn", false, true).unwrap_err(), TreasuryAccountError::BadIban);
    let mut card = input("Box", "cash");
    card.card_number = Some("6037".into());
    assert_eq!(check_treasury_account(&card, "warn", true, false).unwrap_err(), TreasuryAccountError::BadCard);
    let mut cash = input("Box", "cash");
    cash.branch_name = Some("Central".into());
    assert_eq!(check_treasury_account(&cash, "warn", true, true).unwrap_err(), TreasuryAccountError::BankDetailsOnNonBank);
}

#[test]
fn form_gives_what_is_stored() {
    let mut bank = input("  Melli  ", "bank");
    bank.iban = Some(" IR12 ".into());
    bank.negative_policy = Some(" error ".into());
    let f = check_treasury_account(&bank, "warn", true, true).unwrap();
    assert_eq!(f.name, "Melli");
    assert_eq!(f.negative_policy, "error");
    assert_eq!(f.iban, Some("IR12".to_string()));
    assert_eq!(f.card_number, None);
    let f = check_treasury_account(&input("Box", "cash"), "ignore", true, true).unwrap();
    assert_eq!(f.negative_policy, "ignore");
}

#[test]
fn deactivation_needs_zero_balance() {
    assert_eq!(check_treasury_deactivation(15, 0), Err(TreasuryAccountError::NonZeroBalance(15)));
    assert_eq!(check_treasury_deactivation(0, 2), Err(TreasuryAccountError::OpenChecks));
    assert_eq!(check_treasury_deactivation(0, 0), Ok(()));
    let mut i = input("a", "cash");
    assert_eq!(save_permission(&i), "treasury.account.create");
    i.id = Some("t1".into());
    assert_eq!(save_permission(&i), "treasury.account.update");
}

#[test]
fn statement_running_balances() {
    let rows = vec![
        ("receipt".to_string(), 1000),
        ("payment".to_string(), 300),
        ("transfer_out".to_string(), 200),
        ("transfer_in".to_string(), 50),
        ("adjustment".to_string(), 1),
    ];
    assert_eq!(desktop_host::treasury::statement_balances(&rows), vec![1000, 700, 500, 550, 549]);
    assert!(desktop_host::treasury::statement_balances(&vec![]).is_empty());
}

#[test]
fn transfer_moves_money_without_loss() {
    let out_then_in = vec![("transfer_out".to_string(), 75), ("transfer_in".to_string(), 75)];
    assert_eq!(desktop_host::treasury::statement_balances(&out_then_in).last(), Some(&0));
}
