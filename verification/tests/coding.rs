use desktop_host::coding::{
    account_tree, audit_coding, check_account_code, check_code_unique, check_account_form, check_deactivation,
    check_edit_with_movements, child_level, db_level_name, describe, level_from_db, nature_label,
    parse_nature, sibling_code_base, suggest_root_code, suggest_sibling_code, AccountNature,
    AccountRaw, CodingAuditRow, CodingError,
};

fn raw(id: &str, code: &str, parent: Option<&str>, level: &str, debit: i64, credit: i64) -> AccountRaw {
    AccountRaw {
        id: id.into(),
        code: code.into(),
        name: format!("name {id}"),
        parent_id: parent.map(str::to_string),
        nature: "debit".into(),
        is_active: 1,
        requires_subsidiary: 0,
        subsidiary_group_id: None,
        debit,
        credit,
        level: level.into(),
    }
}

#[test]
fn levels_and_labels() {
    assert_eq!(level_from_db("group"), 0);
    assert_eq!(level_from_db("general"), 1);
    assert_eq!(level_from_db("subsidiary"), 2);
    assert_eq!(level_from_db("detail"), 3);
    assert_eq!(level_from_db("anything"), 3);
    assert_eq!(db_level_name(0), "group");
    assert_eq!(db_level_name(7), "detail");
    assert_eq!(nature_label("debit"), "بدهکار");
    assert_eq!(nature_label("x"), "نامشخص");
    assert_eq!(parse_nature("mixed"), Ok(AccountNature::Mixed));
    assert_eq!(parse_nature("Debit"), Err(CodingError::BadNature));
}

#[test]
fn scheme_description() {
    let info = describe(vec![1, 3, 5, 7], vec![Some("گروه".into()), Some("کل".into()), None, Some("تفصیلی".into())]);
    assert_eq!(info.level_widths, vec![1, 2, 2, 2]);
    assert_eq!(info.capacities, vec![9, 99, 99, 99]);
    assert_eq!(info.code_lengths, vec![1, 3, 5, 7]);
    assert_eq!(info.level_titles[2], "سطح");
}

#[test]
fn branch_balances_roll_up() {
    let rows = vec![
        raw("g1", "1", None, "group", 0, 0),
        raw("c11", "11", Some("g1"), "general", 10, 0),
        raw("m1101", "1101", Some("c11"), "subsidiary", 100, 30),
        raw("m1102", "1102", Some("c11"), "subsidiary", 0, 20),
        raw("g2", "2", None, "group", 5, 0),
    ];
    let tree = account_tree(&rows, &vec![Some("گروه".into()), Some("کل".into()), Some("معین".into())]);
    assert_eq!(tree.len(), 5);
    assert_eq!(tree[0].rollup_balance, 60);
    assert_eq!(tree[1].rollup_balance, 60);
    assert_eq!(tree[2].rollup_balance, 70);
    assert_eq!(tree[3].rollup_balance, -20);
    assert_eq!(tree[4].rollup_balance, 5);
    assert_eq!(tree[0].child_count, 1);
    assert_eq!(tree[1].child_count, 2);
    assert!(!tree[1].is_postable);
    assert!(tree[2].is_postable);
    assert_eq!(tree[2].level, 2);
    assert_eq!(tree[2].level_title, "معین");
    assert_eq!(tree[1].nature_label, "بدهکار");
}

#[test]
fn root_codes_follow_round_codes() {
    let codes: Vec<String> = vec!["1000".into(), "2000".into(), "1101".into()];
    assert_eq!(suggest_root_code(&codes, 1).unwrap(), "3000");
    let flat: Vec<String> = vec!["1".into(), "2".into()];
    assert_eq!(suggest_root_code(&flat, 1).unwrap(), "3");
    let none: Vec<String> = vec![];
    assert_eq!(suggest_root_code(&none, 2).unwrap(), "10");
    let full: Vec<String> = (1..1000).map(|i| i.to_string()).collect();
    assert_eq!(suggest_root_code(&full, 1), Err(CodingError::RootLevelFull));
}

#[test]
fn sibling_codes_continue_the_series() {
    let siblings: Vec<String> = vec!["1101".into(), "1103".into(), "x".into()];
    let base = sibling_code_base(&siblings, "11");
    assert_eq!(base, 1103);
    let codes: Vec<String> = vec!["1101".into(), "1103".into(), "1104".into()];
    assert_eq!(suggest_sibling_code(&siblings, "11", base, &codes).unwrap(), "1105");
    let no_siblings: Vec<String> = vec![];
    let base = sibling_code_base(&no_siblings, "0110");
    assert_eq!(base, 110);
    assert_eq!(suggest_sibling_code(&no_siblings, "0110", base, &codes).unwrap(), "0111");
    assert_eq!(sibling_code_base(&no_siblings, "abc"), 0);
}

#[test]
fn health_report() {
    let rows = vec![
        CodingAuditRow { id: "a".into(), code: "1".into(), name: "A".into(), level: "group".into(), children: 2, lines: 3, parent_id: None, fits_scheme: false },
        CodingAuditRow { id: "b".into(), code: "11".into(), name: "B".into(), level: "general".into(), children: 0, lines: 4, parent_id: Some("a".into()), fits_scheme: true },
    ];
    let issues = audit_coding(&rows);
    assert_eq!(issues.len(), 3);
    assert_eq!(issues[0].severity, "error");
    assert_eq!(
        issues[0].message,
        "این حساب 2 زیرحساب دارد ولی 3 سطر سند مستقیم روی آن ثبت شده؛ جمع شاخه با مانده نمی‌خواند."
    );
    assert_eq!(issues[1].message, "سند مستقیم روی حساب سطح گروه ثبت شده است.");
    assert_eq!(issues[2].severity, "info");
    assert_eq!(issues[2].account_id, "a");
}

#[test]
fn saving_and_deactivating_accounts() {
    assert_eq!(check_account_form("  ", "debit").unwrap_err(), CodingError::MissingName);
    assert_eq!(check_account_form("Cash", "debt").unwrap_err(), CodingError::BadNature);
    let (name, nature) = check_account_form("  Cash ", "credit").unwrap();
    assert_eq!(name, "Cash");
    assert_eq!(nature, AccountNature::Credit);
    assert_eq!(check_account_code("1101"), Ok(()));
    assert_eq!(check_account_code("11a1"), Err(CodingError::CodeNotDigits));
    assert_eq!(check_account_code(""), Err(CodingError::CodeNotDigits));
    assert_eq!(child_level("general"), Ok(2));
    assert_eq!(child_level("detail"), Err(CodingError::TooDeep));
    assert_eq!(check_edit_with_movements(3, "1101", "1102", "debit", "debit"), Err(CodingError::CodeHasMovements));
    assert_eq!(check_edit_with_movements(3, "1101", "1101", "debit", "credit"), Err(CodingError::NatureHasMovements));
    assert_eq!(check_edit_with_movements(0, "1101", "1102", "debit", "credit"), Ok(()));
    assert_eq!(check_deactivation(1, 0), Err(CodingError::HasActiveChildren));
    assert_eq!(check_deactivation(0, 1), Err(CodingError::LinkedToTreasury));
    assert_eq!(check_deactivation(0, 0), Ok(()));
}

#[test]
fn accounts_without_children_roll_up_their_own_movements() {
    let rows = vec![
        raw("g1", "1", None, "group", 7, 2),
        raw("c11", "11", Some("g1"), "general", 10, 0),
        raw("m1101", "1101", Some("c11"), "subsidiary", 100, 30),
        raw("g2", "2", None, "group", 5, 9),
    ];
    let tree = account_tree(&rows, &vec![]);
    for node in &tree {
        if node.child_count == 0 {
            assert_eq!(node.rollup_balance, (node.debit - node.credit) as i128);
        }
    }
    assert_eq!(tree[0].rollup_balance, 85);
}

#[test]
fn duplicate_codes() {
    let existing = vec!["1101".to_string(), "1102".to_string()];
    assert_eq!(check_code_unique(&existing, "1102"), Err(CodingError::DuplicateCode));
    assert_eq!(check_code_unique(&existing, "1103"), Ok(()));
    assert_eq!(check_code_unique(&vec![], "1"), Ok(()));
}
