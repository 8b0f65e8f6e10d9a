use desktop_host::journal::JournalLine;
use desktop_host::production::{
    formula_removal, production_description, production_journal_lines, ExpenseLine, FormulaRemoval,
    ProductionError,
};

fn view(lines: &[JournalLine]) -> Vec<(String, i64, i64)> {
    lines.iter().map(|x| (x.account_id.clone(), x.debit, x.credit)).collect()
}

fn expense(account: &str, amount: i64) -> ExpenseLine {
    ExpenseLine { account_id: account.into(), title: "cost".into(), amount }
}

#[test]
fn production_entry_moves_cost_into_finished_goods() {
    let lines = production_journal_lines(1500, 1000, &vec![expense("acc-6101", 300), expense("acc-6102", 0), expense("acc-6103", 200)]).unwrap();
    assert_eq!(view(&lines), vec![
        ("acc-1320".into(), 1500, 0),
        ("acc-1310".into(), 0, 1000),
        ("acc-6101".into(), 0, 300),
        ("acc-6103".into(), 0, 200),
    ]);
}

#[test]
fn production_entry_without_materials() {
    let lines = production_journal_lines(300, 0, &vec![expense("acc-6101", 300)]).unwrap();
    assert_eq!(view(&lines), vec![("acc-1320".into(), 300, 0), ("acc-6101".into(), 0, 300)]);
}

#[test]
fn unbalanced_production_is_refused() {
    assert_eq!(
        production_journal_lines(1000, 900, &vec![expense("acc-6101", 50)]).unwrap_err(),
        ProductionError::Unbalanced(1000, 950)
    );
}

#[test]
fn descriptions_and_formula_removal() {
    assert_eq!(production_description(&None, 12), "رسید تولید شماره 12");
    assert_eq!(production_description(&Some("x".into()), 12), "x");
    assert_eq!(formula_removal(2, true), Ok(FormulaRemoval::Deactivate));
    assert_eq!(formula_removal(0, true), Ok(FormulaRemoval::Delete));
    assert_eq!(formula_removal(0, false), Err(ProductionError::FormulaNotFound));
}
